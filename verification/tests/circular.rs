use tui_logger::CircularBuffer;

#[test]
fn circular_buffer() {
    let mut cb: CircularBuffer<u64> = CircularBuffer::new(5);

    // Empty buffer
    {
        let mut cb_iter = cb.iter().into_iter();
        assert_eq!(cb_iter.next(), None);
        assert_eq!(cb.first_index(), None);
        assert_eq!(cb.last_index(), None);
    }

    // Push in a value
    cb.push(1);
    {
        let mut cb_iter = cb.iter().into_iter();
        assert_eq!(cb_iter.next(), Some(1));
        assert_eq!(cb_iter.next(), None);
        assert_eq!(cb.first_index(), Some(0));
        assert_eq!(cb.last_index(), Some(0));
    }

    // Push in a value
    cb.push(2);
    {
        let mut cb_iter = cb.iter().into_iter();
        assert_eq!(cb_iter.next(), Some(1));
        assert_eq!(cb_iter.next(), Some(2));
        assert_eq!(cb_iter.next(), None);
        assert_eq!(cb.first_index(), Some(0));
        assert_eq!(cb.last_index(), Some(1));
    }

    // Push in a value
    cb.push(3);
    {
        let mut cb_iter = cb.iter().into_iter();
        assert_eq!(cb_iter.next(), Some(1));
        assert_eq!(cb_iter.next(), Some(2));
        assert_eq!(cb_iter.next(), Some(3));
        assert_eq!(cb_iter.next(), None);
        assert_eq!(cb.first_index(), Some(0));
        assert_eq!(cb.last_index(), Some(2));
    }

    // Push in a value
    cb.push(4);
    {
        let mut cb_iter = cb.iter().into_iter();
        assert_eq!(cb_iter.next(), Some(1));
        assert_eq!(cb_iter.next(), Some(2));
        assert_eq!(cb_iter.next(), Some(3));
        assert_eq!(cb_iter.next(), Some(4));
        assert_eq!(cb_iter.next(), None);
        assert_eq!(cb.first_index(), Some(0));
        assert_eq!(cb.last_index(), Some(3));
    }

    // Push in a value
    cb.push(5);
    {
        let mut cb_iter = cb.iter().into_iter();
        assert_eq!(cb_iter.next(), Some(1));
        assert_eq!(cb_iter.next(), Some(2));
        assert_eq!(cb_iter.next(), Some(3));
        assert_eq!(cb_iter.next(), Some(4));
        assert_eq!(cb_iter.next(), Some(5));
        assert_eq!(cb_iter.next(), None);
        assert_eq!(cb.first_index(), Some(0));
        assert_eq!(cb.last_index(), Some(4));
    }

    // Push in a value
    cb.push(6);
    {
        let mut cb_iter = cb.iter().into_iter();
        assert_eq!(cb_iter.next(), Some(2));
        assert_eq!(cb_iter.next(), Some(3));
        assert_eq!(cb_iter.next(), Some(4));
        assert_eq!(cb_iter.next(), Some(5));
        assert_eq!(cb_iter.next(), Some(6));
        assert_eq!(cb_iter.next(), None);
        assert_eq!(cb.first_index(), Some(1));
        assert_eq!(cb.last_index(), Some(5));
    }

    // Push in a value
    cb.push(7);
    {
        let mut cb_iter = cb.iter().into_iter();
        assert_eq!(cb_iter.next(), Some(3));
        assert_eq!(cb_iter.next(), Some(4));
        assert_eq!(cb_iter.next(), Some(5));
        assert_eq!(cb_iter.next(), Some(6));
        assert_eq!(cb_iter.next(), Some(7));
        assert_eq!(cb_iter.next(), None);
        assert_eq!(cb.first_index(), Some(2));
        assert_eq!(cb.last_index(), Some(6));
    }

    // Push in a value
    cb.push(8);
    {
        let mut cb_iter = cb.iter().into_iter();
        assert_eq!(cb_iter.next(), Some(4));
        assert_eq!(cb_iter.next(), Some(5));
        assert_eq!(cb_iter.next(), Some(6));
        assert_eq!(cb_iter.next(), Some(7));
        assert_eq!(cb_iter.next(), Some(8));
        assert_eq!(cb_iter.next(), None);
        assert_eq!(cb.first_index(), Some(3));
        assert_eq!(cb.last_index(), Some(7));
    }

    // Push in a value
    cb.push(9);
    {
        let mut cb_iter = cb.iter().into_iter();
        assert_eq!(cb_iter.next(), Some(5));
        assert_eq!(cb_iter.next(), Some(6));
        assert_eq!(cb_iter.next(), Some(7));
        assert_eq!(cb_iter.next(), Some(8));
        assert_eq!(cb_iter.next(), Some(9));
        assert_eq!(cb_iter.next(), None);
        assert_eq!(cb.first_index(), Some(4));
        assert_eq!(cb.last_index(), Some(8));
    }

    // Push in a value
    cb.push(10);
    {
        let mut cb_iter = cb.iter().into_iter();
        assert_eq!(cb_iter.next(), Some(6));
        assert_eq!(cb_iter.next(), Some(7));
        assert_eq!(cb_iter.next(), Some(8));
        assert_eq!(cb_iter.next(), Some(9));
        assert_eq!(cb_iter.next(), Some(10));
        assert_eq!(cb_iter.next(), None);
        assert_eq!(cb.first_index(), Some(5));
        assert_eq!(cb.last_index(), Some(9));
    }

    // Push in a value
    cb.push(11);
    {
        let mut cb_iter = cb.iter().into_iter();
        assert_eq!(cb_iter.next(), Some(7));
        assert_eq!(cb_iter.next(), Some(8));
        assert_eq!(cb_iter.next(), Some(9));
        assert_eq!(cb_iter.next(), Some(10));
        assert_eq!(cb_iter.next(), Some(11));
        assert_eq!(cb_iter.next(), None);
        assert_eq!(cb.first_index(), Some(6));
        assert_eq!(cb.last_index(), Some(10));
        assert_eq!(cb.element_at_index(5), None);
        assert_eq!(cb.element_at_index(6), Some(&7));
        assert_eq!(cb.element_at_index(10), Some(&11));
        assert_eq!(cb.element_at_index(11), None);
    }
}

#[test]
fn circular_buffer_rev() {
    let mut cb: CircularBuffer<u64> = CircularBuffer::new(5);

    // Empty buffer
    {
        let mut cb_iter = cb.rev_iter().into_iter();
        assert_eq!(cb_iter.next(), None);
    }

    // Push in a value
    cb.push(1);
    {
        let mut cb_iter = cb.rev_iter().into_iter();
        assert_eq!(cb_iter.next(), Some(1));
        assert_eq!(cb_iter.next(), None);
    }

    // Push in a value
    cb.push(2);
    {
        let mut cb_iter = cb.rev_iter().into_iter();
        assert_eq!(cb_iter.next(), Some(2));
        assert_eq!(cb_iter.next(), Some(1));
        assert_eq!(cb_iter.next(), None);
    }

    // Push in a value
    cb.push(3);
    {
        let mut cb_iter = cb.rev_iter().into_iter();
        assert_eq!(cb_iter.next(), Some(3));
        assert_eq!(cb_iter.next(), Some(2));
        assert_eq!(cb_iter.next(), Some(1));
        assert_eq!(cb_iter.next(), None);
    }

    // Push in a value
    cb.push(4);
    {
        let mut cb_iter = cb.rev_iter().into_iter();
        assert_eq!(cb_iter.next(), Some(4));
        assert_eq!(cb_iter.next(), Some(3));
        assert_eq!(cb_iter.next(), Some(2));
        assert_eq!(cb_iter.next(), Some(1));
        assert_eq!(cb_iter.next(), None);
    }

    // Push in a value
    cb.push(5);
    {
        let mut cb_iter = cb.rev_iter().into_iter();
        assert_eq!(cb_iter.next(), Some(5));
        assert_eq!(cb_iter.next(), Some(4));
        assert_eq!(cb_iter.next(), Some(3));
        assert_eq!(cb_iter.next(), Some(2));
        assert_eq!(cb_iter.next(), Some(1));
        assert_eq!(cb_iter.next(), None);
    }

    // Push in a value
    cb.push(6);
    {
        let mut cb_iter = cb.rev_iter().into_iter();
        assert_eq!(cb_iter.next(), Some(6));
        assert_eq!(cb_iter.next(), Some(5));
        assert_eq!(cb_iter.next(), Some(4));
        assert_eq!(cb_iter.next(), Some(3));
        assert_eq!(cb_iter.next(), Some(2));
        assert_eq!(cb_iter.next(), None);
    }

    // Push in a value
    cb.push(7);
    {
        let mut cb_iter = cb.rev_iter().into_iter();
        assert_eq!(cb_iter.next(), Some(7));
        assert_eq!(cb_iter.next(), Some(6));
        assert_eq!(cb_iter.next(), Some(5));
        assert_eq!(cb_iter.next(), Some(4));
        assert_eq!(cb_iter.next(), Some(3));
        assert_eq!(cb_iter.next(), None);
    }

    // Push in a value
    cb.push(8);
    {
        let mut cb_iter = cb.rev_iter().into_iter();
        assert_eq!(cb_iter.next(), Some(8));
        assert_eq!(cb_iter.next(), Some(7));
        assert_eq!(cb_iter.next(), Some(6));
        assert_eq!(cb_iter.next(), Some(5));
        assert_eq!(cb_iter.next(), Some(4));
        assert_eq!(cb_iter.next(), None);
    }

    // Push in a value
    cb.push(9);
    {
        let mut cb_iter = cb.rev_iter().into_iter();
        assert_eq!(cb_iter.next(), Some(9));
        assert_eq!(cb_iter.next(), Some(8));
        assert_eq!(cb_iter.next(), Some(7));
        assert_eq!(cb_iter.next(), Some(6));
        assert_eq!(cb_iter.next(), Some(5));
        assert_eq!(cb_iter.next(), None);
    }

    // Push in a value
    cb.push(10);
    {
        let mut cb_iter = cb.rev_iter().into_iter();
        assert_eq!(cb_iter.next(), Some(10));
        assert_eq!(cb_iter.next(), Some(9));
        assert_eq!(cb_iter.next(), Some(8));
        assert_eq!(cb_iter.next(), Some(7));
        assert_eq!(cb_iter.next(), Some(6));
        assert_eq!(cb_iter.next(), None);
    }

    // Push in a value
    cb.push(11);
    {
        let mut cb_iter = cb.rev_iter().into_iter();
        assert_eq!(cb_iter.next(), Some(11));
        assert_eq!(cb_iter.next(), Some(10));
        assert_eq!(cb_iter.next(), Some(9));
        assert_eq!(cb_iter.next(), Some(8));
        assert_eq!(cb_iter.next(), Some(7));
        assert_eq!(cb_iter.next(), None);
    }
}

#[test]
fn total_elements() {
    let mut cb: CircularBuffer<u64> = CircularBuffer::new(5);

    assert_eq!(0, cb.total_elements());
    for i in 1..20 {
        cb.push(i);
        assert_eq!(i as usize, cb.total_elements());
    }
}

#[test]
fn has_wrapped() {
    let mut cb: CircularBuffer<u64> = CircularBuffer::new(5);

    assert_eq!(0, cb.total_elements());
    for i in 1..20 {
        cb.push(i);
        assert_eq!(i >= 6, cb.has_wrapped());
    }
}

#[test]
fn take() {
    let mut cb: CircularBuffer<u64> = CircularBuffer::new(5);
    for i in 1..5 {
        cb.push(i);
    }
    assert_eq!(vec![1, 2, 3, 4], cb.take());

    for i in 1..6 {
        cb.push(i);
    }
    assert_eq!(vec![1, 2, 3, 4, 5], cb.take());

    for i in 1..7 {
        cb.push(i);
    }
    assert_eq!(vec![2, 3, 4, 5, 6], cb.take());

    let mut cb: CircularBuffer<u64> = CircularBuffer::new(5);
    for i in 1..20 {
        cb.push(i);
    }
    assert_eq!(vec![15, 16, 17, 18, 19], cb.take());
}

#[test]
fn take_then_push_has_no_residue() {
    let mut cb: CircularBuffer<u64> = CircularBuffer::new(5);
    for i in 1..20 {
        cb.push(i);
    }
    let drained = cb.take();
    assert_eq!(drained.len(), 5);
    assert_eq!(cb.len(), 0);
    assert_eq!(cb.total_elements(), 0);
    cb.push(42);
    assert_eq!(cb.iter(), vec![42]);
    assert_eq!(cb.len(), 1);
}

#[test]
fn rev_iter_is_reverse_of_iter() {
    let mut cb: CircularBuffer<u64> = CircularBuffer::new(3);
    for i in 0..8 {
        cb.push(i);
        let mut forward = cb.iter();
        forward.reverse();
        assert_eq!(forward, cb.rev_iter());
    }
}

#[test]
fn zero_capacity_counts_but_keeps_nothing() {
    let mut cb: CircularBuffer<u64> = CircularBuffer::new(0);
    cb.push(1);
    cb.push(2);
    assert_eq!(cb.total_elements(), 2);
    assert_eq!(cb.len(), 0);
    assert_eq!(cb.iter(), Vec::<u64>::new());
    assert_eq!(cb.element_at_index(0), None);
    assert_eq!(cb.element_at_index(1), None);
}
