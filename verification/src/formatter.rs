//! Formatting of one record into its wrapped render lines.
//!
//! The paging algorithm treats the formatter as a collaborator behind
//! the `LogFormatter` interface: each event formats to one or more
//! lines for a given width, and scrolling is stable because anchors
//! name an event and a line within it, never a raw row.

use vstd::prelude::*;
use vstd::string::StringExecFns;
use vstd::std_specs::iter::IteratorSpec;
use crate::levels::Level;
use crate::record::ExtLogRecord;
use crate::record::TuiLoggerLevelOutput;
use crate::record::dec_digits;
use crate::record::decimal_string;
use crate::file::level_long;
use crate::file::level_abbr;
use crate::file::level_long_str;
use crate::file::level_abbr_str;
use crate::trusted::graphemes;
use crate::trusted::graphemes_of;
use crate::trusted::push_char;

verus! {

broadcast use vstd::string::group_string_axioms;

/// A formatter turning one record into render lines of at most the
/// given width. An implementation must render deterministically, as
/// described by its own `spec_format`, and always yield at least one
/// line.
pub trait LogFormatter {
    /// The smallest width the formatter can render into.
    fn min_width(&self) -> u16;

    /// The lines `format` renders, as a function of the width and the
    /// record. Implementations override this with their own rendering
    /// function; the default stands for a formatter with no promised
    /// rendering.
    closed spec fn spec_format(&self, width: usize, evt: ExtLogRecord) -> Seq<Seq<char>> {
        seq![Seq::<char>::empty()]
    }

    /// Render the record into lines for the given width.
    fn format(&self, width: usize, evt: &ExtLogRecord) -> (r: Vec<String>)
        ensures
            r.deep_view() == self.spec_format(width, *evt),
            r@.len() >= 1,
    ;
}

/// The message split at newline characters; always at least one line,
/// possibly empty.
pub open spec fn spec_split_lines(s: Seq<char>) -> Seq<Seq<char>>
    decreases s.len(),
{
    if s.len() == 0 {
        seq![Seq::<char>::empty()]
    } else if s[0] == '\n' {
        seq![Seq::<char>::empty()] + spec_split_lines(s.drop_first())
    } else {
        let rest = spec_split_lines(s.drop_first());
        seq![seq![s[0]] + rest[0]] + rest.drop_first()
    }
}

pub proof fn lemma_split_lines_len(s: Seq<char>)
    ensures
        spec_split_lines(s).len() >= 1,
    decreases s.len(),
{
    if s.len() != 0 {
        lemma_split_lines_len(s.drop_first());
    }
}

/// Split a string at newline characters.
pub fn split_lines(s: &str) -> (r: Vec<String>)
    ensures
        r.deep_view() == spec_split_lines(s@),
        r@.len() >= 1,
{
    let mut out: Vec<String> = Vec::new();
    let mut cur: String = String::new();
    let mut it = s.chars();
    loop
        invariant
            it.decrease() is Some,
            spec_split_lines(s@) =~~= out.deep_view() + adjust_first(
                cur@,
                spec_split_lines(it.remaining()),
            ),
        ensures
            spec_split_lines(s@) =~~= out.deep_view() + seq![cur@],
        decreases it.decrease()->0,
    {
        let ghost rem_pre = it.remaining();
        let ghost cur0 = cur@;
        let ghost out0 = out.deep_view();
        let next = it.next();
        match next {
            None => {
                proof {
                    assert(rem_pre.len() == 0);
                    assert(spec_split_lines(rem_pre) =~~= seq![Seq::<char>::empty()]);
                    assert(adjust_first(cur@, spec_split_lines(rem_pre)) =~~= seq![cur@]);
                }
                break ;
            },
            Some(c) => {
                proof {
                    assert(rem_pre.len() > 0);
                    assert(rem_pre[0] == c);
                    assert(it.remaining() == rem_pre.drop_first());
                    lemma_split_lines_len(rem_pre.drop_first());
                }
                if c == '\n' {
                    out.push(cur);
                    cur = String::new();
                    proof {
                        let rest = spec_split_lines(rem_pre.drop_first());
                        assert(spec_split_lines(rem_pre) =~~= seq![Seq::<char>::empty()] + rest);
                        assert(adjust_first(cur0, spec_split_lines(rem_pre)) =~~= seq![cur0]
                            + rest);
                        assert(adjust_first(Seq::<char>::empty(), rest) =~~= rest);
                        assert(out.deep_view() =~~= out0.push(cur0));
                        assert(out.deep_view() + adjust_first(cur@, rest) =~~= out0 + (seq![cur0]
                            + rest));
                    }
                } else {
                    push_char(&mut cur, c);
                    proof {
                        let rest = spec_split_lines(rem_pre.drop_first());
                        assert(spec_split_lines(rem_pre) =~~= seq![seq![c] + rest[0]]
                            + rest.drop_first());
                        assert(adjust_first(cur0, spec_split_lines(rem_pre)) =~~= adjust_first(
                            cur@,
                            rest,
                        )) by {
                            assert(cur0 + (seq![c] + rest[0]) =~= cur@ + rest[0]);
                            assert((seq![seq![c] + rest[0]] + rest.drop_first()).drop_first()
                                =~~= rest.drop_first());
                        }
                    }
                }
            },
        }
    }
    out.push(cur);
    proof {
        lemma_split_lines_len(s@);
    }
    out
}

/// The lines of `lines` with `prefix` glued onto the front of the
/// first one.
pub open spec fn adjust_first(prefix: Seq<char>, lines: Seq<Seq<char>>) -> Seq<Seq<char>> {
    seq![prefix + lines[0]] + lines.drop_first()
}

/// `n` space characters.
pub open spec fn spaces(n: nat) -> Seq<char> {
    Seq::new(n, |i: int| ' ')
}

/// The concatenation of a sequence of grapheme clusters.
pub open spec fn flatten_clusters(cs: Seq<Seq<char>>) -> Seq<char>
    decreases cs.len(),
{
    if cs.len() == 0 {
        Seq::<char>::empty()
    } else {
        cs[0] + flatten_clusters(cs.drop_first())
    }
}

pub proof fn lemma_flatten_push(cs: Seq<Seq<char>>, x: Seq<char>)
    ensures
        flatten_clusters(cs.push(x)) == flatten_clusters(cs) + x,
    decreases cs.len(),
{
    if cs.len() == 0 {
        assert(cs.push(x).drop_first() =~= Seq::<Seq<char>>::empty());
        assert(cs.push(x)[0] == x);
        assert(flatten_clusters(Seq::<Seq<char>>::empty()) == Seq::<char>::empty());
        assert(flatten_clusters(cs.push(x)) == x + Seq::<char>::empty());
        assert(flatten_clusters(cs.push(x)) =~= x);
        assert(flatten_clusters(cs) + x =~= x);
    } else {
        assert(cs.push(x).drop_first() =~= cs.drop_first().push(x));
        lemma_flatten_push(cs.drop_first(), x);
        assert(flatten_clusters(cs.push(x)) =~= flatten_clusters(cs) + x);
    }
}

/// How many clusters fit on the next line: the width less the indent
/// for an indented line, at least one so that wrapping always makes
/// progress.
pub open spec fn chunk_len(width: nat, indent: nat, with_indent: bool) -> nat {
    let w = if with_indent {
        if width > indent {
            (width - indent) as nat
        } else {
            1
        }
    } else {
        width
    };
    if w == 0 {
        1
    } else {
        w
    }
}

/// Wrap a sequence of grapheme clusters into lines: chunks of
/// `chunk_len` clusters, every line after the first (and the first
/// one, if `with_indent`) prefixed by `indent` spaces.
pub open spec fn wrap_line(
    clusters: Seq<Seq<char>>,
    width: nat,
    indent: nat,
    with_indent: bool,
) -> Seq<Seq<char>>
    decreases clusters.len(),
{
    if clusters.len() == 0 {
        Seq::<Seq<char>>::empty()
    } else {
        let n = chunk_len(width, indent, with_indent);
        let k = if clusters.len() < n {
            clusters.len()
        } else {
            n
        };
        let body = flatten_clusters(clusters.take(k as int));
        let text = if with_indent {
            spaces(indent) + body
        } else {
            body
        };
        seq![text] + wrap_line(clusters.skip(k as int), width, indent, true)
    }
}

/// A string of `n` spaces.
fn make_spaces(n: usize) -> (r: String)
    ensures
        r@ == spaces(n as nat),
{
    let mut out = String::new();
    let mut i: usize = 0;
    while i < n
        invariant
            i <= n,
            out@ =~= spaces(i as nat),
        decreases n - i,
    {
        push_char(&mut out, ' ');
        i = i + 1;
        proof {
            assert(out@ =~= spaces(i as nat));
        }
    }
    out
}

/// Append the wrapped lines of one source line (given as grapheme
/// clusters) to `lines`.
fn wrap_into(
    lines: &mut Vec<String>,
    clusters: &Vec<String>,
    width: usize,
    indent: usize,
    with_indent: bool,
)
    ensures
        final(lines).deep_view() =~~= old(lines).deep_view() + wrap_line(
            clusters.deep_view(),
            width as nat,
            indent as nat,
            with_indent,
        ),
{
    let n = clusters.len();
    let mut p: usize = 0;
    let mut indented = with_indent;
    proof {
        assert(clusters.deep_view().skip(0) =~~= clusters.deep_view());
    }
    while p < n
        invariant
            n == clusters@.len(),
            p <= n,
            lines.deep_view() + wrap_line(
                clusters.deep_view().skip(p as int),
                width as nat,
                indent as nat,
                indented,
            ) =~~= old(lines).deep_view() + wrap_line(
                clusters.deep_view(),
                width as nat,
                indent as nat,
                with_indent,
            ),
            p < n ==> (indented == with_indent || p > 0),
            p == 0 ==> indented == with_indent,
            p > 0 ==> indented,
        decreases n - p,
    {
        let ghost cl = clusters.deep_view();
        // chunk size
        let mut step: usize = if indented {
            if width > indent {
                width - indent
            } else {
                1
            }
        } else {
            width
        };
        if step == 0 {
            step = 1;
        }
        let k: usize = if n - p < step {
            n - p
        } else {
            step
        };
        let mut text: String = if indented {
            make_spaces(indent)
        } else {
            String::new()
        };
        let ghost prefix = text@;
        let mut j: usize = p;
        while j < p + k
            invariant
                p + k <= n,
                n == clusters@.len(),
                p <= j <= p + k,
                cl == clusters.deep_view(),
                text@ =~= prefix + flatten_clusters(cl.subrange(p as int, j as int)),
            decreases p + k - j,
        {
            text.append(clusters[j].as_str());
            j = j + 1;
            proof {
                assert(cl.subrange(p as int, j as int) =~= cl.subrange(
                    p as int,
                    j - 1,
                ).push(cl[j - 1]));
                lemma_flatten_push(cl.subrange(p as int, j - 1), cl[j - 1]);
            }
        }
        lines.push(text);
        proof {
            let rem = cl.skip(p as int);
            assert(rem.take(k as int) =~= cl.subrange(p as int, (p + k) as int));
            assert(rem.skip(k as int) =~= cl.skip((p + k) as int));
            assert(wrap_line(rem, width as nat, indent as nat, indented) =~~= seq![text@]
                + wrap_line(cl.skip((p + k) as int), width as nat, indent as nat, true));
        }
        p = p + k;
        indented = true;
    }
    proof {
        assert(wrap_line(
            clusters.deep_view().skip(p as int),
            width as nat,
            indent as nat,
            indented,
        ) =~~= Seq::<Seq<char>>::empty());
    }
}

/// The widget's standard formatter: time stamp, level, target, source
/// file and line as configured, then the message, wrapped with a
/// nine-column indent for continuation lines. The time stamp is
/// written as the capture time in milliseconds.
pub struct LogStandardFormatter {
    /// Separator between header fields.
    pub format_separator: char,
    /// Whether the time stamp is written. The format string is kept
    /// for interface parity; the engine writes the numeric capture
    /// time.
    pub format_timestamp: Option<String>,
    /// How the level is written, or `None` to omit it.
    pub format_output_level: Option<TuiLoggerLevelOutput>,
    /// Whether the target is written.
    pub format_output_target: bool,
    /// Whether the source file is written.
    pub format_output_file: bool,
    /// Whether the source line is written.
    pub format_output_line: bool,
}

/// The decimal rendering of a possibly negative timestamp.
pub open spec fn dec_digits_int(v: int) -> Seq<char> {
    if v < 0 {
        seq!['-'] + dec_digits((-v) as nat)
    } else {
        dec_digits(v as nat)
    }
}

/// Render a signed timestamp in decimal.
pub fn decimal_string_i64(n: i64) -> (r: String)
    ensures
        r@ == dec_digits_int(n as int),
{
    if n >= 0 {
        let r = decimal_string_u64(n as u64);
        r
    } else {
        let mag: u64 = if n == i64::MIN {
            9223372036854775808u64
        } else {
            (-n) as u64
        };
        let mut out = String::from_str("-");
        let digits = decimal_string_u64(mag);
        out.append(digits.as_str());
        proof {
            reveal_strlit("-");
            assert(out@ =~= dec_digits_int(n as int));
        }
        out
    }
}

/// Render an unsigned counter in decimal.
pub fn decimal_string_u64(n: u64) -> (r: String)
    ensures
        r@ == dec_digits(n as nat),
    decreases n,
{
    if n < 10 {
        let d = crate::record::decimal_string((n % 10) as usize);
        d
    } else {
        let mut s = decimal_string_u64(n / 10);
        let d = crate::record::decimal_string((n % 10) as usize);
        s.append(d.as_str());
        proof {
            assert(s@ =~= dec_digits(n as nat));
        }
        s
    }
}

/// The header the standard formatter writes before the message: the
/// enabled fields, each followed by the separator.
pub open spec fn std_header(f: LogStandardFormatter, evt: ExtLogRecord) -> Seq<char> {
    let sep = f.format_separator;
    let p0 = if f.format_timestamp is Some {
        dec_digits_int(evt.timestamp as int).push(sep)
    } else {
        Seq::<char>::empty()
    };
    let p1 = match f.format_output_level {
        None => p0,
        Some(TuiLoggerLevelOutput::Abbreviated) => p0 + level_abbr(evt.level).push(sep),
        Some(TuiLoggerLevelOutput::Long) => p0 + level_long(evt.level).push(sep),
    };
    let p2 = if f.format_output_target {
        p1 + evt.target@.push(sep)
    } else {
        p1
    };
    let p3 = if f.format_output_file && evt.file is Some {
        p2 + evt.file->0@.push(sep)
    } else {
        p2
    };
    if f.format_output_line && evt.line is Some {
        p3 + dec_digits(evt.line->0 as nat).push(sep)
    } else {
        p3
    }
}

/// The wrapped lines of the message lines after the first, each with
/// the continuation indent.
pub open spec fn std_rest_lines(msg_lines: Seq<Seq<char>>, width: nat) -> Seq<Seq<char>>
    decreases msg_lines.len(),
{
    if msg_lines.len() == 0 {
        Seq::<Seq<char>>::empty()
    } else {
        wrap_line(graphemes_of(msg_lines[0]), width, 9, true) + std_rest_lines(
            msg_lines.drop_first(),
            width,
        )
    }
}

/// All lines the standard formatter renders, before the at-least-one
/// guard.
pub open spec fn std_format_lines(
    f: LogStandardFormatter,
    width: nat,
    evt: ExtLogRecord,
) -> Seq<Seq<char>> {
    let msg_lines = spec_split_lines(evt.msg@);
    wrap_line(graphemes_of(std_header(f, evt) + msg_lines[0]), width, 9, false) + std_rest_lines(
        msg_lines.drop_first(),
        width,
    )
}

/// The lines the standard formatter renders: at least one, an empty
/// line when there is nothing to show.
pub open spec fn std_format_spec(
    f: LogStandardFormatter,
    width: nat,
    evt: ExtLogRecord,
) -> Seq<Seq<char>> {
    let lines = std_format_lines(f, width, evt);
    if lines.len() == 0 {
        seq![Seq::<char>::empty()]
    } else {
        lines
    }
}

impl LogStandardFormatter {
    /// A formatter with the defaults: `:` separator, numeric time
    /// stamp, long level, target, file and line all written.
    pub fn new() -> (r: LogStandardFormatter)
        ensures
            r.format_separator == ':',
            r.format_timestamp is Some,
            r.format_output_level == Some(TuiLoggerLevelOutput::Long),
            r.format_output_target,
            r.format_output_file,
            r.format_output_line,
    {
        LogStandardFormatter {
            format_separator: ':',
            format_timestamp: Some("%H:%M:%S".to_owned()),
            format_output_level: Some(TuiLoggerLevelOutput::Long),
            format_output_target: true,
            format_output_file: true,
            format_output_line: true,
        }
    }
}

impl LogFormatter for LogStandardFormatter {
    fn min_width(&self) -> u16 {
        9 + 4
    }

    open spec fn spec_format(&self, width: usize, evt: ExtLogRecord) -> Seq<Seq<char>> {
        std_format_spec(*self, width as nat, evt)
    }

    fn format(&self, width: usize, evt: &ExtLogRecord) -> (r: Vec<String>)
        ensures
            r.deep_view() == self.spec_format(width, *evt),
            r@.len() >= 1,
    {
        let sep = self.format_separator;
        let mut header = String::new();
        if self.format_timestamp.is_some() {
            let ts = decimal_string_i64(evt.timestamp);
            header.append(ts.as_str());
            push_char(&mut header, sep);
        }
        match self.format_output_level {
            None => {},
            Some(TuiLoggerLevelOutput::Abbreviated) => {
                header.append(level_abbr_str(evt.level));
                push_char(&mut header, sep);
            },
            Some(TuiLoggerLevelOutput::Long) => {
                header.append(level_long_str(evt.level));
                push_char(&mut header, sep);
            },
        }
        if self.format_output_target {
            header.append(evt.target.as_str());
            push_char(&mut header, sep);
        }
        if self.format_output_file {
            if let Some(file) = &evt.file {
                header.append(file.as_str());
                push_char(&mut header, sep);
            }
        }
        if self.format_output_line {
            if let Some(line) = evt.line {
                let line_str = decimal_string(line as usize);
                header.append(line_str.as_str());
                push_char(&mut header, sep);
            }
        }
        proof {
            assert(header@ =~= std_header(*self, *evt));
        }
        let msg_lines = split_lines(evt.msg.as_str());
        let ghost spec_msg_lines = spec_split_lines(evt.msg@);
        let mut first = header;
        first.append(msg_lines[0].as_str());
        let first_clusters = graphemes(first.as_str());
        let mut lines: Vec<String> = Vec::new();
        wrap_into(&mut lines, &first_clusters, width, 9, false);
        let m = msg_lines.len();
        let mut j: usize = 1;
        proof {
            assert(spec_msg_lines.skip(1) =~~= spec_msg_lines.drop_first());
        }
        while j < m
            invariant
                m == msg_lines@.len(),
                msg_lines.deep_view() == spec_msg_lines,
                spec_msg_lines.len() >= 1,
                1 <= j <= m,
                lines.deep_view() + std_rest_lines(spec_msg_lines.skip(j as int), width as nat)
                    =~~= std_format_lines(*self, width as nat, *evt),
            decreases m - j,
        {
            let cl = graphemes(msg_lines[j].as_str());
            wrap_into(&mut lines, &cl, width, 9, true);
            proof {
                let rem = spec_msg_lines.skip(j as int);
                assert(rem[0] == spec_msg_lines[j as int]);
                assert(rem.drop_first() =~~= spec_msg_lines.skip(j + 1));
            }
            j = j + 1;
        }
        proof {
            assert(std_rest_lines(spec_msg_lines.skip(m as int), width as nat) =~~= Seq::<
                Seq<char>,
            >::empty());
            assert(lines.deep_view() =~~= std_format_lines(*self, width as nat, *evt));
        }
        if lines.len() == 0 {
            lines.push(String::new());
            proof {
                assert(lines.deep_view() =~~= std_format_spec(*self, width as nat, *evt));
            }
        }
        proof {
            assert(lines.deep_view() =~~= std_format_spec(*self, width as nat, *evt));
        }
        lines
    }
}

} // verus!
