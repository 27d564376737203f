use tui_logger::LevelConfig;
use tui_logger::LevelFilter;

#[test]
fn set_and_get() {
    let mut c = LevelConfig::new();
    assert_eq!(c.get("a"), None);
    c.set("a", LevelFilter::Info);
    assert_eq!(c.get("a"), Some(LevelFilter::Info));
    c.set("a", LevelFilter::Warn);
    assert_eq!(c.get("a"), Some(LevelFilter::Warn));
    assert_eq!(c.get("b"), None);
    let keys = c.keys();
    assert_eq!(keys, vec!["a".to_string()]);
    let entries = c.iter();
    assert_eq!(entries, vec![("a".to_string(), LevelFilter::Warn)]);
}

#[test]
fn default_display_level_roundtrip() {
    let mut c = LevelConfig::new();
    assert_eq!(c.get_default_display_level(), None);
    c.set_default_display_level(LevelFilter::Debug);
    assert_eq!(c.get_default_display_level(), Some(LevelFilter::Debug));
}

// Merge monotonicity: after the merge, no target of the origin is more
// verbose in the merged table than in the origin; a stricter explicit
// entry is preserved.
#[test]
fn merge_monotonic() {
    let mut origin = LevelConfig::new();
    origin.set("loud", LevelFilter::Trace);
    origin.set("normal", LevelFilter::Info);
    origin.set("quiet", LevelFilter::Error);

    let mut mine = LevelConfig::new();
    mine.set("normal", LevelFilter::Warn); // stricter than origin: kept
    mine.set("quiet", LevelFilter::Trace); // more verbose: reduced

    mine.merge(&origin);

    assert_eq!(mine.get("loud"), Some(LevelFilter::Trace)); // seeded
    assert_eq!(mine.get("normal"), Some(LevelFilter::Warn)); // preserved
    assert_eq!(mine.get("quiet"), Some(LevelFilter::Error)); // clamped
}

// Seeding through a merge is clipped to the default display level when
// that is stricter than the origin's level.
#[test]
fn merge_clips_to_default_display_level() {
    let mut origin = LevelConfig::new();
    origin.set("chatty", LevelFilter::Trace);
    origin.set("rare", LevelFilter::Error);

    let mut mine = LevelConfig::new();
    mine.set_default_display_level(LevelFilter::Info);
    mine.merge(&origin);

    assert_eq!(mine.get("chatty"), Some(LevelFilter::Info)); // clipped
    assert_eq!(mine.get("rare"), Some(LevelFilter::Error)); // origin stricter
}

// Merge idempotence: a second merge with an unchanged origin leaves
// contents untouched (the cheap generation check skips the work).
#[test]
fn merge_idempotent() {
    let mut origin = LevelConfig::new();
    origin.set("a", LevelFilter::Debug);
    origin.set("b", LevelFilter::Warn);

    let mut mine = LevelConfig::new();
    mine.set("b", LevelFilter::Error);
    mine.merge(&origin);

    let after_first: Vec<(String, LevelFilter)> = mine.iter();
    mine.merge(&origin);
    let after_second: Vec<(String, LevelFilter)> = mine.iter();
    assert_eq!(after_first, after_second);

    // A change to the origin is picked up again.
    origin.set("a", LevelFilter::Info);
    mine.merge(&origin);
    assert_eq!(mine.get("a"), Some(LevelFilter::Info));
}

// Updating an existing target keeps the key order; new targets append.
#[test]
fn key_order_is_insertion_order() {
    let mut c = LevelConfig::new();
    c.set("b", LevelFilter::Info);
    c.set("a", LevelFilter::Info);
    c.set("b", LevelFilter::Warn);
    assert_eq!(c.keys(), vec!["b".to_string(), "a".to_string()]);
}
