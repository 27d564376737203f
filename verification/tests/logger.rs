use tui_logger::ExtLogRecord;
use tui_logger::Level;
use tui_logger::LogStandardFormatter;
use tui_logger::TuiWidgetInnerState;
use tui_logger::render_window;
use tui_logger::LevelFilter;
use tui_logger::TuiLogger;
use tui_logger::TuiLoggerFile;
use tui_logger::TuiLoggerLevelOutput;
use tui_logger::advance_levelfilter;
use tui_logger::fast_str_hash;

fn record(target: &str, level: Level, msg: &str) -> ExtLogRecord {
    ExtLogRecord::new(0, level, target.to_string(), None, None, None, msg.to_string())
}

#[test]
fn advance_levelfilter_neighbors() {
    assert_eq!(advance_levelfilter(LevelFilter::Trace), (None, Some(LevelFilter::Debug)));
    assert_eq!(
        advance_levelfilter(LevelFilter::Debug),
        (Some(LevelFilter::Trace), Some(LevelFilter::Info))
    );
    assert_eq!(
        advance_levelfilter(LevelFilter::Info),
        (Some(LevelFilter::Debug), Some(LevelFilter::Warn))
    );
    assert_eq!(
        advance_levelfilter(LevelFilter::Warn),
        (Some(LevelFilter::Info), Some(LevelFilter::Error))
    );
    assert_eq!(
        advance_levelfilter(LevelFilter::Error),
        (Some(LevelFilter::Warn), Some(LevelFilter::Off))
    );
    assert_eq!(advance_levelfilter(LevelFilter::Off), (Some(LevelFilter::Error), None));
}

// Filter boundary: enabled(target, level) is true exactly when the
// level passes the effective threshold, on the default path and on the
// explicit-override path.
#[test]
fn enabled_boundary() {
    let mut core = TuiLogger::new();
    core.set_default_level(LevelFilter::Info);
    // default fallback path
    assert!(core.enabled("any", Level::Error));
    assert!(core.enabled("any", Level::Warn));
    assert!(core.enabled("any", Level::Info));
    assert!(!core.enabled("any", Level::Debug));
    assert!(!core.enabled("any", Level::Trace));
    // explicit override path
    core.set_level_for_target("special", LevelFilter::Debug);
    assert!(core.enabled("special", Level::Error));
    assert!(core.enabled("special", Level::Warn));
    assert!(core.enabled("special", Level::Info));
    assert!(core.enabled("special", Level::Debug));
    assert!(!core.enabled("special", Level::Trace));
    // other targets still use the default
    assert!(!core.enabled("any", Level::Debug));
    // Off suppresses everything on the default path
    core.set_default_level(LevelFilter::Off);
    assert!(!core.enabled("any", Level::Error));
    // ... but the override still wins
    assert!(core.enabled("special", Level::Debug));
}

// Overflow accounting: a hot buffer of depth 4 receives 6 events; the
// consolidated store holds the 4 retained events plus one synthesized
// warning reporting exactly 2 lost.
#[test]
fn overflow_accounting() {
    let mut core = TuiLogger::new();
    core.set_default_level(LevelFilter::Trace);
    core.set_hot_buffer_depth(4);
    // One mover pass swaps in a hot buffer of the new depth.
    core.raw_log(record("t", Level::Info, "warmup"));
    core.move_events();
    assert_eq!(core.inner.events.len(), 1);

    for i in 0..6 {
        core.raw_log(record("t", Level::Info, &format!("m{}", i)));
    }
    core.move_events();

    // warmup + overflow record + 4 retained events
    assert_eq!(core.inner.events.len(), 6);
    let overflow = core.inner.events.element_at_index(1).unwrap();
    assert_eq!(overflow.level, Level::Warn);
    assert_eq!(overflow.target(), "TuiLogger");
    assert_eq!(overflow.msg(), "There have been 2 events lost, 4 recorded out of 6");
    assert_eq!(core.inner.events.element_at_index(2).unwrap().msg(), "m2");
    assert_eq!(core.inner.events.element_at_index(3).unwrap().msg(), "m3");
    assert_eq!(core.inner.events.element_at_index(4).unwrap().msg(), "m4");
    assert_eq!(core.inner.events.element_at_index(5).unwrap().msg(), "m5");
}

// Fallback-chain precedence with a pattern filter, as in the scenario:
// with the default at Off and an environment-style filter at Info for
// one target, a warning and an info record are captured and both
// appear after consolidation; consolidation caches the boundary as a
// per-target override, so the target stays enabled at Info even after
// the filter is removed.
#[test]
fn env_filter_seeding_and_caching() {
    let mut core = TuiLogger::new();
    core.set_default_level(LevelFilter::Off);
    core.set_env_filter_from_string("scen=info");

    assert!(core.enabled("scen", Level::Warn));
    assert!(core.enabled("scen", Level::Info));
    assert!(!core.enabled("scen", Level::Debug));
    assert!(!core.enabled("elsewhere", Level::Error));

    let r1 = record("scen", Level::Warn, "w");
    assert!(core.enabled(r1.target(), r1.level));
    core.raw_log(r1);
    let r2 = record("scen", Level::Info, "i");
    assert!(core.enabled(r2.target(), r2.level));
    core.raw_log(r2);
    core.move_events();
    assert_eq!(core.inner.events.len(), 2);
    assert_eq!(core.inner.events.element_at_index(0).unwrap().msg(), "w");
    assert_eq!(core.inner.events.element_at_index(1).unwrap().msg(), "i");
    // The boundary was probed and recorded for the target.
    assert_eq!(core.inner.targets.get("scen"), Some(LevelFilter::Info));

    core.remove_env_filter();
    // The cached per-target override keeps the target enabled ...
    assert!(core.enabled("scen", Level::Info));
    // ... while unknown targets fall back to the Off default.
    assert!(!core.enabled("other", Level::Error));
}

// Seeding without a filter uses the global default.
#[test]
fn seeding_uses_default() {
    let mut core = TuiLogger::new();
    core.set_default_level(LevelFilter::Warn);
    core.raw_log(record("fresh", Level::Error, "x"));
    core.move_events();
    assert_eq!(core.inner.targets.get("fresh"), Some(LevelFilter::Warn));
}

#[test]
fn set_buffer_depth_drops_history() {
    let mut core = TuiLogger::new();
    core.set_default_level(LevelFilter::Trace);
    core.raw_log(record("t", Level::Info, "a"));
    core.move_events();
    assert_eq!(core.inner.events.len(), 1);
    core.set_buffer_depth(50);
    assert_eq!(core.inner.events.len(), 0);
    assert_eq!(core.inner.events.capacity(), 50);
}

// The half-full signal fires when the hot buffer crosses a multiple of
// half its capacity.
#[test]
fn half_full_signal() {
    let mut core = TuiLogger::new();
    core.set_hot_buffer_depth(4);
    core.raw_log(record("t", Level::Info, "warmup"));
    core.move_events();
    // capacity 4, half 2: signal on pushes 2, 4, 6, ...
    assert!(!core.raw_log(record("t", Level::Info, "1")));
    assert!(core.raw_log(record("t", Level::Info, "2")));
    assert!(!core.raw_log(record("t", Level::Info, "3")));
    assert!(core.raw_log(record("t", Level::Info, "4")));
}

// Dump-line rendering follows the configured fields exactly.
#[test]
fn dump_lines() {
    let mut core = TuiLogger::new();
    core.set_default_level(LevelFilter::Trace);
    let opts = TuiLoggerFile::new("ignored.log")
        .output_timestamp(None)
        .output_level(Some(TuiLoggerLevelOutput::Long))
        .output_separator('|');
    core.set_log_file(opts);
    let rec = ExtLogRecord::new(
        0,
        Level::Error,
        "dump".to_string(),
        Some("main.rs".to_string()),
        None,
        Some(17),
        "boom".to_string(),
    );
    core.raw_log(rec);
    let lines = core.move_events();
    assert_eq!(lines, vec!["ERROR|dump|main.rs|17|boom".to_string()]);
}

// The info level omits the source location in dump lines.
#[test]
fn dump_lines_info_without_location() {
    let mut core = TuiLogger::new();
    core.set_default_level(LevelFilter::Trace);
    let opts = TuiLoggerFile::new("ignored.log")
        .output_timestamp(None)
        .output_level(Some(TuiLoggerLevelOutput::Abbreviated));
    core.set_log_file(opts);
    let rec = ExtLogRecord::new(
        0,
        Level::Info,
        "dump".to_string(),
        Some("main.rs".to_string()),
        None,
        Some(17),
        "hello".to_string(),
    );
    core.raw_log(rec);
    let lines = core.move_events();
    assert_eq!(lines, vec!["I:dump:hello".to_string()]);
}

#[test]
fn log_respects_enabled() {
    let mut core = TuiLogger::new();
    core.set_default_level(LevelFilter::Warn);
    core.log(record("t", Level::Debug, "dropped"));
    core.log(record("t", Level::Error, "kept"));
    core.move_events();
    assert_eq!(core.inner.events.len(), 1);
    assert_eq!(core.inner.events.element_at_index(0).unwrap().msg(), "kept");
}

#[test]
fn fast_str_hash_values() {
    assert_eq!(fast_str_hash(""), 0xdeadbeef);
    assert_eq!(fast_str_hash("a"), 0xdeadbeefu64.wrapping_mul(31).wrapping_add(97));
    assert_ne!(fast_str_hash("ab"), fast_str_hash("ba"));
}

// End to end through the pattern filter and the formatter: with the
// default at Off, a record is captured only while the filter admits
// its target, and afterwards through the cached per-target override;
// the formatted view shows exactly the three captured records.
#[test]
fn test_formatter() {
    fn rec(level: Level, line: u32) -> ExtLogRecord {
        ExtLogRecord::new(
            0,
            level,
            "envfilter::tests".to_string(),
            Some("tests/envfilter.rs".to_string()),
            None,
            Some(line),
            "Message".to_string(),
        )
    }

    let mut core = TuiLogger::new();
    core.set_default_level(LevelFilter::Off);

    core.log(rec(Level::Warn, 15)); // suppressed: the default is Off
    core.move_events();
    core.set_env_filter_from_string("envfilter=info");
    core.log(rec(Level::Warn, 17));
    core.move_events();
    core.log(rec(Level::Info, 19));
    core.move_events();
    core.remove_env_filter(); // the level is cached per target by now
    core.log(rec(Level::Info, 22)); // still enabled through the cache
    core.move_events();

    let mut state = TuiWidgetInnerState::new();
    let fmt = LogStandardFormatter {
        format_separator: ':',
        format_timestamp: None,
        format_output_level: Some(TuiLoggerLevelOutput::Long),
        format_output_target: true,
        format_output_file: true,
        format_output_line: true,
    };
    let lines = render_window(&core.inner.events, &mut state, &fmt, 40, 8);
    let texts: Vec<String> = lines.into_iter().map(|l| l.1).collect();
    assert_eq!(
        texts,
        vec![
            "WARN :envfilter::tests:tests/envfilter.r".to_string(),
            "         s:17:Message".to_string(),
            "INFO :envfilter::tests:tests/envfilter.r".to_string(),
            "         s:19:Message".to_string(),
            "INFO :envfilter::tests:tests/envfilter.r".to_string(),
            "         s:22:Message".to_string(),
        ]
    );
}
