//! The logger core: the hot capture path, the cold consolidated store,
//! and the mover step between them.
//!
//! The core is plain data with verified methods; the application wraps
//! its sections in whatever locks its threading needs and performs the
//! file writes for the dump lines the mover step hands back.

use vstd::prelude::*;
use std::collections::HashMap;
use crate::circular::CircularBuffer;
use crate::config::LevelConfig;
use crate::config::bump_gen;
use crate::file::TuiLoggerFile;
use crate::file::dump_line_spec;
use crate::file::format_dump_line;
use crate::levels::Level;
use crate::levels::LevelFilter;
use crate::levels::level_passes;
use crate::record::ExtLogRecord;
use crate::record::overrun_msg;
use crate::trusted::env_filter_enabled;
use crate::trusted::build_env_filter;
use crate::trusted::format_local_timestamp;
use crate::trusted::fx_hash64;
use crate::trusted::fx_hash64_of;

verus! {

broadcast use vstd::std_specs::hash::group_hash_axioms;

/// The hot selection table consulted on every log call site: a
/// hash-keyed per-target level cache, an optional pattern filter, and
/// the global default.
pub struct HotSelect {
    /// Per-target level overrides, keyed by the target's hash.
    pub hashtable: HashMap<u64, LevelFilter>,
    /// Optional pattern-based environment filter.
    pub filter: Option<env_filter::Filter>,
    /// Global default level for targets without an override.
    pub default: LevelFilter,
}

/// The hot buffer written directly by producer call sites.
pub struct HotLog {
    /// The small capture ring buffer.
    pub events: CircularBuffer<ExtLogRecord>,
}

/// The cold consolidated store, updated by the mover step.
pub struct TuiLoggerInner {
    /// Capacity for the next fresh hot buffer.
    pub hot_depth: usize,
    /// The consolidated event history.
    pub events: CircularBuffer<ExtLogRecord>,
    /// File-dump options, if a dump file is configured.
    pub dump: Option<TuiLoggerFile>,
    /// Total events ever consolidated (saturating).
    pub total_events: usize,
    /// Global default level for seeding unseen targets.
    pub default: LevelFilter,
    /// Per-target recording levels.
    pub targets: LevelConfig,
    /// Optional pattern-based environment filter for seeding.
    pub filter: Option<env_filter::Filter>,
}

/// The logger core: three sections that the application may guard with
/// independent locks, so that the capture path never waits on the
/// consolidated store.
pub struct TuiLogger {
    /// Consulted by `enabled` on the capture path.
    pub hot_select: HotSelect,
    /// Written by `log` on the capture path.
    pub hot_log: HotLog,
    /// The cold store, read by rendering.
    pub inner: TuiLoggerInner,
}

/// Whether `lines`, from position `extra` on, renders each record of
/// `recs` as its dump line, with `tss[i]` standing for the rendered
/// time stamp of record `i`.
pub open spec fn dump_lines_match(
    lines: Seq<String>,
    opts: TuiLoggerFile,
    extra: int,
    recs: Seq<ExtLogRecord>,
    tss: Seq<Seq<char>>,
) -> bool {
    forall|i: int|
        0 <= i < recs.len() ==> #[trigger] lines[extra + i]@ == dump_line_spec(
            opts,
            tss[i],
            recs[i],
        )
}

/// Whether `r` is the record synthesized for an overflow of `total`
/// arrived events of which only `elements` were retained.
pub open spec fn is_overrun_record(r: ExtLogRecord, ts: i64, total: nat, elements: nat) -> bool {
    &&& r.timestamp == ts
    &&& r.level == Level::Warn
    &&& r.target@ == "TuiLogger"@
    &&& r.file is None
    &&& r.module is None
    &&& r.line is None
    &&& r.msg@ == overrun_msg(total, elements)
}

impl HotSelect {
    /// Whether a record with this target and level is captured: an
    /// exact per-target override wins, else the pattern filter decides
    /// if one is set, else the global default.
    pub fn enabled(&self, target: &str, level: Level) -> (r: bool)
        ensures
            self.hashtable@.contains_key(fx_hash64_of(target@)) ==> r == level_passes(
                level,
                self.hashtable@[fx_hash64_of(target@)],
            ),
            !self.hashtable@.contains_key(fx_hash64_of(target@)) && self.filter is None ==> r
                == level_passes(level, self.default),
    {
        let h = fx_hash64(target);
        match self.hashtable.get(&h) {
            Some(levelfilter) => level.passes(*levelfilter),
            None => match &self.filter {
                Some(envfilter) => env_filter_enabled(envfilter, target, level),
                None => level.passes(self.default),
            },
        }
    }
}

/// The most verbose level filter the pattern filter still accepts for
/// this target, probing from `Trace` down to `Error`.
fn probe_filter_boundary(envfilter: &env_filter::Filter, target: &str) -> Option<LevelFilter> {
    if env_filter_enabled(envfilter, target, Level::Trace) {
        return Some(LevelFilter::Trace);
    }
    if env_filter_enabled(envfilter, target, Level::Debug) {
        return Some(LevelFilter::Debug);
    }
    if env_filter_enabled(envfilter, target, Level::Info) {
        return Some(LevelFilter::Info);
    }
    if env_filter_enabled(envfilter, target, Level::Warn) {
        return Some(LevelFilter::Warn);
    }
    if env_filter_enabled(envfilter, target, Level::Error) {
        return Some(LevelFilter::Error);
    }
    None
}

impl TuiLogger {
    /// Well-formedness of the core: the buffers and the target table
    /// are well formed, and the hot capacity admits the half-full
    /// signal arithmetic.
    pub open spec fn inv(&self) -> bool {
        &&& self.hot_log.events.inv()
        &&& self.inner.events.inv()
        &&& self.inner.targets.inv()
        &&& self.hot_log.events.spec_capacity() >= 2
        &&& self.inner.hot_depth >= 2
    }

    /// A fresh core with the default depths (1000 hot, 10000 cold) and
    /// `Info` as the default level.
    pub fn new() -> (r: TuiLogger)
        ensures
            r.inv(),
            r.hot_select.hashtable@ == Map::<u64, LevelFilter>::empty(),
            r.hot_select.filter is None,
            r.hot_select.default == LevelFilter::Info,
            r.hot_log.events@ == Seq::<ExtLogRecord>::empty(),
            r.hot_log.events.spec_capacity() == 1000,
            r.inner.hot_depth == 1000,
            r.inner.events@ == Seq::<ExtLogRecord>::empty(),
            r.inner.events.spec_capacity() == 10000,
            r.inner.dump is None,
            r.inner.total_events == 0,
            r.inner.default == LevelFilter::Info,
            r.inner.targets@ == Map::<Seq<char>, LevelFilter>::empty(),
            r.inner.filter is None,
    {
        let hot_select = HotSelect {
            hashtable: HashMap::with_capacity(1000),
            filter: None,
            default: LevelFilter::Info,
        };
        let hot_log = HotLog { events: CircularBuffer::new(1000) };
        let inner = TuiLoggerInner {
            hot_depth: 1000,
            events: CircularBuffer::new(10000),
            dump: None,
            total_events: 0,
            default: LevelFilter::Info,
            targets: LevelConfig::new(),
            filter: None,
        };
        TuiLogger { hot_select, hot_log, inner }
    }

    /// Whether a record with this target and level would be captured.
    pub fn enabled(&self, target: &str, level: Level) -> (r: bool)
        ensures
            self.hot_select.hashtable@.contains_key(fx_hash64_of(target@)) ==> r == level_passes(
                level,
                self.hot_select.hashtable@[fx_hash64_of(target@)],
            ),
            !self.hot_select.hashtable@.contains_key(fx_hash64_of(target@))
                && self.hot_select.filter is None ==> r == level_passes(
                level,
                self.hot_select.default,
            ),
    {
        self.hot_select.enabled(target, level)
    }

    /// Push a record into the hot buffer unconditionally. Returns
    /// whether the buffer just crossed a half-full boundary, so the
    /// caller should wake the mover right away.
    pub fn raw_log(&mut self, record: ExtLogRecord) -> (need_signal: bool)
        requires
            old(self).inv(),
            old(self).hot_log.events.total() < usize::MAX,
        ensures
            final(self).inv(),
            final(self).hot_log.events@ == old(self).hot_log.events@.push(record),
            final(self).hot_log.events.spec_capacity() == old(self).hot_log.events.spec_capacity(),
            final(self).hot_select == old(self).hot_select,
            final(self).inner == old(self).inner,
            need_signal == ((old(self).hot_log.events.total() + 1) % (
            old(self).hot_log.events.spec_capacity() / 2) == 0),
    {
        self.hot_log.events.push(record);
        let total = self.hot_log.events.total_elements();
        let half = self.hot_log.events.capacity() / 2;
        total % half == 0
    }

    /// Capture a record if the hot selection admits its target and
    /// level. Returns whether the mover should be woken right away:
    /// the record was pushed and crossed a half-full boundary.
    pub fn log(&mut self, record: ExtLogRecord) -> (need_signal: bool)
        requires
            old(self).inv(),
            old(self).hot_log.events.total() < usize::MAX,
        ensures
            final(self).inv(),
            final(self).hot_select == old(self).hot_select,
            final(self).inner == old(self).inner,
            final(self).hot_log.events.spec_capacity() == old(self).hot_log.events.spec_capacity(),
            final(self).hot_log.events@ == old(self).hot_log.events@ || final(self).hot_log.events@
                == old(self).hot_log.events@.push(record),
            old(self).hot_select.hashtable@.contains_key(fx_hash64_of(record.target@)) ==> (final(self).hot_log.events@ == old(self).hot_log.events@.push(record) <==> level_passes(
                record.level,
                old(self).hot_select.hashtable@[fx_hash64_of(record.target@)],
            )),
            !old(self).hot_select.hashtable@.contains_key(fx_hash64_of(record.target@)) && old(self).hot_select.filter is None ==> (final(self).hot_log.events@ == old(self).hot_log.events@.push(record) <==> level_passes(
                record.level,
                old(self).hot_select.default,
            )),
            need_signal <==> (final(self).hot_log.events@ == old(self).hot_log.events@.push(record)
                && (old(self).hot_log.events.total() + 1) % (
            old(self).hot_log.events.spec_capacity() / 2) == 0),
    {
        if self.enabled(record.target.as_str(), record.level) {
            self.raw_log(record)
        } else {
            false
        }
    }

    /// Set the default level filter for unknown targets, on both the
    /// hot path and the cold store.
    pub fn set_default_level(&mut self, levelfilter: LevelFilter)
        requires
            old(self).inv(),
        ensures
            final(self).inv(),
            final(self).hot_select.default == levelfilter,
            final(self).inner.default == levelfilter,
            final(self).hot_select.hashtable == old(self).hot_select.hashtable,
            final(self).hot_select.filter == old(self).hot_select.filter,
            final(self).hot_log == old(self).hot_log,
            final(self).inner == (TuiLoggerInner { default: levelfilter, ..old(self).inner }),
    {
        self.hot_select.default = levelfilter;
        self.inner.default = levelfilter;
    }

    /// Set the recording level filter for one target, in the cold
    /// table and in the hot per-target cache.
    pub fn set_level_for_target(&mut self, target: &str, levelfilter: LevelFilter)
        requires
            old(self).inv(),
        ensures
            final(self).inv(),
            final(self).inner.targets@ == old(self).inner.targets@.insert(target@, levelfilter),
            final(self).hot_select.hashtable@ == old(self).hot_select.hashtable@.insert(
                fx_hash64_of(target@),
                levelfilter,
            ),
            final(self).hot_select.filter == old(self).hot_select.filter,
            final(self).hot_select.default == old(self).hot_select.default,
            final(self).hot_log == old(self).hot_log,
            final(self).inner.events == old(self).inner.events,
            final(self).inner.hot_depth == old(self).inner.hot_depth,
            final(self).inner.dump == old(self).inner.dump,
            final(self).inner.total_events == old(self).inner.total_events,
            final(self).inner.default == old(self).inner.default,
            final(self).inner.filter == old(self).inner.filter,
            final(self).inner.targets.spec_generation() == if old(self).inner.targets@.contains_key(
                target@,
            ) && old(self).inner.targets@[target@] == levelfilter {
                old(self).inner.targets.spec_generation()
            } else {
                bump_gen(old(self).inner.targets.spec_generation())
            },
    {
        let h = fx_hash64(target);
        self.inner.targets.set(target, levelfilter);
        self.hot_select.hashtable.insert(h, levelfilter);
    }

    /// Set the capacity the next fresh hot buffer is created with;
    /// effective at the next mover step.
    pub fn set_hot_buffer_depth(&mut self, depth: usize)
        requires
            old(self).inv(),
            depth >= 2,
        ensures
            final(self).inv(),
            final(self).inner == (TuiLoggerInner { hot_depth: depth, ..old(self).inner }),
            final(self).hot_select == old(self).hot_select,
            final(self).hot_log == old(self).hot_log,
    {
        self.inner.hot_depth = depth;
    }

    /// Replace the cold store by an empty one of the given capacity,
    /// dropping all history.
    pub fn set_buffer_depth(&mut self, depth: usize)
        requires
            old(self).inv(),
        ensures
            final(self).inv(),
            final(self).inner.events@ == Seq::<ExtLogRecord>::empty(),
            final(self).inner.events.spec_capacity() == depth,
            final(self).inner.hot_depth == old(self).inner.hot_depth,
            final(self).inner.dump == old(self).inner.dump,
            final(self).inner.total_events == old(self).inner.total_events,
            final(self).inner.default == old(self).inner.default,
            final(self).inner.targets == old(self).inner.targets,
            final(self).inner.filter == old(self).inner.filter,
            final(self).hot_select == old(self).hot_select,
            final(self).hot_log == old(self).hot_log,
    {
        self.inner.events = CircularBuffer::new(depth);
    }

    /// Configure the file dump: its name and formatting options. The
    /// application appends the lines handed back by `move_events` to
    /// that file.
    pub fn set_log_file(&mut self, file_options: TuiLoggerFile)
        requires
            old(self).inv(),
        ensures
            final(self).inv(),
            final(self).inner == (TuiLoggerInner { dump: Some(file_options), ..old(self).inner }),
            final(self).hot_select == old(self).hot_select,
            final(self).hot_log == old(self).hot_log,
    {
        self.inner.dump = Some(file_options);
    }

    /// Install a pattern-based environment filter parsed from a
    /// directives string, on both the hot path and the cold store.
    pub fn set_env_filter_from_string(&mut self, filterstring: &str)
        requires
            old(self).inv(),
        ensures
            final(self).inv(),
            final(self).hot_select.filter is Some,
            final(self).inner.filter is Some,
            final(self).hot_select.hashtable == old(self).hot_select.hashtable,
            final(self).hot_select.default == old(self).hot_select.default,
            final(self).hot_log == old(self).hot_log,
            final(self).inner.events == old(self).inner.events,
            final(self).inner.hot_depth == old(self).inner.hot_depth,
            final(self).inner.dump == old(self).inner.dump,
            final(self).inner.total_events == old(self).inner.total_events,
            final(self).inner.default == old(self).inner.default,
            final(self).inner.targets == old(self).inner.targets,
    {
        let filter1 = build_env_filter(filterstring);
        let filter2 = build_env_filter(filterstring);
        self.hot_select.filter = Some(filter1);
        self.inner.filter = Some(filter2);
    }

    /// Remove the pattern-based environment filter.
    pub fn remove_env_filter(&mut self)
        requires
            old(self).inv(),
        ensures
            final(self).inv(),
            final(self).hot_select.filter is None,
            final(self).inner.filter is None,
            final(self).hot_select.hashtable == old(self).hot_select.hashtable,
            final(self).hot_select.default == old(self).hot_select.default,
            final(self).hot_log == old(self).hot_log,
            final(self).inner.events == old(self).inner.events,
            final(self).inner.hot_depth == old(self).inner.hot_depth,
            final(self).inner.dump == old(self).inner.dump,
            final(self).inner.total_events == old(self).inner.total_events,
            final(self).inner.default == old(self).inner.default,
            final(self).inner.targets == old(self).inner.targets,
    {
        self.hot_select.filter = None;
        self.inner.filter = None;
    }

    /// Consolidate one record: seed its target in the cold table if it
    /// is unseen (consulting the pattern filter if one is set, and
    /// caching a found boundary in the hot table), render a dump line
    /// if a dump file is configured, and push the record into the cold
    /// store.
    fn consolidate_record(&mut self, rec: ExtLogRecord, dump_lines: &mut Vec<String>)
        requires
            old(self).inner.events.inv(),
            old(self).inner.targets.inv(),
            old(self).inner.events.total() < usize::MAX,
        ensures
            final(self).inner.events.inv(),
            final(self).inner.targets.inv(),
            final(self).inner.events@ == old(self).inner.events@.push(rec),
            final(self).inner.events.spec_capacity() == old(self).inner.events.spec_capacity(),
            final(self).hot_log == old(self).hot_log,
            final(self).inner.hot_depth == old(self).inner.hot_depth,
            final(self).inner.dump == old(self).inner.dump,
            final(self).inner.total_events == old(self).inner.total_events,
            final(self).inner.default == old(self).inner.default,
            final(self).inner.filter == old(self).inner.filter,
            final(self).hot_select.default == old(self).hot_select.default,
            final(self).hot_select.filter == old(self).hot_select.filter,
            old(self).inner.targets@.contains_key(rec.target@) ==> final(self).inner.targets == old(self).inner.targets && final(self).hot_select == old(self).hot_select,
            forall|k: Seq<char>|
                #[trigger] old(self).inner.targets@.contains_key(k) ==> final(self).inner.targets@.contains_key(k) && final(self).inner.targets@[k] == old(self).inner.targets@[k],
            forall|k: Seq<char>|
                #[trigger] final(self).inner.targets@.contains_key(k) ==> old(self).inner.targets@.contains_key(k) || k == rec.target@,
            final(self).inner.targets@.contains_key(rec.target@),
            !old(self).inner.targets@.contains_key(rec.target@) && old(self).inner.filter is None
                ==> final(self).inner.targets@[rec.target@] == old(self).inner.default && final(self).hot_select == old(self).hot_select,
            !old(self).inner.targets@.contains_key(rec.target@) ==> final(self).inner.targets.spec_generation() == bump_gen(old(self).inner.targets.spec_generation()),
            old(self).inner.targets@.contains_key(rec.target@) ==> final(self).inner.targets.spec_generation() == old(self).inner.targets.spec_generation(),
            final(self).inner.targets.spec_default_display_level() == old(self).inner.targets.spec_default_display_level(),
            old(self).inner.dump is None ==> *final(dump_lines) == *old(dump_lines),
            old(self).inner.dump is Some ==> final(dump_lines)@.len() == old(dump_lines)@.len()
                + 1 && (forall|q: int|
                0 <= q < old(dump_lines)@.len() ==> #[trigger] final(dump_lines)@[q] == old(
                    dump_lines,
                )@[q]) && (exists|ts: Seq<char>|
                final(dump_lines)@.last()@ == dump_line_spec(old(self).inner.dump->0, ts, rec)),
    {
        let seen = match self.inner.targets.get(rec.target.as_str()) {
            Some(_) => true,
            None => false,
        };
        if !seen {
            let mut default_level = self.inner.default;
            let mut cache: Option<(u64, LevelFilter)> = None;
            if let Some(envfilter) = &self.inner.filter {
                if env_filter_enabled(envfilter, rec.target.as_str(), rec.level) {
                    if let Some(levelfilter) = probe_filter_boundary(
                        envfilter,
                        rec.target.as_str(),
                    ) {
                        default_level = levelfilter;
                        cache = Some((fx_hash64(rec.target.as_str()), levelfilter));
                    }
                }
            }
            if let Some((h, levelfilter)) = cache {
                self.hot_select.hashtable.insert(h, levelfilter);
            }
            self.inner.targets.set(rec.target.as_str(), default_level);
        }
        let ghost pre = dump_lines@;
        if let Some(opts) = &self.inner.dump {
            let ts_str = match &opts.timestamp_fmt {
                Some(fmtstr) => format_local_timestamp(rec.timestamp, fmtstr.as_str()),
                None => String::new(),
            };
            let line = format_dump_line(opts, ts_str.as_str(), &rec);
            dump_lines.push(line);
        }
        self.inner.events.push(rec);
    }

    /// The mover step: drain the hot buffer into the cold store. If
    /// events were lost to overwriting, a warning record reporting the
    /// exact count is consolidated first. Unseen targets are seeded in
    /// the cold table. Returns the rendered dump lines for the
    /// application to append to the dump file, if one is configured.
    #[verifier::rlimit(100)]
    #[verifier::spinoff_prover]
    pub fn move_events(&mut self) -> (dump_lines: Vec<String>)
        requires
            old(self).inv(),
            old(self).inner.events.total() + old(self).hot_log.events.live().len() + 1
                <= usize::MAX,
        ensures
            final(self).inv(),
            old(self).hot_log.events.total() == 0 ==> *final(self) == *old(self) && dump_lines@
                =~= Seq::<String>::empty(),
            old(self).hot_log.events.total() != 0 ==> {
                let hot = old(self).hot_log.events.live();
                let arrived = old(self).hot_log.events.total();
                let lost = arrived > hot.len();
                let extra: int = if lost {
                    1
                } else {
                    0
                };
                let base = old(self).inner.events@.len() as int;
                &&& final(self).hot_log.events@ == Seq::<ExtLogRecord>::empty()
                &&& final(self).hot_log.events.spec_capacity() == old(self).inner.hot_depth
                &&& final(self).inner.events@.len() == base + extra + hot.len()
                &&& final(self).inner.events@.subrange(0, base) == old(self).inner.events@
                &&& forall|i: int|
                    0 <= i < hot.len() ==> final(self).inner.events@[base + extra + i] == hot[i]
                &&& lost ==> is_overrun_record(
                    final(self).inner.events@[base],
                    hot[0].timestamp,
                    arrived,
                    hot.len(),
                )
                &&& final(self).inner.events.spec_capacity() == old(self).inner.events.spec_capacity()
                &&& forall|k: Seq<char>|
                    old(self).inner.targets@.contains_key(k) ==> final(self).inner.targets@.contains_key(k) && final(self).inner.targets@[k] == old(self).inner.targets@[k]
                &&& forall|k: Seq<char>|
                    final(self).inner.targets@.contains_key(k) ==> old(self).inner.targets@.contains_key(k) || k == "TuiLogger"@ || exists|i: int|
                        0 <= i < hot.len() && hot[i].target@ == k
                &&& forall|i: int|
                    0 <= i < hot.len() ==> final(self).inner.targets@.contains_key(hot[i].target@)
                &&& old(self).inner.filter is None ==> final(self).hot_select == old(self).hot_select && (forall|k: Seq<char>|
                    final(self).inner.targets@.contains_key(k) && !old(self).inner.targets@.contains_key(k) ==> final(self).inner.targets@[k] == old(self).inner.default)
                &&& final(self).inner.hot_depth == old(self).inner.hot_depth
                &&& final(self).inner.dump == old(self).inner.dump
                &&& final(self).inner.default == old(self).inner.default
                &&& final(self).inner.filter == old(self).inner.filter
                &&& final(self).hot_select.default == old(self).hot_select.default
                &&& final(self).hot_select.filter == old(self).hot_select.filter
                &&& old(self).inner.dump is None ==> dump_lines@ =~= Seq::<String>::empty()
                &&& old(self).inner.dump is Some ==> dump_lines@.len() == extra + hot.len()
                &&& final(self).inner.total_events == if old(self).inner.total_events <= usize::MAX
                    - arrived {
                    (old(self).inner.total_events + arrived) as usize
                } else {
                    usize::MAX
                }
            },
            old(self).hot_log.events.total() != 0 && old(self).inner.dump is Some ==> exists|
                tss: Seq<Seq<char>>,
            |
                tss.len() == old(self).hot_log.events.live().len() && #[trigger] dump_lines_match(
                    dump_lines@,
                    old(self).inner.dump->0,
                    dump_lines@.len() - old(self).hot_log.events.live().len(),
                    old(self).hot_log.events.live(),
                    tss,
                ),
    {
        let mut dump_lines: Vec<String> = Vec::new();
        if self.hot_log.events.total_elements() == 0 {
            return dump_lines;
        }
        let hot_depth = self.inner.hot_depth;
        let mut received = CircularBuffer::new(hot_depth);
        std::mem::swap(&mut received, &mut self.hot_log.events);
        let ghost hot = received.live();
        let total = received.total_elements();
        let mut consumed = received.take();
        let elements = consumed.len();
        if self.inner.total_events <= usize::MAX - total {
            self.inner.total_events = self.inner.total_events + total;
        } else {
            self.inner.total_events = usize::MAX;
        }
        let lost = total > elements;
        let overrun: Option<ExtLogRecord> = if lost {
            let first_ts = consumed[0].timestamp;
            Some(ExtLogRecord::overrun(first_ts, total, elements))
        } else {
            None
        };
        let ghost base = self.inner.events@.len() as int;
        let ghost extra: int = if lost { 1int } else { 0int };
        let ghost inner_default = self.inner.default;
        let ghost inner_filter = self.inner.filter;
        let ghost ov_target: Seq<char> = "TuiLogger"@;
        match overrun {
            Some(ov) => {
                self.consolidate_record(ov, &mut dump_lines);
                proof {
                    assert(self.inner.events@[base] == ov);
                }
            },
            None => {},
        }
        // Snapshots of the state between the overflow record (if any)
        // and the drained records: the loop relates its progress to
        // them, the final postconditions compose the two stages.
        let ghost targets0 = self.inner.targets;
        let ghost hot_select0 = self.hot_select;
        let ghost cold_mid = self.inner.events@;
        let ghost mut dump_ts: Seq<Seq<char>> = Seq::empty();
        proof {
            assert(cold_mid.subrange(0, base) =~= old(self).inner.events@);
        }
        let n = consumed.len();
        let mut i: usize = 0;
        while i < n
            invariant
                n == hot.len(),
                i <= n,
                consumed@ =~= hot.subrange(i as int, n as int),
                self.inner.events.inv(),
                self.inner.targets.inv(),
                self.inner.events@.len() == cold_mid.len() + i,
                cold_mid.len() == base + extra,
                0 <= extra <= 1,
                extra == (if old(self).hot_log.events.total() > old(self).hot_log.events.live().len() {
                    1int
                } else {
                    0int
                }),
                self.inner.events@.subrange(0, cold_mid.len() as int) == cold_mid,
                base + extra + n <= usize::MAX,
                forall|j: int| 0 <= j < i ==> self.inner.events@[cold_mid.len() + j] == hot[j],
                self.inner.events.spec_capacity() == old(self).inner.events.spec_capacity(),
                self.hot_log.events.inv(),
                self.hot_log.events@ == Seq::<ExtLogRecord>::empty(),
                self.hot_log.events.spec_capacity() == hot_depth,
                hot_depth == old(self).inner.hot_depth,
                self.inner.hot_depth == old(self).inner.hot_depth,
                self.inner.dump == old(self).inner.dump,
                self.inner.default == inner_default,
                self.inner.filter == inner_filter,
                self.hot_select.default == hot_select0.default,
                self.hot_select.filter == hot_select0.filter,
                forall|k: Seq<char>|
                    #[trigger] targets0@.contains_key(k) ==> self.inner.targets@.contains_key(k)
                        && self.inner.targets@[k] == targets0@[k],
                forall|k: Seq<char>|
                    #[trigger] self.inner.targets@.contains_key(k) ==> targets0@.contains_key(k)
                        || k == "TuiLogger"@ || exists|j: int|
                        0 <= j < i && #[trigger] hot[j].target@ == k,
                forall|j: int|
                    0 <= j < i ==> self.inner.targets@.contains_key(#[trigger] hot[j].target@),
                inner_filter is None ==> self.hot_select == hot_select0 && (forall|k: Seq<char>|
                    #[trigger] self.inner.targets@.contains_key(k) && !targets0@.contains_key(k)
                        ==> self.inner.targets@[k] == inner_default),
                old(self).inner.dump is None ==> dump_lines@ =~= Seq::<String>::empty(),
                old(self).inner.dump is Some ==> dump_lines@.len() == extra + i,
                dump_ts.len() == i,
                old(self).inner.dump is Some ==> (forall|j: int|
                    0 <= j < i ==> #[trigger] dump_lines@[extra + j]@ == dump_line_spec(
                        old(self).inner.dump->0,
                        dump_ts[j],
                        hot[j],
                    )),
                cold_mid.subrange(0, base) == old(self).inner.events@,
                lost ==> is_overrun_record(
                    cold_mid[base],
                    hot[0].timestamp,
                    old(self).hot_log.events.total() as nat,
                    hot.len(),
                ),
                self.inner.total_events == if old(self).inner.total_events <= usize::MAX - (
                old(self).hot_log.events.total() as int) {
                    (old(self).inner.total_events + old(self).hot_log.events.total()) as usize
                } else {
                    usize::MAX
                },
            decreases n - i,
        {
            let rec = consumed.remove(0);
            proof {
                assert(rec == hot[i as int]);
                assert(consumed@ =~= hot.subrange(i + 1, n as int));
            }
            let ghost pre_targets = self.inner.targets;
            let ghost pre_dump = dump_lines@;
            let ghost i_pre = i as int;
            self.consolidate_record(rec, &mut dump_lines);
            i = i + 1;
            proof {
                if old(self).inner.dump is Some {
                    let ts = choose|ts: Seq<char>|
                        dump_lines@.last()@ == dump_line_spec(old(self).inner.dump->0, ts, rec);
                    dump_ts = dump_ts.push(ts);
                    assert forall|j: int| 0 <= j < i implies #[trigger] dump_lines@[extra + j]@
                        == dump_line_spec(
                        old(self).inner.dump->0,
                        dump_ts[j],
                        hot[j],
                    ) by {
                        if j < i_pre {
                            assert(pre_dump.len() == extra + i_pre);
                            assert(0 <= extra + j < pre_dump.len());
                            assert(dump_lines@[extra + j] == pre_dump[extra + j]);
                        } else {
                            assert(dump_lines@[extra + j] == dump_lines@.last());
                        }
                    }
                } else {
                    dump_ts = dump_ts.push(Seq::<char>::empty());
                }
                assert(self.inner.events@.subrange(0, cold_mid.len() as int) =~= cold_mid);
                assert forall|k: Seq<char>| targets0@.contains_key(k) implies self.inner.targets@.contains_key(k)
                    && self.inner.targets@[k] == targets0@[k] by {
                    assert(pre_targets@.contains_key(k) && pre_targets@[k] == targets0@[k]);
                }
                assert forall|j: int| 0 <= j < i implies self.inner.targets@.contains_key(
                    hot[j].target@,
                ) by {
                    if j < i_pre {
                        assert(pre_targets@.contains_key(hot[j].target@));
                    }
                }
                assert forall|k: Seq<char>| self.inner.targets@.contains_key(k) implies targets0@.contains_key(k)
                    || k == "TuiLogger"@ || exists|j: int| 0 <= j < i && hot[j].target@ == k by {
                    if !pre_targets@.contains_key(k) {
                        assert(k == rec.target@);
                        assert(hot[i_pre].target@ == k);
                    }
                }
                if inner_filter is None {
                    assert forall|k: Seq<char>| self.inner.targets@.contains_key(k)
                        && !targets0@.contains_key(k) implies self.inner.targets@[k]
                        == inner_default by {
                        if pre_targets@.contains_key(k) {
                        } else {
                            assert(k == rec.target@);
                        }
                    }
                }
            }
        }
        proof {
            if old(self).inner.dump is Some {
                assert(dump_lines_match(
                    dump_lines@,
                    old(self).inner.dump->0,
                    extra,
                    hot,
                    dump_ts,
                ));
                assert(dump_ts.len() == hot.len());
                assert(hot == old(self).hot_log.events.live());
                assert(extra == (if old(self).hot_log.events.total() > old(self).hot_log.events.live().len() {
                    1int
                } else {
                    0int
                }));
                assert(dump_lines_match(
                    dump_lines@,
                    old(self).inner.dump->0,
                    if old(self).hot_log.events.total() > old(self).hot_log.events.live().len() {
                        1int
                    } else {
                        0int
                    },
                    old(self).hot_log.events.live(),
                    dump_ts,
                ));
                assert(dump_lines@.len() - old(self).hot_log.events.live().len() == extra);
                assert(exists|tss: Seq<Seq<char>>|
                    tss.len() == old(self).hot_log.events.live().len()
                        && #[trigger] dump_lines_match(
                        dump_lines@,
                        old(self).inner.dump->0,
                        dump_lines@.len() - old(self).hot_log.events.live().len(),
                        old(self).hot_log.events.live(),
                        tss,
                    ));
            }
            assert(self.inner.events@.subrange(0, base) =~= old(self).inner.events@);
            assert forall|j: int| 0 <= j < hot.len() implies self.inner.events@[base + extra + j]
                == hot[j] by {
            }
            if lost {
                assert(self.inner.events@[base] == cold_mid[base]);
            }
            // Compose the two stages against the state at entry.
            assert forall|k: Seq<char>| old(self).inner.targets@.contains_key(
                k,
            ) implies self.inner.targets@.contains_key(k) && self.inner.targets@[k] == old(self).inner.targets@[k] by {
                assert(targets0@.contains_key(k) && targets0@[k] == old(self).inner.targets@[k]);
            }
            assert forall|k: Seq<char>| self.inner.targets@.contains_key(k) implies old(self).inner.targets@.contains_key(k) || k == ov_target || exists|j: int|
                0 <= j < hot.len() && hot[j].target@ == k by {
                if targets0@.contains_key(k) && !old(self).inner.targets@.contains_key(k) {
                    assert(k == ov_target);
                }
            }
            if inner_filter is None {
                assert(self.hot_select == old(self).hot_select);
                assert forall|k: Seq<char>| self.inner.targets@.contains_key(k) && !old(self).inner.targets@.contains_key(k) implies self.inner.targets@[k]
                    == inner_default by {
                    if targets0@.contains_key(k) {
                        assert(k == ov_target);
                        assert(targets0@[k] == inner_default);
                    }
                }
            }
        }
        dump_lines
    }
}

} // verus!
