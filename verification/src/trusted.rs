//! Declarations and wrappers for the outside crates the engine calls:
//! the pattern-based environment filter, the target hash, time-stamp
//! rendering and grapheme segmentation. Each wrapper's contract is what
//! the called crate's source shows; Verus believes it without proof.

use vstd::prelude::*;
use std::fmt::Write;
use crate::levels::Level;

verus! {

#[verifier::external_type_specification]
#[verifier::external_body]
pub struct ExEnvFilter(env_filter::Filter);

/// Relies on env_filter's `Builder`: parse a comma-separated directives
/// string (such as `"my_target=info"`) and build the filter. Malformed
/// parts of the string are ignored. Nothing is promised of the value:
/// callers treat the filter as opaque and only hand it to
/// `env_filter_enabled`.
#[verifier::external_body]
pub(crate) fn build_env_filter(directives: &str) -> env_filter::Filter {
    let mut builder = env_filter::Builder::new();
    builder.parse(directives);
    builder.build()
}

/// Relies on `env_filter::Filter::enabled`: whether a record with this
/// level and target passes the filter's directives. The verdict depends
/// on the opaque filter value, so nothing is promised of it; callers
/// state what holds of either outcome.
#[verifier::external_body]
pub(crate) fn env_filter_enabled(filter: &env_filter::Filter, target: &str, level: Level) -> bool {
    let log_level = match level {
        Level::Error => log::Level::Error,
        Level::Warn => log::Level::Warn,
        Level::Info => log::Level::Info,
        Level::Debug => log::Level::Debug,
        Level::Trace => log::Level::Trace,
    };
    let metadata = log::MetadataBuilder::new().level(log_level).target(target).build();
    filter.enabled(&metadata)
}

/// The value `fxhash::hash64` computes for a string: a function of the
/// string's bytes alone, with no per-process seed.
pub uninterp spec fn fx_hash64_of(s: Seq<char>) -> u64;

/// Relies on `fxhash::hash64`, a seed-free hash of the string's bytes.
#[verifier::external_body]
pub(crate) fn fx_hash64(target: &str) -> (r: u64)
    ensures
        r == fx_hash64_of(target@),
{
    fxhash::hash64(&target)
}

/// Relies on chrono's `Local` date-time formatting. The rendering
/// depends on the machine's time zone, so nothing is promised of the
/// result; a malformed format string yields a partial or empty
/// rendering instead of a panic.
#[verifier::external_body]
pub(crate) fn format_local_timestamp(millis: i64, fmt: &str) -> String {
    let mut out = String::new();
    if let chrono::LocalResult::Single(dt) = chrono::TimeZone::timestamp_millis_opt(
        &chrono::Local,
        millis,
    ) {
        let _ = write!(out, "{}", dt.format(fmt));
    }
    out
}

/// The extended grapheme clusters of a string, in order: a function of
/// the string's characters alone. Concatenating the clusters gives the
/// string back.
pub uninterp spec fn graphemes_of(s: Seq<char>) -> Seq<Seq<char>>;

/// Relies on unicode-segmentation's extended grapheme cluster
/// segmentation of a string.
#[verifier::external_body]
pub(crate) fn graphemes(s: &str) -> (r: Vec<String>)
    ensures
        r.deep_view() == graphemes_of(s@),
        s@.len() == 0 ==> r@.len() == 0,
{
    unicode_segmentation::UnicodeSegmentation::graphemes(s, true).map(|g| g.to_string()).collect()
}

/// Relies on `String::push`: appends exactly the one character.
#[verifier::external_body]
pub(crate) fn push_char(s: &mut String, c: char)
    ensures
        final(s)@ == old(s)@.push(c),
{
    s.push(c);
}

} // verus!
