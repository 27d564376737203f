//! Options for dumping captured records to a log file, and the
//! rendering of one record into one dump line.
//!
//! Opening and writing the file itself is input/output and happens
//! outside this crate; the engine computes the lines.

use vstd::prelude::*;
use vstd::string::StringExecFns;
use crate::levels::Level;
use crate::record::ExtLogRecord;
use crate::record::TuiLoggerLevelOutput;
use crate::record::dec_digits;
use crate::trusted::push_char;

verus! {

/// File-dump options: the file's name and which fields of a record are
/// written, in the same spirit as the widget's formatting options.
pub struct TuiLoggerFile {
    /// Name of the file the application appends the dump lines to.
    pub fname: String,
    /// Separator between fields.
    pub format_separator: char,
    /// Time-stamp format string, or `None` to omit the time stamp.
    pub timestamp_fmt: Option<String>,
    /// Whether the target is written.
    pub format_output_target: bool,
    /// Whether the source file is written.
    pub format_output_file: bool,
    /// Whether the source line is written.
    pub format_output_line: bool,
    /// How the level is written, or `None` to omit it.
    pub format_output_level: Option<TuiLoggerLevelOutput>,
}

impl TuiLoggerFile {
    /// Options with the given file name and the defaults: `:` as
    /// separator, a bracketed date-time stamp, and every field written
    /// with the long level form.
    pub fn new(fname: &str) -> (r: TuiLoggerFile)
        ensures
            r.fname@ == fname@,
            r.format_separator == ':',
            r.timestamp_fmt is Some && r.timestamp_fmt->0@ == "[%Y:%m:%d %H:%M:%S]"@,
            r.format_output_target,
            r.format_output_file,
            r.format_output_line,
            r.format_output_level == Some(TuiLoggerLevelOutput::Long),
    {
        TuiLoggerFile {
            fname: fname.to_owned(),
            format_separator: ':',
            timestamp_fmt: Some("[%Y:%m:%d %H:%M:%S]".to_owned()),
            format_output_target: true,
            format_output_file: true,
            format_output_line: true,
            format_output_level: Some(TuiLoggerLevelOutput::Long),
        }
    }

    /// Switch writing of the target on or off.
    pub fn output_target(self, enabled: bool) -> (r: TuiLoggerFile)
        ensures
            r == (TuiLoggerFile { format_output_target: enabled, ..self }),
    {
        TuiLoggerFile { format_output_target: enabled, ..self }
    }

    /// Switch writing of the source file on or off.
    pub fn output_file(self, enabled: bool) -> (r: TuiLoggerFile)
        ensures
            r == (TuiLoggerFile { format_output_file: enabled, ..self }),
    {
        TuiLoggerFile { format_output_file: enabled, ..self }
    }

    /// Switch writing of the source line on or off.
    pub fn output_line(self, enabled: bool) -> (r: TuiLoggerFile)
        ensures
            r == (TuiLoggerFile { format_output_line: enabled, ..self }),
    {
        TuiLoggerFile { format_output_line: enabled, ..self }
    }

    /// Set the time-stamp format string, or `None` to omit it.
    pub fn output_timestamp(self, fmt: Option<String>) -> (r: TuiLoggerFile)
        ensures
            r == (TuiLoggerFile { timestamp_fmt: fmt, ..self }),
    {
        TuiLoggerFile { timestamp_fmt: fmt, ..self }
    }

    /// Set the separator written between fields.
    pub fn output_separator(self, sep: char) -> (r: TuiLoggerFile)
        ensures
            r == (TuiLoggerFile { format_separator: sep, ..self }),
    {
        TuiLoggerFile { format_separator: sep, ..self }
    }

    /// Set how the level is written, or `None` to omit it.
    pub fn output_level(self, level: Option<TuiLoggerLevelOutput>) -> (r: TuiLoggerFile)
        ensures
            r == (TuiLoggerFile { format_output_level: level, ..self }),
    {
        TuiLoggerFile { format_output_level: level, ..self }
    }
}

/// The long form of a level, in fixed five-character width.
pub open spec fn level_long(l: Level) -> Seq<char> {
    match l {
        Level::Error => "ERROR"@,
        Level::Warn => "WARN "@,
        Level::Info => "INFO "@,
        Level::Debug => "DEBUG"@,
        Level::Trace => "TRACE"@,
    }
}

/// The one-character form of a level.
pub open spec fn level_abbr(l: Level) -> Seq<char> {
    match l {
        Level::Error => "E"@,
        Level::Warn => "W"@,
        Level::Info => "I"@,
        Level::Debug => "D"@,
        Level::Trace => "T"@,
    }
}

/// Whether a dump line carries the source location for this level:
/// every level but `Info` does.
pub open spec fn dump_with_location(l: Level) -> bool {
    l != Level::Info
}

/// The long form of a level.
pub fn level_long_str(l: Level) -> (r: &'static str)
    ensures
        r@ == level_long(l),
{
    match l {
        Level::Error => "ERROR",
        Level::Warn => "WARN ",
        Level::Info => "INFO ",
        Level::Debug => "DEBUG",
        Level::Trace => "TRACE",
    }
}

/// The one-character form of a level.
pub fn level_abbr_str(l: Level) -> (r: &'static str)
    ensures
        r@ == level_abbr(l),
{
    match l {
        Level::Error => "E",
        Level::Warn => "W",
        Level::Info => "I",
        Level::Debug => "D",
        Level::Trace => "T",
    }
}

/// The dump line for a record, given the already rendered time stamp:
/// the enabled fields in order, each followed by the separator, then
/// the message.
pub open spec fn dump_line_spec(
    opts: TuiLoggerFile,
    ts_str: Seq<char>,
    rec: ExtLogRecord,
) -> Seq<char> {
    let sep = opts.format_separator;
    let p0 = if opts.timestamp_fmt is Some {
        ts_str.push(sep)
    } else {
        Seq::<char>::empty()
    };
    let p1 = match opts.format_output_level {
        None => p0,
        Some(TuiLoggerLevelOutput::Abbreviated) => p0 + level_abbr(rec.level).push(sep),
        Some(TuiLoggerLevelOutput::Long) => p0 + level_long(rec.level).push(sep),
    };
    let p2 = if opts.format_output_target {
        p1 + rec.target@.push(sep)
    } else {
        p1
    };
    let p3 = if dump_with_location(rec.level) && opts.format_output_file && rec.file is Some {
        p2 + rec.file->0@.push(sep)
    } else {
        p2
    };
    let p4 = if dump_with_location(rec.level) && opts.format_output_line && rec.line is Some {
        p3 + dec_digits(rec.line->0 as nat).push(sep)
    } else {
        p3
    };
    p4 + rec.msg@
}

/// Render the dump line for one record, with `ts_str` standing in for
/// the rendered time stamp.
pub fn format_dump_line(opts: &TuiLoggerFile, ts_str: &str, rec: &ExtLogRecord) -> (r: String)
    ensures
        r@ == dump_line_spec(*opts, ts_str@, *rec),
{
    let sep = opts.format_separator;
    let mut out = String::new();
    if opts.timestamp_fmt.is_some() {
        out.append(ts_str);
        push_char(&mut out, sep);
    }
    match opts.format_output_level {
        None => {},
        Some(TuiLoggerLevelOutput::Abbreviated) => {
            out.append(level_abbr_str(rec.level));
            push_char(&mut out, sep);
        },
        Some(TuiLoggerLevelOutput::Long) => {
            out.append(level_long_str(rec.level));
            push_char(&mut out, sep);
        },
    }
    if opts.format_output_target {
        out.append(rec.target.as_str());
        push_char(&mut out, sep);
    }
    let with_loc = rec.level != Level::Info;
    if with_loc {
        if opts.format_output_file {
            if let Some(file) = &rec.file {
                out.append(file.as_str());
                push_char(&mut out, sep);
            }
        }
        if opts.format_output_line {
            if let Some(line) = rec.line {
                let line_str = crate::record::decimal_string(line as usize);
                out.append(line_str.as_str());
                push_char(&mut out, sep);
            }
        }
    }
    out.append(rec.msg.as_str());
    proof {
        assert(out@ =~= dump_line_spec(*opts, ts_str@, *rec));
    }
    out
}

} // verus!
