//! The log record held by the capture buffers, and decimal rendering of
//! counters for synthesized messages.

use vstd::prelude::*;
use vstd::string::StringExecFns;
use crate::levels::Level;

verus! {

/// How a record's level is rendered in formatted output.
#[derive(Clone, Copy, Debug, PartialEq, Eq, Structural, Hash)]
pub enum TuiLoggerLevelOutput {
    Abbreviated,
    Long,
}

/// The character for a single decimal digit.
pub open spec fn digit_char(d: nat) -> char {
    ((48 + d) as u8) as char
}

/// The decimal digit sequence of `n`, most significant first, without
/// leading zeros (a single `'0'` for zero).
pub open spec fn dec_digits(n: nat) -> Seq<char>
    decreases n,
{
    if n < 10 {
        seq![digit_char(n)]
    } else {
        dec_digits(n / 10).push(digit_char(n % 10))
    }
}

/// A one-character string for a decimal digit.
fn digit_str(d: u8) -> (r: &'static str)
    requires
        d < 10,
    ensures
        r@ == seq![digit_char(d as nat)],
{
    let r: &'static str = match d {
        0 => "0",
        1 => "1",
        2 => "2",
        3 => "3",
        4 => "4",
        5 => "5",
        6 => "6",
        7 => "7",
        8 => "8",
        _ => "9",
    };
    proof {
        reveal_strlit("0");
        reveal_strlit("1");
        reveal_strlit("2");
        reveal_strlit("3");
        reveal_strlit("4");
        reveal_strlit("5");
        reveal_strlit("6");
        reveal_strlit("7");
        reveal_strlit("8");
        reveal_strlit("9");
        assert(r@ =~= seq![digit_char(d as nat)]);
    }
    r
}

/// Render `n` in decimal.
pub fn decimal_string(n: usize) -> (r: String)
    ensures
        r@ == dec_digits(n as nat),
    decreases n,
{
    if n < 10 {
        String::from_str(digit_str(n as u8))
    } else {
        let mut s = decimal_string(n / 10);
        s.append(digit_str((n % 10) as u8));
        proof {
            assert(s@ =~= dec_digits(n as nat));
        }
        s
    }
}

/// One captured log event. The timestamp is in milliseconds, as handed
/// in by the capture front end; records are never mutated after
/// construction.
pub struct ExtLogRecord {
    /// Capture time in milliseconds.
    pub timestamp: i64,
    /// Severity of the event.
    pub level: Level,
    /// The target (category) the event was logged under.
    pub target: String,
    /// Source file of the call site, if known.
    pub file: Option<String>,
    /// Module of the call site, if known.
    pub module: Option<String>,
    /// Source line of the call site, if known.
    pub line: Option<u32>,
    /// The message, possibly spanning several lines.
    pub msg: String,
}

/// The message of the synthesized overflow record: how many events were
/// lost, how many were recorded, out of how many.
pub open spec fn overrun_msg(total: nat, elements: nat) -> Seq<char> {
    "There have been "@ + dec_digits((total - elements) as nat) + " events lost, "@ + dec_digits(
        elements,
    ) + " recorded out of "@ + dec_digits(total)
}

impl ExtLogRecord {
    /// Build a record from its parts.
    pub fn new(
        timestamp: i64,
        level: Level,
        target: String,
        file: Option<String>,
        module: Option<String>,
        line: Option<u32>,
        msg: String,
    ) -> (r: ExtLogRecord)
        ensures
            r.timestamp == timestamp,
            r.level == level,
            r.target == target,
            r.file == file,
            r.module == module,
            r.line == line,
            r.msg == msg,
    {
        ExtLogRecord { timestamp, level, target, file, module, line, msg }
    }

    /// The target the event was logged under.
    pub fn target(&self) -> (r: &str)
        ensures
            r@ == self.target@,
    {
        self.target.as_str()
    }

    /// The message text.
    pub fn msg(&self) -> (r: &str)
        ensures
            r@ == self.msg@,
    {
        self.msg.as_str()
    }

    /// The source file of the call site, if known.
    pub fn file(&self) -> (r: Option<&str>)
        ensures
            match r {
                Some(s) => self.file is Some && s@ == self.file->0@,
                None => self.file is None,
            },
    {
        match &self.file {
            Some(s) => Some(s.as_str()),
            None => None,
        }
    }

    /// The module of the call site, if known.
    pub fn module(&self) -> (r: Option<&str>)
        ensures
            match r {
                Some(s) => self.module is Some && s@ == self.module->0@,
                None => self.module is None,
            },
    {
        match &self.module {
            Some(s) => Some(s.as_str()),
            None => None,
        }
    }

    /// The warning record synthesized when the hot buffer overflowed:
    /// `total` events arrived but only `elements` were retained.
    pub fn overrun(timestamp: i64, total: usize, elements: usize) -> (r: ExtLogRecord)
        requires
            elements < total,
        ensures
            r.timestamp == timestamp,
            r.level == Level::Warn,
            r.target@ == "TuiLogger"@,
            r.file is None,
            r.module is None,
            r.line is None,
            r.msg@ == overrun_msg(total as nat, elements as nat),
    {
        let mut msg = String::from_str("There have been ");
        let lost = decimal_string(total - elements);
        msg.append(lost.as_str());
        msg.append(" events lost, ");
        let rec = decimal_string(elements);
        msg.append(rec.as_str());
        msg.append(" recorded out of ");
        let tot = decimal_string(total);
        msg.append(tot.as_str());
        proof {
            assert(msg@ =~= overrun_msg(total as nat, elements as nat));
        }
        ExtLogRecord {
            timestamp,
            level: Level::Warn,
            target: String::from_str("TuiLogger"),
            file: None,
            module: None,
            line: None,
            msg,
        }
    }
}

} // verus!
