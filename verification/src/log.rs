//! The gateway's log lines: which file a message goes to and the text that
//! is appended there.  The caller opens the file and appends.
use vstd::prelude::*;
use crate::text::{append_decimal, decimal};

verus! {

/// A line to append to a log file.
pub struct LogWrite {
    pub path: String,
    pub text: String,
}

/// `n` in decimal, with a `-` in front when it is negative.
pub open spec fn signed_decimal(n: int) -> Seq<char> {
    if n < 0 {
        seq!['-'] + decimal((-n) as nat)
    } else {
        decimal(n as nat)
    }
}

/// The text logged for message `s` in frame `frame`: `[frame]s` and a
/// line break.
pub open spec fn log_text(frame: i32, s: Seq<char>) -> Seq<char> {
    seq!['['] + signed_decimal(frame as int) + seq![']'] + s + seq!['\n']
}

fn log_line(frame: i32, s: &str) -> (r: String)
    ensures
        r@ == log_text(frame, s@),
{
    proof {
        reveal_strlit("[");
        reveal_strlit("-");
        reveal_strlit("]");
        reveal_strlit("\n");
    }
    let mut t = String::new();
    t.append("[");
    if frame < 0 {
        t.append("-");
        append_decimal(&mut t, (-(frame as i64)) as u64);
    } else {
        append_decimal(&mut t, frame as u64);
    }
    t.append("]");
    t.append(s);
    t.append("\n");
    assert(t@ =~= log_text(frame, s@));
    t
}

/// The message `s` for the general log `device/default.log`.
pub fn im(device: &str, frame: i32, s: &str) -> (r: LogWrite)
    ensures
        r.path@ == device@ + "/default.log"@,
        r.text@ == log_text(frame, s@),
{
    let mut path = device.to_string();
    path.append("/default.log");
    LogWrite { path, text: log_line(frame, s) }
}

/// The message `s` for the error log `device/err.log`.
pub fn err(device: &str, frame: i32, s: &str) -> (r: LogWrite)
    ensures
        r.path@ == device@ + "/err.log"@,
        r.text@ == log_text(frame, s@),
{
    let mut path = device.to_string();
    path.append("/err.log");
    LogWrite { path, text: log_line(frame, s) }
}

} // verus!
