//! Lines of the log file, stamped with the local time.
use crate::path::{path_join, spec_push};
use crate::text::append_str;
use vstd::prelude::*;

verus! {

/// The local time as `%Y-%m-%d %H:%M:%S`, from `chrono::Local::now`. Nothing
/// is stated of the result: it depends on the clock and the time zone.
#[verifier::external_body]
fn time() -> String {
    format!("{}", chrono::Local::now().format("%Y-%m-%d %H:%M:%S"))
}

/// A log line: the time, the level, and the message.
pub open spec fn spec_line(time: Seq<char>, level: Seq<char>, msg: Seq<char>) -> Seq<char> {
    time + ": ["@ + level + "] - "@ + msg + "\n"@
}

/// The log line of `msg` at `level`, stamped `time`.
pub fn format_line(time: &str, level: &str, msg: &str) -> (r: String)
    ensures
        r@ == spec_line(time@, level@, msg@),
{
    let mut s = time.to_owned();
    append_str(&mut s, ": [");
    append_str(&mut s, level);
    append_str(&mut s, "] - ");
    append_str(&mut s, msg);
    append_str(&mut s, "\n");
    s
}

/// The log line of an informational message, stamped with the current time.
pub fn info(msg: &str) -> (r: String)
    ensures
        exists|t: Seq<char>| r@ == spec_line(t, "INFO"@, msg@),
{
    let t = time();
    let r = format_line(t.as_str(), "INFO", msg);
    assert(r@ == spec_line(t@, "INFO"@, msg@));
    r
}

/// The log line of an error message, stamped with the current time.
pub fn err(msg: &str) -> (r: String)
    ensures
        exists|t: Seq<char>| r@ == spec_line(t, "ERROR"@, msg@),
{
    let t = time();
    let r = format_line(t.as_str(), "ERROR", msg);
    assert(r@ == spec_line(t@, "ERROR"@, msg@));
    r
}

/// The log file: `log` inside the log directory.
pub fn log_file(log_dir: &str) -> (r: String)
    ensures
        r@ == spec_push(log_dir@, "log"@),
{
    path_join(log_dir, "log")
}

} // verus!
