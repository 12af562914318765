//! The access log: one line for each file that is sent.

use crate::decode::string_from_utf8_lossy;
use crate::decode::utf8_lossy;
use crate::handler::Download;
use vstd::prelude::*;
use vstd::string::StringExecFns;

verus! {

/// The line that records a download: when, to whom, which file.
pub open spec fn log_line(timestamp: Seq<char>, remote: Seq<char>, file: Seq<char>) -> Seq<char> {
    "ts="@ + timestamp + " ip="@ + remote + " file="@ + file
}

/// The layout of the timestamp: date, time and offset of the local time zone.
pub open spec fn timestamp_layout() -> Seq<char> {
    "%Y%m%d-%H:%M:%S%z"@
}

/// Calls `chrono::Local::now` and writes the time in the given layout. The
/// result depends on the clock and on the time zone of the machine, so
/// nothing is stated of it. The one layout that is admitted holds no
/// specifier that chrono refuses.
#[verifier::external_body]
fn local_time(layout: &str) -> (out: String)
    requires
        layout@ == timestamp_layout(),
{
    chrono::Local::now().format(layout).to_string()
}

/// Writes the line for a download from its three parts.
pub fn format_log_line(timestamp: &str, remote: &str, file: &str) -> (out: String)
    ensures
        out@ == log_line(timestamp@, remote@, file@),
{
    String::from_str("ts=").concat(timestamp).concat(" ip=").concat(remote).concat(
        " file=",
    ).concat(file)
}

/// Writes the line for a download at a given time. The path is shown as
/// text, with the replacement character for what is no UTF-8.
pub fn log_line_at(timestamp: &str, entry: &Download) -> (out: String)
    ensures
        out@ == log_line(timestamp@, entry.remote@, utf8_lossy(entry.file@)),
{
    let file = string_from_utf8_lossy(entry.file.as_slice());
    format_log_line(timestamp, entry.remote.as_str(), file.as_str())
}

/// Writes the line for a download that happens now, in local time.
pub fn log_download(entry: &Download) -> (out: String)
    ensures
        exists|timestamp: Seq<char>|
            out@ == #[trigger] log_line(timestamp, entry.remote@, utf8_lossy(entry.file@)),
{
    let timestamp = local_time("%Y%m%d-%H:%M:%S%z");
    log_line_at(timestamp.as_str(), entry)
}

} // verus!
