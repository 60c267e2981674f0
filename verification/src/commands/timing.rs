//! Reading build times out of what cargo left behind.

use crate::external::{
    humantime_parsed_secs, parse_duration_secs, parse_u32_text, parsed_u32, trim_text, trimmed,
    MAX_DURATION_DIGITS,
};
use crate::text::{chars_of, concat_str, count_decimal_digits, decimal_digits};
use crate::types::errors::ProjectsError;
use crate::types::values::{Timestamp, TimingDuration};
use vstd::prelude::*;
use vstd::string::StrSliceExecFns;
use vstd::string::StringExecFns;

verus! {

/// Clears what was remembered of build times. Nothing is remembered yet.
pub fn clear_timing_cache() {
}

/// Handles the request to forget the build times that were remembered.
pub fn handle_refresh_timing() {
    clear_timing_cache();
}

/// The build time to record for an estimate: its seconds, or 0 ("unknown")
/// where the estimate failed.
pub fn estimate_build_time(estimate: &Result<u32, ProjectsError>) -> (r: TimingDuration)
    ensures
        r@ == match *estimate {
            Ok(seconds) => seconds,
            Err(_) => 0,
        },
{
    match estimate {
        Ok(seconds) => TimingDuration::new(*seconds),
        Err(_) => TimingDuration::new(0),
    }
}

/// The whole seconds of a duration in 32 bits; more seconds than 32 bits
/// hold count as the most that they hold.
pub open spec fn seconds_in_u32(secs: u64) -> u32 {
    if secs > u32::MAX {
        u32::MAX
    } else {
        secs as u32
    }
}

/// The whole seconds of a duration that was read, in 32 bits; `None` where
/// the text was no duration.
pub fn duration_seconds(parsed: Option<u64>) -> (r: Option<u32>)
    ensures
        r == match parsed {
            Some(secs) => Some(seconds_in_u32(secs)),
            None => None,
        },
{
    match parsed {
        Some(secs) => if secs > 0xffff_ffff {
            Some(u32::MAX)
        } else {
            Some(secs as u32)
        },
        None => None,
    }
}

/// The build time that a cache file holds, given the number that its
/// content was read as: the number, or a parse error that quotes why the
/// content is no number.
pub fn cached_outcome(parsed: Result<u32, String>) -> (r: Result<u32, ProjectsError>)
    ensures
        match r {
            Ok(seconds) => parsed == Ok::<u32, String>(seconds),
            Err(e) => {
                &&& parsed is Err
                &&& e matches ProjectsError::ParseError { message }
                &&& message@ == "Invalid cached build time: "@ + parsed->Err_0@
            },
        },
{
    match parsed {
        Ok(seconds) => Ok(seconds),
        Err(why) => Err(
            ProjectsError::ParseError {
                message: concat_str("Invalid cached build time: ", why.as_str()),
            },
        ),
    }
}

/// The build time that was cached for a project, given the content of its
/// cache file, or `None` where the project has no such file. The content
/// is a number of seconds, with whitespace around it left aside.
pub fn get_cached_build_time(content: Option<&str>) -> (r: Result<u32, ProjectsError>)
    ensures
        match content {
            Some(text) => match r {
                Ok(seconds) => parsed_u32(trimmed(text@)) == Ok::<u32, Seq<char>>(seconds),
                Err(e) => {
                    &&& parsed_u32(trimmed(text@)) is Err
                    &&& e matches ProjectsError::ParseError { message }
                    &&& message@ == "Invalid cached build time: "@ + parsed_u32(
                        trimmed(text@),
                    )->Err_0
                },
            },
            None => {
                &&& r is Err
                &&& r->Err_0 matches ProjectsError::CacheNotFound { message }
                &&& message@ == "No cached build time"@
            },
        },
{
    match content {
        Some(text) => cached_outcome(parse_u32_text(trim_text(text))),
        None => Err(
            ProjectsError::CacheNotFound { message: String::from_str("No cached build time") },
        ),
    }
}

/// Whether a text is short enough in digits to be read as a duration.
pub open spec fn readable_duration(text: Seq<char>) -> bool {
    decimal_digits(text) <= MAX_DURATION_DIGITS
}

/// The seconds that a text gives when it is read as a duration: none for a
/// text with more digits than are read, and none for a text that is no
/// duration.
pub open spec fn time_string_seconds(text: Seq<char>) -> Option<u32> {
    if readable_duration(text) {
        match humantime_parsed_secs(text) {
            Some(secs) => Some(seconds_in_u32(secs)),
            None => None,
        }
    } else {
        None
    }
}

/// Reads a duration such as `1m 30s` and gives its whole seconds. A text
/// with more than `MAX_DURATION_DIGITS` digits is not read.
pub fn parse_time_string(time_str: &str) -> (r: Option<u32>)
    ensures
        r == time_string_seconds(time_str@),
{
    if count_decimal_digits(time_str) <= MAX_DURATION_DIGITS {
        duration_seconds(parse_duration_secs(time_str))
    } else {
        None
    }
}

/// The outcome of reading a timing report: the seconds that were read, or a
/// parse error where none were.
pub fn report_outcome(seconds: Option<u32>) -> (r: Result<u32, ProjectsError>)
    ensures
        match r {
            Ok(s) => seconds == Some(s),
            Err(e) => {
                &&& seconds is None
                &&& e matches ProjectsError::ParseError { message }
                &&& message@ == "Could not parse timing data from cargo-timings report"@
            },
        },
{
    match seconds {
        Some(s) => Ok(s),
        None => Err(
            ProjectsError::ParseError {
                message: String::from_str("Could not parse timing data from cargo-timings report"),
            },
        ),
    }
}

/// Whether `needle` stands in `hay` at position `i`.
pub open spec fn occurs_at(hay: Seq<char>, needle: Seq<char>, i: int) -> bool {
    0 <= i && i + needle.len() <= hay.len() && hay.subrange(i, i + needle.len()) == needle
}

/// Whether `i` is the first position from `from` on at which `needle`
/// stands in `hay`.
pub open spec fn first_occurrence(hay: Seq<char>, needle: Seq<char>, from: int, i: int) -> bool {
    &&& from <= i
    &&& occurs_at(hay, needle, i)
    &&& forall|j: int| from <= j < i ==> !occurs_at(hay, needle, j)
}

/// Whether `needle` stands nowhere in `hay` from `from` on.
pub open spec fn no_occurrence(hay: Seq<char>, needle: Seq<char>, from: int) -> bool {
    forall|j: int| from <= j ==> !occurs_at(hay, needle, j)
}

/// What precedes the total time in a timing report of cargo.
pub open spec fn total_time_marker() -> Seq<char> {
    "<td>Total time:</td><td>"@
}

/// What follows the total time in a timing report of cargo.
pub open spec fn cell_end() -> Seq<char> {
    "</td>"@
}

/// Whether `text` is the total time that `content` reports: what stands
/// between the first marker and the first end of a cell behind it.
pub open spec fn is_total_time(content: Seq<char>, text: Seq<char>) -> bool {
    exists|i: int, j: int|
        first_occurrence(content, total_time_marker(), 0, i) && #[trigger] first_occurrence(
            content,
            cell_end(),
            i + total_time_marker().len(),
            j,
        ) && text == content.subrange(i + total_time_marker().len(), j)
}

/// Whether `content` reports no total time: the marker is missing, or no
/// cell ends behind the first marker.
pub open spec fn lacks_total_time(content: Seq<char>) -> bool {
    ||| no_occurrence(content, total_time_marker(), 0)
    ||| exists|i: int| #[trigger]
        first_occurrence(content, total_time_marker(), 0, i) && no_occurrence(
            content,
            cell_end(),
            i + total_time_marker().len(),
        )
}

/// Whether `needle` stands in `hay` at position `i`.
fn matches_at(hay: &Vec<char>, needle: &Vec<char>, i: usize) -> (r: bool)
    requires
        i + needle@.len() <= hay@.len(),
    ensures
        r == occurs_at(hay@, needle@, i as int),
{
    let total: usize = hay.len();
    let mut k: usize = 0;
    while k < needle.len()
        invariant
            k <= needle.len(),
            i + needle@.len() <= hay@.len() <= usize::MAX,
            forall|m: int| 0 <= m < k ==> hay@[i + m] == needle@[m],
        decreases needle.len() - k,
    {
        if hay[i + k] != needle[k] {
            assert(hay@.subrange(i as int, i + needle@.len())[k as int] != needle@[k as int]);
            return false;
        }
        k += 1;
    }
    assert(hay@.subrange(i as int, i + needle@.len()) =~= needle@);
    true
}

/// The first position from `from` on at which `needle` stands in `hay`.
fn find_from(hay: &Vec<char>, needle: &Vec<char>, from: usize) -> (r: Option<usize>)
    ensures
        match r {
            Some(i) => first_occurrence(hay@, needle@, from as int, i as int),
            None => no_occurrence(hay@, needle@, from as int),
        },
{
    if needle.len() > hay.len() {
        return None;
    }
    let last: usize = hay.len() - needle.len();
    if from > last {
        return None;
    }
    let mut i: usize = from;
    loop
        invariant
            from <= i <= last,
            last == hay@.len() - needle@.len(),
            forall|j: int| from <= j < i ==> !occurs_at(hay@, needle@, j),
        decreases last - i,
    {
        if matches_at(hay, needle, i) {
            return Some(i);
        }
        if i == last {
            return None;
        }
        i += 1;
    }
}

/// The total time that a timing report of cargo states, as the report
/// writes it.
pub fn extract_total_time(content: &str) -> (r: Option<&str>)
    ensures
        match r {
            Some(text) => is_total_time(content@, text@),
            None => lacks_total_time(content@),
        },
{
    let hay = chars_of(content);
    let marker = chars_of("<td>Total time:</td><td>");
    let end = chars_of("</td>");
    match find_from(&hay, &marker, 0) {
        Some(i) => {
            let total: usize = hay.len();
            assert(occurs_at(hay@, marker@, i as int));
            assert(i + marker@.len() <= total);
            let start: usize = i + marker.len();
            match find_from(&hay, &end, start) {
                Some(j) => {
                    assert(first_occurrence(
                        content@,
                        cell_end(),
                        i + total_time_marker().len(),
                        j as int,
                    ));
                    Some(content.substring_char(start, j))
                },
                None => {
                    assert(first_occurrence(content@, total_time_marker(), 0, i as int));
                    None
                },
            }
        },
        None => None,
    }
}

/// The build time that a timing report states, in seconds. A report without
/// a total time, or with one that is no duration, is a parse error.
pub fn parse_timing_report(content: &str) -> (r: Result<u32, ProjectsError>)
    ensures
        match r {
            Ok(seconds) => exists|text: Seq<char>| #[trigger]
                is_total_time(content@, text) && time_string_seconds(text) == Some(seconds),
            Err(e) => {
                &&& lacks_total_time(content@) || exists|text: Seq<char>| #[trigger]
                    is_total_time(content@, text) && time_string_seconds(text) is None
                &&& e matches ProjectsError::ParseError { message }
                &&& message@ == "Could not parse timing data from cargo-timings report"@
            },
        },
{
    let parsed = match extract_total_time(content) {
        Some(text) => parse_time_string(text),
        None => None,
    };
    report_outcome(parsed)
}

/// A report file in the timings directory of a project.
#[derive(Debug, Clone, Copy, PartialEq, Eq, Structural)]
pub struct TimingReport {
    /// Whether the file's extension is `html`.
    pub is_html: bool,
    /// When the file was last modified; `None` where that cannot be told.
    pub modified: Option<Timestamp>,
}

/// The time by which a report is ranked: its time of modification, or the
/// Unix epoch where none is known.
pub open spec fn report_time(report: TimingReport) -> Timestamp {
    match report.modified {
        Some(at) => at,
        None => Timestamp { secs: 0, nanos: 0 },
    }
}

/// Whether `a` is no later than `b`.
pub open spec fn not_after(a: Timestamp, b: Timestamp) -> bool {
    a.secs < b.secs || (a.secs == b.secs && a.nanos <= b.nanos)
}

/// Whether `i` is the report to read: the most recently modified HTML
/// report, and among several of that time the last one.
pub open spec fn is_latest_report(reports: Seq<TimingReport>, i: int) -> bool {
    &&& 0 <= i < reports.len()
    &&& reports[i].is_html
    &&& forall|j: int|
        0 <= j < reports.len() && reports[j].is_html ==> not_after(
            report_time(#[trigger] reports[j]),
            report_time(reports[i]),
        )
    &&& forall|j: int|
        i < j < reports.len() && reports[j].is_html ==> report_time(#[trigger] reports[j])
            != report_time(reports[i])
}

/// Picks the report to read among the files of a timings directory. Without
/// the directory, or without an HTML report in it, there is nothing cached.
pub fn select_timing_report(directory_exists: bool, reports: &Vec<TimingReport>) -> (r: Result<
    usize,
    ProjectsError,
>)
    ensures
        match r {
            Ok(i) => directory_exists && is_latest_report(reports@, i as int),
            Err(e) => {
                &&& !directory_exists || forall|j: int|
                    0 <= j < reports@.len() ==> !(#[trigger] reports@[j]).is_html
                &&& e matches ProjectsError::CacheNotFound { message }
                &&& message@ == if directory_exists {
                    "No timing files found"@
                } else {
                    "No timings directory found"@
                }
            },
        },
{
    if !directory_exists {
        return Err(
            ProjectsError::CacheNotFound {
                message: String::from_str("No timings directory found"),
            },
        );
    }
    let mut best: Option<usize> = None;
    let mut i: usize = 0;
    while i < reports.len()
        invariant
            i <= reports.len(),
            match best {
                Some(b) => b < i && is_latest_report(reports@.take(i as int), b as int),
                None => forall|j: int| 0 <= j < i ==> !(#[trigger] reports@[j]).is_html,
            },
        decreases reports.len() - i,
    {
        let report = reports[i];
        let ghost seen = reports@.take(i as int);
        let ghost more = reports@.take(i + 1);
        proof {
            assert forall|j: int| 0 <= j < i implies more[j] == seen[j] by {}
            assert(more[i as int] == report);
        }
        if report.is_html {
            let newer = match best {
                Some(b) => {
                    let held = time_of(&reports[b]);
                    let this = time_of(&report);
                    held.secs < this.secs || (held.secs == this.secs && held.nanos <= this.nanos)
                },
                None => true,
            };
            if newer {
                proof {
                    assert forall|j: int| 0 <= j < more.len() && more[j].is_html implies not_after(
                        report_time(#[trigger] more[j]),
                        report_time(more[i as int]),
                    ) by {
                        if j < i {
                            assert(seen[j].is_html);
                        }
                    }
                }
                best = Some(i);
            } else {
                proof {
                    let b = best->0 as int;
                    assert forall|j: int| 0 <= j < more.len() && more[j].is_html implies not_after(
                        report_time(#[trigger] more[j]),
                        report_time(more[b]),
                    ) by {
                        if j < i {
                            assert(seen[j].is_html);
                        }
                    }
                    assert forall|j: int|
                        b < j < more.len() && more[j].is_html implies report_time(
                        #[trigger] more[j],
                    ) != report_time(more[b]) by {
                        if j < i {
                            assert(seen[j].is_html);
                        }
                    }
                }
            }
        } else {
            proof {
                if best is Some {
                    let b = best->0 as int;
                    assert forall|j: int| 0 <= j < more.len() && more[j].is_html implies not_after(
                        report_time(#[trigger] more[j]),
                        report_time(more[b]),
                    ) by {
                        if j < i {
                            assert(seen[j].is_html);
                        }
                    }
                    assert forall|j: int|
                        b < j < more.len() && more[j].is_html implies report_time(
                        #[trigger] more[j],
                    ) != report_time(more[b]) by {
                        if j < i {
                            assert(seen[j].is_html);
                        }
                    }
                }
            }
        }
        i += 1;
    }
    assert(reports@.take(reports@.len() as int) =~= reports@);
    match best {
        Some(b) => Ok(b),
        None => Err(
            ProjectsError::CacheNotFound { message: String::from_str("No timing files found") },
        ),
    }
}

/// The time by which a report is ranked.
fn time_of(report: &TimingReport) -> (r: Timestamp)
    ensures
        r == report_time(*report),
{
    match report.modified {
        Some(at) => at,
        None => Timestamp { secs: 0, nanos: 0 },
    }
}

/// What an estimate by a fresh `cargo check --timings` comes to: a failed
/// check is a build error, and a report that cannot be read after a check
/// that succeeded is a parse error.
pub fn timings_after_check(check_succeeded: bool, report: Result<u32, ProjectsError>) -> (r: Result<
    u32,
    ProjectsError,
>)
    ensures
        match r {
            Ok(seconds) => check_succeeded && report == Ok::<u32, ProjectsError>(seconds),
            Err(e) => if check_succeeded {
                &&& report is Err
                &&& e matches ProjectsError::ParseError { message }
                &&& message@ == "Could not parse timing data"@
            } else {
                &&& e matches ProjectsError::BuildError { message }
                &&& message@ == "Check failed"@
            },
        },
{
    if check_succeeded {
        match report {
            Ok(seconds) => Ok(seconds),
            Err(_) => Err(
                ProjectsError::ParseError {
                    message: String::from_str("Could not parse timing data"),
                },
            ),
        }
    } else {
        Err(ProjectsError::BuildError { message: String::from_str("Check failed") })
    }
}

} // verus!
