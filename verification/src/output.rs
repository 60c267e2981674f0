//! The texts that report what a command did.

use crate::commands::update::{name_views, UpdateResult};
use crate::text::{concat_str, decimal, decimal_string};
use crate::types::values::TimingDuration;
use vstd::prelude::*;
use vstd::string::StringExecFns;

verus! {

/// How a build time of `seconds` is shown: `Unknown` for 0, seconds below a
/// minute, minutes and seconds below an hour, hours and minutes from there.
/// A part that is 0 is left out.
pub open spec fn build_time_text(seconds: u32) -> Seq<char> {
    if seconds == 0 {
        "Unknown"@
    } else if seconds < 60 {
        decimal(seconds as nat) + "s"@
    } else if seconds < 3600 {
        if seconds % 60 == 0 {
            decimal((seconds / 60) as nat) + "m"@
        } else {
            decimal((seconds / 60) as nat) + "m"@ + decimal((seconds % 60) as nat) + "s"@
        }
    } else {
        if (seconds % 3600) / 60 == 0 {
            decimal((seconds / 3600) as nat) + "h"@
        } else {
            decimal((seconds / 3600) as nat) + "h"@ + decimal(((seconds % 3600) / 60) as nat)
                + "m"@
        }
    }
}

/// A number followed by its unit.
fn with_unit(n: u32, unit: &str) -> (s: String)
    ensures
        s@ == decimal(n as nat) + unit@,
{
    let mut s: String = decimal_string(n as u64);
    s.append(unit);
    s
}

/// Shows a build time of `seconds`.
pub fn format_build_time(seconds: u32) -> (s: String)
    ensures
        s@ == build_time_text(seconds),
{
    if seconds == 0 {
        String::from_str("Unknown")
    } else if seconds < 60 {
        with_unit(seconds, "s")
    } else if seconds < 3600 {
        let mins: u32 = seconds / 60;
        let secs: u32 = seconds % 60;
        if secs == 0 {
            with_unit(mins, "m")
        } else {
            let mut s: String = with_unit(mins, "m");
            s.append(with_unit(secs, "s").as_str());
            assert(s@ =~= decimal(mins as nat) + "m"@ + decimal(secs as nat) + "s"@);
            s
        }
    } else {
        let hours: u32 = seconds / 3600;
        let mins: u32 = (seconds % 3600) / 60;
        if mins == 0 {
            with_unit(hours, "h")
        } else {
            let mut s: String = with_unit(hours, "h");
            s.append(with_unit(mins, "m").as_str());
            assert(s@ =~= decimal(hours as nat) + "h"@ + decimal(mins as nat) + "m"@);
            s
        }
    }
}

/// Shows the time that a check of a project takes, as a list of projects
/// has it.
pub fn format_check_time(build_time: TimingDuration) -> (s: String)
    ensures
        s@ == build_time_text(build_time@),
{
    format_build_time(build_time.seconds())
}

/// One line for each name, each behind a bullet, with a line break between
/// two lines.
pub open spec fn bullet_lines(names: Seq<Seq<char>>) -> Seq<char>
    decreases names.len(),
{
    if names.len() == 0 {
        Seq::empty()
    } else if names.len() == 1 {
        "  \u{2022} "@ + names[0]
    } else {
        bullet_lines(names.drop_last()) + "\n"@ + "  \u{2022} "@ + names.last()
    }
}

/// What is reported of an update that counted `total` changed projects,
/// called `names`.
pub open spec fn update_text(names: Seq<Seq<char>>, total: usize) -> Seq<char> {
    if total == 0 {
        "All projects are up to date."@
    } else {
        "Updated "@ + decimal(total as nat) + " projects:\n"@ + bullet_lines(names)
    }
}

/// Reports what an update changed.
pub fn format_update_result(result: &UpdateResult) -> (s: String)
    ensures
        s@ == update_text(name_views(result.updated_projects@), result.total_updated),
{
    if result.total_updated == 0 {
        return String::from_str("All projects are up to date.");
    }
    let ghost names = name_views(result.updated_projects@);
    let mut lines: String = String::new();
    let mut i: usize = 0;
    assert(names.take(0) =~= Seq::<Seq<char>>::empty());
    while i < result.updated_projects.len()
        invariant
            i <= result.updated_projects.len(),
            names == name_views(result.updated_projects@),
            lines@ == bullet_lines(names.take(i as int)),
        decreases result.updated_projects.len() - i,
    {
        let ghost before = lines@;
        proof {
            assert(names.take(i + 1).drop_last() =~= names.take(i as int));
            assert(names.take(i + 1).last() == names[i as int]);
            if i == 0 {
                assert(names.take(1)[0] == names[0]);
            }
        }
        if i > 0 {
            lines.append("\n");
        }
        lines.append("  \u{2022} ");
        lines.append(result.updated_projects[i].as_str());
        proof {
            if i == 0 {
                assert(lines@ =~= "  \u{2022} "@ + names[0]);
            } else {
                assert(lines@ =~= before + "\n"@ + "  \u{2022} "@ + names[i as int]);
            }
        }
        i += 1;
    }
    assert(names.take(names.len() as int) =~= names);
    let mut s: String = String::from_str("Updated ");
    s.append(decimal_string(result.total_updated as u64).as_str());
    s.append(" projects:\n");
    s.append(lines.as_str());
    s
}

/// A project as a scan reports it: its name, and its path as it is shown.
#[derive(Debug)]
pub struct ShownProject {
    pub name: String,
    pub path: String,
}

/// The line of one project that a scan found.
pub open spec fn found_line(project: ShownProject) -> Seq<char> {
    "  \u{2022} "@ + project.name@ + " ("@ + project.path@ + ")"@
}

/// One line for each project that a scan found, with a line break between
/// two lines.
pub open spec fn found_lines(found: Seq<ShownProject>) -> Seq<char>
    decreases found.len(),
{
    if found.len() == 0 {
        Seq::empty()
    } else if found.len() == 1 {
        found_line(found[0])
    } else {
        found_lines(found.drop_last()) + "\n"@ + found_line(found.last())
    }
}

/// What is reported of a scan that added `added_count` projects, `found`.
pub open spec fn scan_text(added_count: usize, found: Seq<ShownProject>) -> Seq<char> {
    if added_count == 0 {
        "No new projects found."@
    } else {
        "Found and added "@ + decimal(added_count as nat) + " new projects:\n"@ + found_lines(found)
    }
}

/// Reports what a scan found and added.
pub fn format_scan_result(added_count: usize, found: &Vec<ShownProject>) -> (s: String)
    ensures
        s@ == scan_text(added_count, found@),
{
    if added_count == 0 {
        return String::from_str("No new projects found.");
    }
    let mut lines: String = String::new();
    let mut i: usize = 0;
    assert(found@.take(0) =~= Seq::<ShownProject>::empty());
    while i < found.len()
        invariant
            i <= found.len(),
            lines@ == found_lines(found@.take(i as int)),
        decreases found.len() - i,
    {
        let ghost before = lines@;
        proof {
            assert(found@.take(i + 1).drop_last() =~= found@.take(i as int));
            assert(found@.take(i + 1).last() == found@[i as int]);
            if i == 0 {
                assert(found@.take(1)[0] == found@[0]);
            }
        }
        if i > 0 {
            lines.append("\n");
        }
        lines.append("  \u{2022} ");
        lines.append(found[i].name.as_str());
        lines.append(" (");
        lines.append(found[i].path.as_str());
        lines.append(")");
        proof {
            if i == 0 {
                assert(lines@ =~= found_line(found@[0]));
            } else {
                assert(lines@ =~= before + "\n"@ + found_line(found@[i as int]));
            }
        }
        i += 1;
    }
    assert(found@.take(found@.len() as int) =~= found@);
    let mut s: String = String::from_str("Found and added ");
    s.append(decimal_string(added_count as u64).as_str());
    s.append(" new projects:\n");
    s.append(lines.as_str());
    s
}

/// The line that shows a result: the content, and a line break.
pub fn result_line(content: &str) -> (s: String)
    ensures
        s@ == content@ + "\n"@,
{
    concat_str(content, "\n")
}

/// The line that shows an error: `Error: `, the message, and a line break.
pub fn error_line(message: &str) -> (s: String)
    ensures
        s@ == "Error: "@ + message@ + "\n"@,
{
    let mut s: String = concat_str("Error: ", message);
    s.append("\n");
    s
}

/// Reports that the project called `project_name` was cleaned.
pub fn format_clean_result(project_name: &str) -> (s: String)
    ensures
        s@ == "Cleaned project: "@ + project_name@,
{
    concat_str("Cleaned project: ", project_name)
}

/// Reports that all watchers were removed.
pub fn format_clean_watchers_result() -> (s: String)
    ensures
        s@ == "All watchers cleared"@,
{
    String::from_str("All watchers cleared")
}

/// Reports that the timing cache was cleared.
pub fn format_refresh_result() -> (s: String)
    ensures
        s@ == "Timing cache cleared. Run 'update' to refresh timing data."@,
{
    String::from_str("Timing cache cleared. Run 'update' to refresh timing data.")
}

} // verus!
