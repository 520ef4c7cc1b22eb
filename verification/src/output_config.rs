//! How lines are displayed, by the options of the command that writes them.

use vstd::prelude::*;

use crate::process::{has_option, CallingProcess};

verus! {

/// How lines are displayed.
#[derive(Clone, Copy, Debug, PartialEq, Eq, Structural)]
pub struct GrepOutputConfig {
    /// Mark the matches, so that one can jump from one to the next.
    pub add_navigate_marker_to_matches: bool,
    /// Display a context header as the header of a hunk.
    pub render_context_header_as_hunk_header: bool,
    /// Pad line numbers, so that the code is aligned.
    pub pad_line_number: bool,
}

/// Whether `git grep` displays entire functions.
pub open spec fn shows_function_context(calling_process: Option<&CallingProcess>) -> bool {
    match calling_process {
        Some(CallingProcess::GitGrep((longs, shorts))) => has_option(shorts@, "-W"@) || has_option(
            longs@,
            "--function-context"@,
        ),
        _ => false,
    }
}

/// How lines of the output of `calling_process` are displayed.
pub open spec fn output_config(calling_process: Option<&CallingProcess>) -> GrepOutputConfig {
    let entire_functions = shows_function_context(calling_process);
    GrepOutputConfig {
        add_navigate_marker_to_matches: entire_functions,
        render_context_header_as_hunk_header: !entire_functions,
        pad_line_number: entire_functions,
    }
}

/// Whether `option` is among `options`.
fn contains_option(options: &Vec<String>, option: &str) -> (found: bool)
    ensures
        found == has_option(options@, option@),
{
    let wanted: String = option.to_owned();
    for i in 0..options.len()
        invariant
            wanted@ == option@,
            forall|k: int| 0 <= k < i ==> (#[trigger] options@[k])@ != option@,
    {
        if options[i] == wanted {
            return true;
        }
    }
    false
}

/// Decides how lines of the output of `calling_process` are displayed.
pub fn make_output_config(calling_process: Option<&CallingProcess>) -> (config: GrepOutputConfig)
    ensures
        config == output_config(calling_process),
{
    match calling_process {
        Some(CallingProcess::GitGrep((longs, shorts))) if contains_option(shorts, "-W")
            || contains_option(longs, "--function-context") => {
            // The entire function is displayed. Its first line is not rendered
            // as a header, since the second line is the true next line, and it
            // is more readable to have these displayed normally. Matches stand
            // among (many) lines that are none, so they are marked. And since
            // (many) successive lines of code are displayed, line numbers are
            // padded to keep the code aligned.
            GrepOutputConfig {
                render_context_header_as_hunk_header: false,
                add_navigate_marker_to_matches: true,
                pad_line_number: true,
            }
        },
        Some(CallingProcess::GitGrep((longs, shorts))) if contains_option(shorts, "-p")
            || contains_option(longs, "--show-function") => {
            // The function header is displayed along with matches within the
            // function. The header is rendered as one, and no match is marked,
            // since all lines other than headers are matches.
            GrepOutputConfig {
                render_context_header_as_hunk_header: true,
                add_navigate_marker_to_matches: false,
                pad_line_number: false,
            }
        },
        _ => GrepOutputConfig {
            render_context_header_as_hunk_header: true,
            add_navigate_marker_to_matches: false,
            pad_line_number: false,
        },
    }
}

/// Either context headers are rendered as hunk headers, or matches are marked and
/// line numbers padded; never both, and never neither.
pub proof fn law_headers_or_markers(calling_process: Option<&CallingProcess>)
    ensures
        ({
            let config = output_config(calling_process);
            &&& config.render_context_header_as_hunk_header
                != config.add_navigate_marker_to_matches
            &&& config.add_navigate_marker_to_matches == config.pad_line_number
        }),
{
}

/// What `-W` or `--function-context` asks for holds whatever other options there
/// are, and only `git grep` is asked.
pub proof fn law_function_context_decides(calling_process: Option<&CallingProcess>)
    ensures
        output_config(calling_process).add_navigate_marker_to_matches <==> (
        calling_process matches Some(CallingProcess::GitGrep((longs, shorts))) && (has_option(
            shorts@,
            "-W"@,
        ) || has_option(longs@, "--function-context"@))),
{
}

/// Where `-W` is among the short options of `git grep` or `--function-context`
/// among the long ones, at whatever place and beside whatever others, matches are
/// marked, line numbers padded, and no header rendered as that of a hunk.
pub proof fn law_function_context_at_any_place(
    longs: Vec<String>,
    shorts: Vec<String>,
    i: int,
)
    requires
        (0 <= i < shorts@.len() && shorts@[i]@ == "-W"@) || (0 <= i < longs@.len() && longs@[i]@
            == "--function-context"@),
    ensures
        output_config(Some(&CallingProcess::GitGrep((longs, shorts)))) == (GrepOutputConfig {
            add_navigate_marker_to_matches: true,
            render_context_header_as_hunk_header: false,
            pad_line_number: true,
        }),
{
}

/// Where neither `-W` nor `--function-context` is given, whatever else is, headers
/// are rendered as those of hunks, no match is marked and no line number padded.
pub proof fn law_no_function_context(longs: Vec<String>, shorts: Vec<String>)
    requires
        forall|i: int| 0 <= i < shorts@.len() ==> (#[trigger] shorts@[i])@ != "-W"@,
        forall|i: int| 0 <= i < longs@.len() ==> (#[trigger] longs@[i])@ != "--function-context"@,
    ensures
        output_config(Some(&CallingProcess::GitGrep((longs, shorts)))) == (GrepOutputConfig {
            add_navigate_marker_to_matches: false,
            render_context_header_as_hunk_header: true,
            pad_line_number: false,
        }),
{
}

/// Commands other than `git grep` are displayed like a `git grep` without options.
pub proof fn law_other_commands_have_no_options(calling_process: Option<&CallingProcess>)
    requires
        calling_process matches Some(process) ==> *process == CallingProcess::OtherGrep || *process
            == CallingProcess::Other,
    ensures
        output_config(calling_process) == (GrepOutputConfig {
            add_navigate_marker_to_matches: false,
            render_context_header_as_hunk_header: true,
            pad_line_number: false,
        }),
{
}

} // verus!
