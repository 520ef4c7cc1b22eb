//! The command whose output is being read.

use vstd::prelude::*;

verus! {

/// The command that writes the lines.
#[derive(Debug, PartialEq)]
pub enum CallingProcess {
    /// `git grep`, with the long and the short options that it was given.
    GitGrep((Vec<String>, Vec<String>)),
    /// A grep tool other than `git grep`.
    OtherGrep,
    /// A command that is no grep tool.
    Other,
}

/// Whether the lines come from a grep tool.
pub open spec fn is_grep(calling_process: Option<&CallingProcess>) -> bool {
    match calling_process {
        Some(process) => process is GitGrep || process is OtherGrep,
        None => false,
    }
}

/// The command, where it is known.
pub open spec fn process_ref(calling_process: &Option<CallingProcess>) -> Option<&CallingProcess> {
    match calling_process {
        Some(process) => Some(process),
        None => None,
    }
}

/// Whether `option` is among `options`.
pub open spec fn has_option(options: Seq<String>, option: Seq<char>) -> bool {
    exists|i: int| 0 <= i < options.len() && (#[trigger] options[i])@ == option
}

/// `git grep`, whatever its options, and the other grep tools are grep tools; no
/// other command is one, and neither is one that is not known.
pub proof fn law_grep_tools(options: (Vec<String>, Vec<String>))
    ensures
        is_grep(Some(&CallingProcess::GitGrep(options))),
        is_grep(Some(&CallingProcess::OtherGrep)),
        !is_grep(Some(&CallingProcess::Other)),
        !is_grep(None),
{
}

/// A command that is known is that command.
pub proof fn law_known_command(process: CallingProcess)
    ensures
        process_ref(&Some(process)) == Some(&process),
        process_ref(&None) is None,
{
}

} // verus!
