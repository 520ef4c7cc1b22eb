//! The format of grep output as regular expressions.

use vstd::prelude::*;

use crate::format::{is_best_split, is_split, marker, written, GrepLineRegex, LineParts};

verus! {

/// The start of both patterns: comments and blanks in them mean nothing, and the
/// match starts where the line does.
pub const LINE_START: &'static str = "(?x)
^
";

/// The file name, where it ends in an extension.
pub const FILE_PATH_WITH_FILE_EXTENSION: &'static str = r"
        (                        # 1. file name (colons not allowed)
            [^:|\ ]                 # try to be strict about what a file path can start with
            [^:]*                   # anything
            \.[^.\ :=-]{1,6}        # extension
        )    
        ";

/// The file name, where it holds no separators.
pub const FILE_PATH_WITHOUT_SEPARATOR_CHARACTERS: &'static str = r"
        (                        # 1. file name (colons not allowed)
            [^:|\ =-]               # try to be strict about what a file path can start with
            [^:=-]*                 # anything except separators
            [^:\ ]                  # a file name cannot end with whitespace
        )    
        ";

/// What follows the file name.
pub const LINE_REST: &'static str = "
(?:
    (                    
        :                # 2. match marker
        (?:([0-9]+):)?   # 3. optional: line number followed by second match marker
    )
    |
    (
        -                # 4. nomatch marker
        (?:([0-9]+)-)?   # 5. optional: line number followed by second nomatch marker
    )
    |
    (
        =                # 6. match marker
        (?:([0-9]+)=)?   # 7. optional: line number followed by second header marker
    )
)
(.*)                     # 8. code (i.e. line contents)
$
";

/// The pattern of a file name.
pub open spec fn file_path_pattern(assumed: GrepLineRegex) -> Seq<char> {
    match assumed {
        GrepLineRegex::FilePathWithFileExtension => FILE_PATH_WITH_FILE_EXTENSION@,
        GrepLineRegex::FilePathWithoutSeparatorCharacters =>
            FILE_PATH_WITHOUT_SEPARATOR_CHARACTERS@,
    }
}

/// The pattern of a line.
pub open spec fn line_pattern(assumed: GrepLineRegex) -> Seq<char> {
    LINE_START@ + file_path_pattern(assumed) + LINE_REST@
}

/// The pattern of a line of grep output under an assumption on its file name.
pub fn make_grep_line_regex(regex_variant: GrepLineRegex) -> (pattern: String)
    ensures
        pattern@ == line_pattern(regex_variant),
{
    let file_path = match regex_variant {
        GrepLineRegex::FilePathWithFileExtension => FILE_PATH_WITH_FILE_EXTENSION,
        GrepLineRegex::FilePathWithoutSeparatorCharacters =>
            FILE_PATH_WITHOUT_SEPARATOR_CHARACTERS,
    };
    let mut pattern = LINE_START.to_owned();
    pattern.append(file_path);
    pattern.append(LINE_REST);
    pattern
}

/// What the eight groups of the patterns capture in a line with these parts,
/// after the whole line. The groups of the two other separators capture nothing.
pub open spec fn captured(parts: LineParts) -> Seq<Option<Seq<char>>> {
    let marker = Some(marker(parts.separator, parts.number));
    let is = |separator: char, group: Option<Seq<char>>|
        if parts.separator == separator {
            group
        } else {
            None
        };
    seq![
        Some(written(parts)),
        Some(parts.path),
        is(':', marker),
        is(':', parts.number),
        is('-', marker),
        is('-', parts.number),
        is('=', marker),
        is('=', parts.number),
        Some(parts.code),
    ]
}

/// The texts of groups.
pub open spec fn group_texts(groups: Seq<Option<&str>>) -> Seq<Option<Seq<char>>> {
    groups.map_values(
        |group: Option<&str>|
            match group {
                Some(text) => Some(text@),
                None => None::<Seq<char>>,
            },
    )
}

/// `regex::Regex::captures`, for a regex that `regex::Regex::new` makes of one of
/// the two patterns, anew for each line. The texts of all groups are handed out,
/// the whole match first; a group that takes no part in the match has none.
///
/// The contract claims of the outside crate what its syntax says of these
/// patterns. They compile. `^` and `$` hold at the two ends of the line alone, so
/// a match is the whole line, taken apart into a file name, one of the three
/// separators, possibly digits and the same separator again, and characters that
/// are no line break. Where the line cannot be taken apart so, there is no match.
/// Where it can in several ways, the greedy repetition in the file name prefers
/// the longest one, and then the greedy option prefers a line number.
#[verifier::external_body]
pub(crate) fn captures<'h>(pattern: &str, line: &'h str) -> (groups: Option<Vec<Option<&'h str>>>)
    requires
        exists|assumed: GrepLineRegex| pattern@ == #[trigger] line_pattern(assumed),
    ensures
        forall|assumed: GrepLineRegex| pattern@ == #[trigger] line_pattern(assumed) ==> {
            match groups {
                Some(groups) => exists|parts: LineParts| #[trigger]
                    is_best_split(assumed, line@, parts) && group_texts(groups@) == captured(parts),
                None => forall|parts: LineParts| !#[trigger] is_split(assumed, line@, parts),
            }
        },
{
    let regex = regex::Regex::new(pattern).unwrap();
    let captures = regex.captures(line)?;
    Some(captures.iter().map(|group| group.map(|found| found.as_str())).collect())
}

/// The patterns, as the regex syntax takes them: from the start of the line on a
/// file name without colons, which ends in an extension of up to six characters or
/// holds no separators; then one of three separators, and possibly a number and
/// that separator again; then all the rest of the line.
pub proof fn law_pattern_text()
    ensures
        line_pattern(GrepLineRegex::FilePathWithFileExtension) == LINE_START@
            + FILE_PATH_WITH_FILE_EXTENSION@ + LINE_REST@,
        line_pattern(GrepLineRegex::FilePathWithoutSeparatorCharacters) == LINE_START@
            + FILE_PATH_WITHOUT_SEPARATOR_CHARACTERS@ + LINE_REST@,
        LINE_START@ == "(?x)
^
"@,
        FILE_PATH_WITH_FILE_EXTENSION@ == r"
        (                        # 1. file name (colons not allowed)
            [^:|\ ]                 # try to be strict about what a file path can start with
            [^:]*                   # anything
            \.[^.\ :=-]{1,6}        # extension
        )    
        "@,
        FILE_PATH_WITHOUT_SEPARATOR_CHARACTERS@ == r"
        (                        # 1. file name (colons not allowed)
            [^:|\ =-]               # try to be strict about what a file path can start with
            [^:=-]*                 # anything except separators
            [^:\ ]                  # a file name cannot end with whitespace
        )    
        "@,
        LINE_REST@ == "
(?:
    (                    
        :                # 2. match marker
        (?:([0-9]+):)?   # 3. optional: line number followed by second match marker
    )
    |
    (
        -                # 4. nomatch marker
        (?:([0-9]+)-)?   # 5. optional: line number followed by second nomatch marker
    )
    |
    (
        =                # 6. match marker
        (?:([0-9]+)=)?   # 7. optional: line number followed by second header marker
    )
)
(.*)                     # 8. code (i.e. line contents)
$
"@,
{
}

/// What the groups capture is what the parts are: the whole line, the file name and
/// the code, and for the separator that stands in the line, and no other, the
/// digits of the line number, if it has one.
pub proof fn law_groups_hold_the_parts(parts: LineParts)
    requires
        parts.separator == ':' || parts.separator == '-' || parts.separator == '=',
    ensures
        ({
            let groups = captured(parts);
            &&& groups.len() == 9
            &&& groups[0] == Some(written(parts))
            &&& groups[1] == Some(parts.path)
            &&& groups[8] == Some(parts.code)
            &&& groups[2] is Some <==> parts.separator == ':'
            &&& groups[4] is Some <==> parts.separator == '-'
            &&& groups[6] is Some <==> parts.separator == '='
            &&& groups[3] == (if parts.separator == ':' {
                parts.number
            } else {
                None
            })
            &&& groups[5] == (if parts.separator == '-' {
                parts.number
            } else {
                None
            })
            &&& groups[7] == (if parts.separator == '=' {
                parts.number
            } else {
                None
            })
        }),
{
}

/// The texts of groups are theirs, one by one.
pub proof fn law_group_texts(groups: Seq<Option<&str>>)
    ensures
        group_texts(groups).len() == groups.len(),
        forall|i: int|
            0 <= i < groups.len() ==> match groups[i] {
                Some(text) => #[trigger] group_texts(groups)[i] == Some(text@),
                None => group_texts(groups)[i] is None,
            },
{
}

} // verus!
