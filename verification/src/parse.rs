//! Reading a line of grep output.

use std::borrow::Cow;

use vstd::prelude::*;

use crate::decimal::{decimal, number_of, parse_number};
use crate::format::{
    extension_before, is_best_split, law_numbered_line_reads_back, lemma_best_split,
    lemma_no_split, line_number_of, read_assuming, read_line, GrepLineRegex, LineParts,
};
use crate::line::{grep_line_view, GrepLine, GrepLineView, LineType};
use crate::pattern::{captured, captures, group_texts, make_grep_line_regex};
use crate::process::{is_grep, CallingProcess};

verus! {

/// Whether `line` is a JSON object, as `rg --json` writes them.
pub open spec fn is_json(line: Seq<char>) -> bool {
    line.len() > 0 && line[0] == '{'
}

/// What `line` says, given whether it comes from a grep tool, and what it says
/// if it is read as `rg --json` output.
pub open spec fn parsed_line(
    line: Seq<char>,
    from_grep: bool,
    ripgrep_json: Option<GrepLineView>,
) -> Option<GrepLineView> {
    if is_json(line) {
        ripgrep_json
    } else if from_grep {
        read_line(line)
    } else {
        None
    }
}

/// Whether the groups of a match name a file and its code, and hold the marker of
/// one kind of line at least.
pub open spec fn has_line_groups(groups: Seq<Option<Seq<char>>>) -> bool {
    &&& groups.len() == 9
    &&& groups[1] is Some
    &&& groups[2] is Some || groups[4] is Some || groups[6] is Some
    &&& groups[8] is Some
}

/// What the groups of a match say of the line. Of the markers the first one
/// captured counts; the group after it holds the line number.
pub open spec fn line_of_groups(groups: Seq<Option<Seq<char>>>) -> GrepLineView {
    GrepLineView {
        path: groups[1]->Some_0,
        line_number: line_number_of(
            if groups[2] is Some {
                groups[3]
            } else if groups[4] is Some {
                groups[5]
            } else {
                groups[7]
            },
        ),
        line_type: if groups[2] is Some {
            LineType::Match
        } else if groups[4] is Some {
            LineType::Context
        } else {
            LineType::ContextHeader
        },
        code: groups[8]->Some_0,
        submatches: None,
    }
}

/// Whether `line` is to be read as `rg --json` output.
pub fn is_ripgrep_json(line: &str) -> (json: bool)
    ensures
        json == is_json(line@),
{
    match line.chars().next() {
        Some(c) => c == '{',
        None => false,
    }
}

/// What the groups of a match say of the line.
pub fn grep_line_from_captures<'b>(groups: &Vec<Option<&'b str>>) -> (grep_line: GrepLine<'b>)
    requires
        has_line_groups(group_texts(groups@)),
    ensures
        grep_line@ == line_of_groups(group_texts(groups@)),
{
    let ghost texts = group_texts(groups@);
    assert(forall|i: int|
        0 <= i < 9 ==> ((#[trigger] texts[i]) is Some <==> groups@[i] is Some)
            && (texts[i] is Some ==> texts[i]->Some_0 == groups@[i]->Some_0@));
    let file = groups[1].unwrap();
    let (line_type, number) = if groups[2].is_some() {
        (LineType::Match, groups[3])
    } else if groups[4].is_some() {
        (LineType::Context, groups[5])
    } else {
        (LineType::ContextHeader, groups[7])
    };
    let line_number: Option<usize> = match number {
        Some(digits) => parse_number(digits),
        None => None,
    };
    let code = groups[8].unwrap();
    GrepLine {
        path: Cow::Borrowed(file),
        line_number,
        line_type,
        code: Cow::Borrowed(code),
        submatches: None,
    }
}

/// What the groups of a match say is what the line says.
proof fn lemma_captured_line(
    assumed: GrepLineRegex,
    line: Seq<char>,
    groups: Seq<Option<Seq<char>>>,
)
    requires
        exists|parts: LineParts| #[trigger]
            is_best_split(assumed, line, parts) && groups == captured(parts),
    ensures
        has_line_groups(groups),
        read_assuming(assumed, line) == Some(line_of_groups(groups)),
{
    let found = choose|parts: LineParts| #[trigger]
        is_best_split(assumed, line, parts) && groups == captured(parts);
    lemma_best_split(assumed, line, found);
}

/// Reads a line under an assumption on its file name.
pub fn _parse_grep_line<'b>(regex: GrepLineRegex, line: &'b str) -> (grep_line: Option<
    GrepLine<'b>,
>)
    ensures
        grep_line_view(grep_line) == read_assuming(regex, line@),
{
    let pattern = make_grep_line_regex(regex);
    match captures(pattern.as_str(), line) {
        Some(groups) => {
            proof {
                lemma_captured_line(regex, line@, group_texts(groups@));
            }
            Some(grep_line_from_captures(&groups))
        },
        None => {
            proof {
                lemma_no_split(regex, line@);
            }
            None
        },
    }
}

/// Reads a line of the output of `calling_process`. For a line that
/// [`is_ripgrep_json`], `ripgrep_json` is what that output says; for others it is
/// not looked at.
pub fn parse_grep_line<'b>(
    line: &'b str,
    calling_process: Option<&CallingProcess>,
    ripgrep_json: Option<GrepLine<'b>>,
) -> (grep_line: Option<GrepLine<'b>>)
    ensures
        grep_line_view(grep_line) == parsed_line(
            line@,
            is_grep(calling_process),
            grep_line_view(ripgrep_json),
        ),
{
    if is_ripgrep_json(line) {
        return ripgrep_json;
    }
    match calling_process {
        Some(CallingProcess::GitGrep(_)) | Some(CallingProcess::OtherGrep) => {
            match _parse_grep_line(GrepLineRegex::FilePathWithFileExtension, line) {
                Some(grep_line) => Some(grep_line),
                None => _parse_grep_line(
                    GrepLineRegex::FilePathWithoutSeparatorCharacters,
                    line,
                ),
            }
        },
        _ => None,
    }
}

/// A JSON line says what it says as JSON, whichever command writes it.
pub proof fn law_json_is_read_as_json(
    line: Seq<char>,
    from_grep: bool,
    ripgrep_json: Option<GrepLineView>,
)
    requires
        is_json(line),
    ensures
        parsed_line(line, from_grep, ripgrep_json) == ripgrep_json,
{
}

/// A line that is no JSON says nothing unless a grep tool writes it, and does not
/// depend on how it would be read as JSON.
pub proof fn law_plain_lines_need_a_grep_tool(
    line: Seq<char>,
    from_grep: bool,
    ripgrep_json: Option<GrepLineView>,
)
    requires
        !is_json(line),
    ensures
        parsed_line(line, from_grep, ripgrep_json) == (if from_grep {
            read_line(line)
        } else {
            None
        }),
{
}

/// A line that starts with a brace says what it says as JSON. Any other line is
/// read by the format of grep output, if `git grep`, with whatever options, or
/// another grep tool writes it, and otherwise says nothing.
pub proof fn law_how_a_line_is_read(
    line: Seq<char>,
    calling_process: Option<&CallingProcess>,
    ripgrep_json: Option<GrepLineView>,
)
    ensures
        parsed_line(line, is_grep(calling_process), ripgrep_json) == (if line.len() > 0 && line[0]
            == '{' {
            ripgrep_json
        } else {
            match calling_process {
                Some(CallingProcess::GitGrep(_)) => read_line(line),
                Some(CallingProcess::OtherGrep) => read_line(line),
                Some(CallingProcess::Other) => None,
                None => None,
            }
        }),
        is_json(line) <==> line.len() > 0 && line[0] == '{',
{
}

/// What groups say: the file name, the code, and by the first marker that is there
/// the kind of line and the group of the line number.
pub proof fn law_groups_tell_the_line(groups: Seq<Option<Seq<char>>>, path: Seq<char>, code: Seq<
    char,
>)
    requires
        groups.len() == 9,
        groups[1] == Some(path),
        groups[8] == Some(code),
        groups[2] is Some || groups[4] is Some || groups[6] is Some,
    ensures
        has_line_groups(groups),
        line_of_groups(groups).path == path,
        line_of_groups(groups).code == code,
        line_of_groups(groups).submatches is None,
        groups[2] is Some ==> line_of_groups(groups).line_type == LineType::Match && (
        match groups[3] {
            Some(digits) => line_of_groups(groups).line_number == number_of(digits),
            None => line_of_groups(groups).line_number is None,
        }),
        groups[2] is None && groups[4] is Some ==> line_of_groups(groups).line_type
            == LineType::Context && (match groups[5] {
            Some(digits) => line_of_groups(groups).line_number == number_of(digits),
            None => line_of_groups(groups).line_number is None,
        }),
        groups[2] is None && groups[4] is None ==> line_of_groups(groups).line_type
            == LineType::ContextHeader && (match groups[7] {
            Some(digits) => line_of_groups(groups).line_number == number_of(digits),
            None => line_of_groups(groups).line_number is None,
        }),
{
}

/// From a grep tool, a line with a line number and a file name that ends in an
/// extension is read part by part: the file name, the kind that its separator
/// tells, the line number, and the code. No longer file name with an extension may
/// stand in it, and it is no JSON.
pub proof fn law_numbered_line_is_parsed(
    calling_process: Option<&CallingProcess>,
    ripgrep_json: Option<GrepLineView>,
    stem: Seq<char>,
    extension: Seq<char>,
    separator: char,
    line_number: usize,
    code: Seq<char>,
)
    requires
        calling_process matches Some(process) && (process is GitGrep || process is OtherGrep),
        stem.len() > 0,
        stem[0] != '|' && stem[0] != ' ' && stem[0] != '{',
        forall|i: int| 0 <= i < stem.len() ==> #[trigger] stem[i] != ':',
        1 <= extension.len() <= 6,
        forall|i: int|
            0 <= i < extension.len() ==> #[trigger] extension[i] != '.' && extension[i] != ' '
                && extension[i] != ':' && extension[i] != '-' && extension[i] != '=',
        separator == ':' || separator == '-' || separator == '=',
        forall|i: int| 0 <= i < code.len() ==> #[trigger] code[i] != '\n',
        separator != ':' ==> forall|dot: int, end: int| #[trigger]
            extension_before(
                stem + seq!['.'] + extension + seq![separator] + decimal(line_number as nat)
                    + seq![separator] + code,
                dot,
                end,
            ) ==> end <= stem.len() + 1 + extension.len(),
    ensures
        parsed_line(
            stem + seq!['.'] + extension + seq![separator] + decimal(line_number as nat)
                + seq![separator] + code,
            is_grep(calling_process),
            ripgrep_json,
        ) == Some(
            GrepLineView {
                path: stem + seq!['.'] + extension,
                line_number: Some(line_number),
                line_type: if separator == ':' {
                    LineType::Match
                } else if separator == '-' {
                    LineType::Context
                } else {
                    LineType::ContextHeader
                },
                code,
                submatches: None,
            },
        ),
{
    let line = stem + seq!['.'] + extension + seq![separator] + decimal(line_number as nat)
        + seq![separator] + code;
    assert(line[0] == stem[0]);
    law_numbered_line_reads_back(stem, extension, separator, line_number, code);
}

} // verus!
