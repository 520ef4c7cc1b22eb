//! The format of the lines that grep tools write.
//!
//! A line names a file, then a separator character that also tells what the
//! line is, then possibly a line number and the separator again, then the
//! contents of the line:
//!
//! ```text
//! src/config.rs:xxx       src/config.rs:7:xxx     a match
//! src/config.rs-xxx       src/config.rs-7-xxx     a line near a match
//! src/config.rs=xxx       src/config.rs=7=xxx     a header
//! ```
//!
//! File names may hold separator characters too, so the format is ambiguous. It
//! is read under one of two assumptions on the file name, and under either of
//! them the file name is the longest prefix that can be one.

use vstd::prelude::*;

use crate::decimal::{
    all_digits, decimal, is_digit, law_number_reads_back, lemma_decimal, number_of,
};
use crate::line::{GrepLineView, LineType};

verus! {

/// What is assumed of the file name in a line.
#[derive(Clone, Copy, Debug, PartialEq, Eq, Structural)]
pub enum GrepLineRegex {
    /// It ends in a file extension.
    FilePathWithFileExtension,
    /// It holds no separator character, except that it may end in `-` or `=`.
    FilePathWithoutSeparatorCharacters,
}

/// The characters that stand between the parts of a line.
pub open spec fn is_separator(c: char) -> bool {
    c == ':' || c == '-' || c == '='
}

/// The characters of a file extension.
pub open spec fn is_extension_char(c: char) -> bool {
    c != '.' && c != ' ' && !is_separator(c)
}

/// Whether `path` ends, from `dot` on, in a dot and an extension of one to six
/// characters.
pub open spec fn has_extension_at(path: Seq<char>, dot: int) -> bool {
    &&& 1 <= dot < path.len()
    &&& path[dot] == '.'
    &&& 1 <= path.len() - (dot + 1) <= 6
    &&& forall|i: int| dot < i < path.len() ==> is_extension_char(#[trigger] path[i])
}

/// A file name that starts with neither a bar nor a space, holds no colon and
/// ends in an extension.
pub open spec fn is_path_with_extension(path: Seq<char>) -> bool {
    &&& path.len() > 0
    &&& path[0] != '|' && path[0] != ' '
    &&& exists|dot: int| #[trigger]
        has_extension_at(path, dot) && (forall|i: int|
            0 <= i < dot ==> #[trigger] path[i] != ':')
}

/// A file name of two characters or more that starts with neither a bar nor a
/// space, does not end in a space or a colon, and before its last character
/// holds no separator.
pub open spec fn is_path_without_separators(path: Seq<char>) -> bool {
    &&& path.len() >= 2
    &&& path[0] != '|' && path[0] != ' '
    &&& forall|i: int| 0 <= i < path.len() - 1 ==> !is_separator(#[trigger] path[i])
    &&& path.last() != ':' && path.last() != ' '
}

/// Whether `path` is a file name of the assumed kind.
pub open spec fn is_path(assumed: GrepLineRegex, path: Seq<char>) -> bool {
    match assumed {
        GrepLineRegex::FilePathWithFileExtension => is_path_with_extension(path),
        GrepLineRegex::FilePathWithoutSeparatorCharacters => is_path_without_separators(path),
    }
}

/// Whether `text` is free of line breaks.
pub open spec fn is_single_line(text: Seq<char>) -> bool {
    forall|i: int| 0 <= i < text.len() ==> #[trigger] text[i] != '\n'
}

/// Whether the file name may end before `end`: what stands before is one, a
/// separator follows, and then there is no line break.
pub open spec fn splits_at(assumed: GrepLineRegex, line: Seq<char>, end: int) -> bool {
    &&& 0 <= end < line.len()
    &&& is_path(assumed, line.take(end))
    &&& is_separator(line[end])
    &&& is_single_line(line.skip(end + 1))
}

/// Whether the file name does end before `end`: it may end there and nowhere
/// later.
pub open spec fn is_path_end(assumed: GrepLineRegex, line: Seq<char>, end: int) -> bool {
    &&& splits_at(assumed, line, end)
    &&& forall|later: int| end < later ==> !#[trigger] splits_at(assumed, line, later)
}

/// The parts of a line.
#[verifier::ext_equal]
pub struct LineParts {
    pub path: Seq<char>,
    pub separator: char,
    /// The digits of the line number, where the line gives one.
    pub number: Option<Seq<char>>,
    pub code: Seq<char>,
}

/// The separator or, where there is a line number, that number between two of them.
pub open spec fn marker(separator: char, number: Option<Seq<char>>) -> Seq<char> {
    match number {
        Some(digits) => seq![separator] + digits + seq![separator],
        None => seq![separator],
    }
}

/// The line that is made of `parts`.
pub open spec fn written(parts: LineParts) -> Seq<char> {
    parts.path + marker(parts.separator, parts.number) + parts.code
}

/// Whether each of `parts` has the form of such a part: a file name of the assumed
/// kind, a separator, digits if there is a line number, and code on one line.
pub open spec fn can_be_parts(assumed: GrepLineRegex, parts: LineParts) -> bool {
    &&& is_path(assumed, parts.path)
    &&& is_separator(parts.separator)
    &&& parts.number matches Some(digits) ==> digits.len() > 0 && all_digits(digits)
    &&& is_single_line(parts.code)
}

/// Whether `line` can be taken apart into `parts`.
pub open spec fn is_split(assumed: GrepLineRegex, line: Seq<char>, parts: LineParts) -> bool {
    can_be_parts(assumed, parts) && written(parts) == line
}

/// Of two ways to take a line apart, the one with the longer file name is
/// preferred, and of two with the same file name the one with a line number.
pub open spec fn is_preferred(parts: LineParts, other: LineParts) -> bool {
    ||| parts.path.len() > other.path.len()
    ||| parts.path.len() == other.path.len() && (other.number is Some ==> parts.number is Some)
}

/// Whether `parts` is what `line` is taken apart into, of all the ways to do so.
pub open spec fn is_best_split(assumed: GrepLineRegex, line: Seq<char>, parts: LineParts) -> bool {
    &&& is_split(assumed, line, parts)
    &&& forall|other: LineParts| #[trigger]
        is_split(assumed, line, other) ==> is_preferred(parts, other)
}

/// How many digits `text` starts with.
pub open spec fn digit_run(text: Seq<char>) -> nat
    decreases text.len(),
{
    if text.len() > 0 && is_digit(text[0]) {
        1 + digit_run(text.skip(1))
    } else {
        0
    }
}

/// Whether `text` starts with a number that `separator` follows.
pub open spec fn starts_with_number(text: Seq<char>, separator: char) -> bool {
    &&& 0 < digit_run(text) < text.len()
    &&& text[digit_run(text) as int] == separator
}

/// The parts of `line` when its file name ends before `end`.
pub open spec fn parts_at(line: Seq<char>, end: int) -> LineParts {
    let rest = line.skip(end + 1);
    let digits = digit_run(rest) as int;
    if starts_with_number(rest, line[end]) {
        LineParts {
            path: line.take(end),
            separator: line[end],
            number: Some(rest.take(digits)),
            code: rest.skip(digits + 1),
        }
    } else {
        LineParts { path: line.take(end), separator: line[end], number: None, code: rest }
    }
}

/// The parts of `line`, if it is a line of grep output under the assumption.
pub open spec fn parts(assumed: GrepLineRegex, line: Seq<char>) -> Option<LineParts> {
    if exists|end: int| is_path_end(assumed, line, end) {
        Some(parts_at(line, choose|end: int| is_path_end(assumed, line, end)))
    } else {
        None
    }
}

/// What a separator tells of the line.
pub open spec fn line_type_of(separator: char) -> LineType {
    if separator == ':' {
        LineType::Match
    } else if separator == '-' {
        LineType::Context
    } else {
        LineType::ContextHeader
    }
}

/// The line number that the digits denote, unless it is too large.
pub open spec fn line_number_of(number: Option<Seq<char>>) -> Option<usize> {
    match number {
        Some(digits) => number_of(digits),
        None => None,
    }
}

/// What the parts of a line say.
pub open spec fn grep_line_of(parts: LineParts) -> GrepLineView {
    GrepLineView {
        path: parts.path,
        line_number: line_number_of(parts.number),
        line_type: line_type_of(parts.separator),
        code: parts.code,
        submatches: None,
    }
}

/// What `line` says under one assumption on its file name.
pub open spec fn read_assuming(assumed: GrepLineRegex, line: Seq<char>) -> Option<GrepLineView> {
    match parts(assumed, line) {
        Some(parts) => Some(grep_line_of(parts)),
        None => None,
    }
}

/// What `line` says: under the assumption of a file extension if it can be read
/// so, otherwise under that of a file name without separators.
pub open spec fn read_line(line: Seq<char>) -> Option<GrepLineView> {
    match read_assuming(GrepLineRegex::FilePathWithFileExtension, line) {
        Some(grep_line) => Some(grep_line),
        None => read_assuming(GrepLineRegex::FilePathWithoutSeparatorCharacters, line),
    }
}

/// The digits that a text starts with are counted to the last.
proof fn lemma_digit_run(text: Seq<char>)
    ensures
        digit_run(text) <= text.len(),
        all_digits(text.take(digit_run(text) as int)),
    decreases text.len(),
{
    if text.len() > 0 && is_digit(text[0]) {
        let run = digit_run(text);
        lemma_digit_run(text.skip(1));
        assert forall|i: int| 0 <= i < run implies is_digit(#[trigger] text.take(run as int)[i]) by {
            if i > 0 {
                assert(text.skip(1).take(run - 1)[i - 1] == text[i]);
            }
        }
    }
}

/// A run of digits ends where something else follows.
proof fn lemma_digit_run_ends(digits: Seq<char>, rest: Seq<char>)
    requires
        all_digits(digits),
        rest.len() > 0,
        !is_digit(rest[0]),
    ensures
        digit_run(digits + rest) == digits.len(),
    decreases digits.len(),
{
    let text = digits + rest;
    if digits.len() == 0 {
        assert(text =~= rest);
    } else {
        assert(text[0] == digits[0]);
        assert(text.skip(1) =~= digits.skip(1) + rest);
        lemma_digit_run_ends(digits.skip(1), rest);
    }
}

/// A line in which the file name may end somewhere has a last place where it may.
proof fn lemma_last_split(assumed: GrepLineRegex, line: Seq<char>, end: int)
    requires
        splits_at(assumed, line, end),
    ensures
        exists|last: int| is_path_end(assumed, line, last),
    decreases line.len() - end,
{
    if exists|later: int| end < later && #[trigger] splits_at(assumed, line, later) {
        let later = choose|later: int| end < later && #[trigger] splits_at(assumed, line, later);
        lemma_last_split(assumed, line, later);
    } else {
        assert(is_path_end(assumed, line, end));
    }
}

/// The file name ends in one place only.
proof fn lemma_parts(assumed: GrepLineRegex, line: Seq<char>, end: int)
    requires
        is_path_end(assumed, line, end),
    ensures
        parts(assumed, line) == Some(parts_at(line, end)),
{
    let chosen = choose|end: int| is_path_end(assumed, line, end);
    assert(is_path_end(assumed, line, chosen));
    if chosen < end {
        assert(!splits_at(assumed, line, end));
    } else if end < chosen {
        assert(!splits_at(assumed, line, chosen));
    }
}

/// No file name holds a colon.
proof fn lemma_no_colon(assumed: GrepLineRegex, path: Seq<char>, i: int)
    requires
        is_path(assumed, path),
        0 <= i < path.len(),
    ensures
        path[i] != ':',
{
    match assumed {
        GrepLineRegex::FilePathWithFileExtension => {
            let dot = choose|dot: int| #[trigger]
                has_extension_at(path, dot) && (forall|i: int|
                    0 <= i < dot ==> #[trigger] path[i] != ':');
            if dot < i {
                assert(is_extension_char(path[i]));
            }
        },
        GrepLineRegex::FilePathWithoutSeparatorCharacters => {
            if i < path.len() - 1 {
                assert(!is_separator(path[i]));
            }
        },
    }
}

/// Whether `parts` can be the parts of a line under the assumption, as far as
/// each of them goes: a file name; a separator; digits, if there is a line
/// number, and otherwise no code that would be taken for one; and code on one
/// line.
pub open spec fn are_parts(assumed: GrepLineRegex, parts: LineParts) -> bool {
    &&& can_be_parts(assumed, parts)
    &&& parts.number is None ==> !starts_with_number(parts.code, parts.separator)
}

/// A line can be read under an assumption if and only if its file name may end
/// somewhere.
pub proof fn law_read_if_it_splits(assumed: GrepLineRegex, line: Seq<char>)
    ensures
        read_assuming(assumed, line) is Some <==> exists|end: int| splits_at(assumed, line, end),
{
    if exists|end: int| splits_at(assumed, line, end) {
        let end = choose|end: int| splits_at(assumed, line, end);
        lemma_last_split(assumed, line, end);
    }
    if parts(assumed, line) is Some {
        let end = choose|end: int| is_path_end(assumed, line, end);
        assert(splits_at(assumed, line, end));
    }
}

/// Nothing of a line is lost, nor is anything added: written one after the
/// other its parts are the line. Each of them is what it should be, and no
/// longer file name was possible.
pub proof fn law_parts_make_up_the_line(assumed: GrepLineRegex, line: Seq<char>)
    ensures
        parts(assumed, line) matches Some(parts) ==> {
            &&& written(parts) == line
            &&& are_parts(assumed, parts)
            &&& forall|end: int| #[trigger]
                splits_at(assumed, line, end) ==> end <= parts.path.len()
        },
{
    if parts(assumed, line) is Some {
        let end = choose|end: int| is_path_end(assumed, line, end);
        lemma_parts(assumed, line, end);
        let found = parts_at(line, end);
        let rest = line.skip(end + 1);
        let run = digit_run(rest) as int;
        lemma_digit_run(rest);
        assert(line =~= line.take(end) + seq![line[end]] + rest);
        if starts_with_number(rest, line[end]) {
            assert(rest =~= rest.take(run) + seq![line[end]] + rest.skip(run + 1));
            assert forall|i: int| 0 <= i < found.code.len() implies #[trigger] found.code[i]
                != '\n' by {
                assert(found.code[i] == rest[run + 1 + i]);
            }
        }
        assert(written(found) =~= line);
    }
}

/// A line that is written from its parts is read back as these parts, unless a
/// longer file name is possible in it.
pub proof fn law_written_parts_read_back(assumed: GrepLineRegex, original: LineParts)
    requires
        are_parts(assumed, original),
        forall|end: int|
            original.path.len() < end ==> !#[trigger] splits_at(assumed, written(original), end),
    ensures
        parts(assumed, written(original)) == Some(original),
{
    let line = written(original);
    let end = original.path.len() as int;
    let rest = line.skip(end + 1);
    let separator = seq![original.separator];
    assert(line[end] == original.separator);
    assert(line.take(end) =~= original.path);
    match original.number {
        Some(digits) => {
            assert(rest =~= digits + (separator + original.code));
            assert forall|i: int| 0 <= i < rest.len() implies #[trigger] rest[i] != '\n' by {
                if i < digits.len() {
                    assert(rest[i] == digits[i]);
                    assert(is_digit(digits[i]));
                } else if i > digits.len() {
                    assert(rest[i] == original.code[i - digits.len() - 1]);
                }
            }
            lemma_digit_run_ends(digits, separator + original.code);
            assert(rest.take(digits.len() as int) =~= digits);
            assert(rest.skip(digits.len() as int + 1) =~= original.code);
        },
        None => {
            assert(rest =~= original.code);
        },
    }
    assert(splits_at(assumed, line, end));
    assert(is_path_end(assumed, line, end));
    lemma_parts(assumed, line, end);
    assert(parts_at(line, end) =~= original);
}

/// The parts of a line that has been taken apart in the preferred way.
pub(crate) proof fn lemma_best_split(
    assumed: GrepLineRegex,
    line: Seq<char>,
    found: LineParts,
)
    requires
        is_best_split(assumed, line, found),
    ensures
        parts(assumed, line) == Some(found),
{
    let end = found.path.len() as int;
    assert forall|later: int| end < later implies !#[trigger] splits_at(assumed, line, later) by {
        if splits_at(assumed, line, later) {
            let other = LineParts {
                path: line.take(later),
                separator: line[later],
                number: None,
                code: line.skip(later + 1),
            };
            assert(written(other) =~= line);
            assert(is_split(assumed, line, other));
        }
    }
    if found.number is None && starts_with_number(found.code, found.separator) {
        let run = digit_run(found.code) as int;
        let other = LineParts {
            path: found.path,
            separator: found.separator,
            number: Some(found.code.take(run)),
            code: found.code.skip(run + 1),
        };
        lemma_digit_run(found.code);
        assert(written(other) =~= line);
        assert(is_split(assumed, line, other));
    }
    law_written_parts_read_back(assumed, found);
}

/// A line that cannot be taken apart has no parts.
pub(crate) proof fn lemma_no_split(assumed: GrepLineRegex, line: Seq<char>)
    requires
        forall|other: LineParts| !#[trigger] is_split(assumed, line, other),
    ensures
        parts(assumed, line) is None,
{
    law_parts_make_up_the_line(assumed, line);
    if let Some(found) = parts(assumed, line) {
        assert(is_split(assumed, line, found));
    }
}

/// In a match line no file name longer than the one written is possible.
proof fn lemma_match_is_unambiguous(assumed: GrepLineRegex, line: Seq<char>, end: int, later: int)
    requires
        0 <= end < later,
        splits_at(assumed, line, later),
    ensures
        line[end] != ':',
{
    lemma_no_colon(assumed, line.take(later), end);
}

/// Whether `path` is a file name with an extension and a separator after it.
pub open spec fn ends_after_extension(path: Seq<char>) -> bool {
    path.len() > 0 && is_separator(path.last()) && is_path_with_extension(path.drop_last())
}

/// A match is read back as it was written, whatever its code: the colon after
/// the file name leaves no doubt. The file name either ends in an extension or
/// holds no separators; if it holds one at its end, no extension stands before it.
pub proof fn law_match_reads_back(original: LineParts)
    requires
        original.separator == ':',
        are_parts(GrepLineRegex::FilePathWithFileExtension, original) || (are_parts(
            GrepLineRegex::FilePathWithoutSeparatorCharacters,
            original,
        ) && !ends_after_extension(original.path)),
    ensures
        read_line(written(original)) == Some(grep_line_of(original)),
{
    let line = written(original);
    let end = original.path.len() as int;
    assert(line[end] == ':');
    assert(line.take(end) =~= original.path);
    assert forall|assumed: GrepLineRegex, later: int| end < later implies !#[trigger] splits_at(
        assumed,
        line,
        later,
    ) by {
        if splits_at(assumed, line, later) {
            lemma_match_is_unambiguous(assumed, line, end, later);
        }
    }
    if are_parts(GrepLineRegex::FilePathWithFileExtension, original) {
        law_written_parts_read_back(GrepLineRegex::FilePathWithFileExtension, original);
    } else {
        law_written_parts_read_back(GrepLineRegex::FilePathWithoutSeparatorCharacters, original);
        let assumed = GrepLineRegex::FilePathWithFileExtension;
        if parts(assumed, line) is Some {
            let other = choose|end: int| is_path_end(assumed, line, end);
            assert(splits_at(assumed, line, other));
            if other < end {
                assert(line[other] == original.path[other]);
                assert(line.take(other) =~= original.path.drop_last());
            } else {
                assert(are_parts(assumed, original));
            }
        }
    }
}

/// A match with a line number is read back, whatever the number and the code.
pub proof fn law_numbered_match_reads_back(path: Seq<char>, line_number: usize, code: Seq<char>)
    requires
        is_path_with_extension(path) || (is_path_without_separators(path)
            && !ends_after_extension(path)),
        is_single_line(code),
    ensures
        read_line(path + seq![':'] + decimal(line_number as nat) + seq![':'] + code) == Some(
            GrepLineView {
                path,
                line_number: Some(line_number),
                line_type: LineType::Match,
                code,
                submatches: None,
            },
        ),
{
    let original = LineParts {
        path,
        separator: ':',
        number: Some(decimal(line_number as nat)),
        code,
    };
    lemma_decimal(line_number as nat);
    law_number_reads_back(line_number);
    law_match_reads_back(original);
    assert(written(original) =~= path + seq![':'] + decimal(line_number as nat) + seq![':'] + code);
}

/// Whatever the kind of line, one whose file name ends in an extension is read
/// back as it was written, unless a longer file name with an extension is
/// possible in it.
pub proof fn law_line_with_extension_reads_back(original: LineParts)
    requires
        are_parts(GrepLineRegex::FilePathWithFileExtension, original),
        forall|end: int|
            original.path.len() < end ==> !#[trigger] splits_at(
                GrepLineRegex::FilePathWithFileExtension,
                written(original),
                end,
            ),
    ensures
        read_line(written(original)) == Some(grep_line_of(original)),
{
    law_written_parts_read_back(GrepLineRegex::FilePathWithFileExtension, original);
}

/// A line whose file name holds no separators, except for the last character, is
/// read back as it was written, unless a longer such file name is possible in it
/// or the line says something else when an extension is assumed.
pub proof fn law_line_without_extension_reads_back(original: LineParts)
    requires
        are_parts(GrepLineRegex::FilePathWithoutSeparatorCharacters, original),
        forall|end: int|
            original.path.len() < end ==> !#[trigger] splits_at(
                GrepLineRegex::FilePathWithoutSeparatorCharacters,
                written(original),
                end,
            ),
        read_assuming(GrepLineRegex::FilePathWithFileExtension, written(original)) matches Some(
            other,
        ) ==> other == grep_line_of(original),
    ensures
        read_line(written(original)) == Some(grep_line_of(original)),
{
    law_written_parts_read_back(GrepLineRegex::FilePathWithoutSeparatorCharacters, original);
}

/// What a plain line can say: its file name is not empty and holds no colon, its
/// code is a part of the line without line breaks, it is never one to be
/// ignored, and it does not tell which ranges of the code match.
pub proof fn law_plain_line(line: Seq<char>)
    ensures
        read_line(line) matches Some(grep_line) ==> {
            &&& grep_line.path.len() >= 2
            &&& !grep_line.path.contains(':')
            &&& grep_line.path == line.take(grep_line.path.len() as int)
            &&& grep_line.line_type == line_type_of(line[grep_line.path.len() as int])
            &&& is_single_line(grep_line.code)
            &&& grep_line.code == line.skip(line.len() - grep_line.code.len())
            &&& grep_line.path.len() + grep_line.code.len() < line.len()
            &&& grep_line.line_type != LineType::Ignore
            &&& grep_line.submatches is None
        },
{
    if read_line(line) is Some {
        let assumed = if parts(GrepLineRegex::FilePathWithFileExtension, line) is Some {
            GrepLineRegex::FilePathWithFileExtension
        } else {
            GrepLineRegex::FilePathWithoutSeparatorCharacters
        };
        let found = parts(assumed, line)->Some_0;
        law_parts_make_up_the_line(assumed, line);
        assert(line.take(found.path.len() as int) =~= found.path);
        assert(line.skip(line.len() - found.code.len()) =~= found.code);
        assert(line[found.path.len() as int] == found.separator);
        if found.path.contains(':') {
            let i = choose|i: int| 0 <= i < found.path.len() && found.path[i] == ':';
            lemma_no_colon(assumed, found.path, i);
        }
    }
}

/// Whether a file name with an extension may stand before `end` in `line`, with the
/// dot of the extension at `dot`. It holds no colon and starts with neither a bar
/// nor a space; the extension has one to six characters, none of which is a dot, a
/// space or a separator; a separator follows, and no line break after it.
pub open spec fn extension_before(line: Seq<char>, dot: int, end: int) -> bool {
    &&& 1 <= dot
    &&& dot + 2 <= end <= dot + 7
    &&& end < line.len()
    &&& line[0] != '|' && line[0] != ' '
    &&& line[dot] == '.'
    &&& forall|i: int| 0 <= i < dot ==> #[trigger] line[i] != ':'
    &&& forall|i: int|
        dot < i < end ==> #[trigger] line[i] != '.' && line[i] != ' ' && line[i] != ':' && line[i]
            != '-' && line[i] != '='
    &&& line[end] == ':' || line[end] == '-' || line[end] == '='
    &&& forall|i: int| end < i < line.len() ==> #[trigger] line[i] != '\n'
}

/// Whether a file name without separators may stand before `end` in `line`. It has
/// two characters at least, starts with neither a bar nor a space, ends in neither
/// a colon nor a space, and holds no separator before its last character; a
/// separator follows, and no line break after it.
pub open spec fn plain_name_before(line: Seq<char>, end: int) -> bool {
    &&& 2 <= end < line.len()
    &&& line[0] != '|' && line[0] != ' '
    &&& line[end - 1] != ':' && line[end - 1] != ' '
    &&& forall|i: int|
        0 <= i < end - 1 ==> #[trigger] line[i] != ':' && line[i] != '-' && line[i] != '='
    &&& line[end] == ':' || line[end] == '-' || line[end] == '='
    &&& forall|i: int| end < i < line.len() ==> #[trigger] line[i] != '\n'
}

/// Whether `grep_line` says what `line` says after the file name of `grep_line`,
/// which stands at its start. The separator after it tells the kind of line. If
/// digits follow and then the same separator, they are the line number, and the
/// code is what stands after them; otherwise all that follows is the code.
pub open spec fn says_the_rest(line: Seq<char>, grep_line: GrepLineView) -> bool {
    let end = grep_line.path.len() as int;
    let separator = line[end];
    let code = grep_line.code;
    &&& end < line.len()
    &&& grep_line.path == line.take(end)
    &&& separator == ':' ==> grep_line.line_type == LineType::Match
    &&& separator == '-' ==> grep_line.line_type == LineType::Context
    &&& separator == '=' ==> grep_line.line_type == LineType::ContextHeader
    &&& separator == ':' || separator == '-' || separator == '='
    &&& grep_line.submatches is None
    &&& {
        ||| exists|digits: Seq<char>|
            {
                &&& digits.len() > 0
                &&& forall|i: int| 0 <= i < digits.len() ==> '0' <= #[trigger] digits[i] <= '9'
                &&& grep_line.line_number == #[trigger] number_of(digits)
                &&& line == grep_line.path + seq![separator] + digits + seq![separator] + code
            }
        ||| {
            &&& grep_line.line_number is None
            &&& line == grep_line.path + seq![separator] + code
            &&& forall|n: int|
                0 < n < code.len() && #[trigger] code[n] == separator ==> exists|i: int|
                    0 <= i < n && !('0' <= #[trigger] code[i] <= '9')
        }
    }
}

/// A file name with an extension may end where it may end with some dot.
proof fn lemma_extension_before(line: Seq<char>, end: int)
    ensures
        splits_at(GrepLineRegex::FilePathWithFileExtension, line, end) <==> exists|dot: int|
            extension_before(line, dot, end),
{
    let assumed = GrepLineRegex::FilePathWithFileExtension;
    let path = line.take(end);
    let rest = line.skip(end + 1);
    if splits_at(assumed, line, end) {
        let dot = choose|dot: int| #[trigger]
            has_extension_at(path, dot) && (forall|i: int|
                0 <= i < dot ==> #[trigger] path[i] != ':');
        assert forall|i: int| 0 <= i < dot implies #[trigger] line[i] != ':' by {
            assert(path[i] == line[i]);
        }
        assert forall|i: int| dot < i < end implies #[trigger] line[i] != '.' && line[i] != ' '
            && line[i] != ':' && line[i] != '-' && line[i] != '=' by {
            assert(is_extension_char(path[i]));
        }
        assert forall|i: int| end < i < line.len() implies #[trigger] line[i] != '\n' by {
            assert(rest[i - end - 1] == line[i]);
        }
        assert(extension_before(line, dot, end));
    }
    if exists|dot: int| extension_before(line, dot, end) {
        let dot = choose|dot: int| extension_before(line, dot, end);
        assert(has_extension_at(path, dot)) by {
            assert forall|i: int| dot < i < path.len() implies is_extension_char(
                #[trigger] path[i],
            ) by {
                assert(path[i] == line[i]);
            }
        }
        assert forall|i: int| 0 <= i < dot implies #[trigger] path[i] != ':' by {
            assert(path[i] == line[i]);
        }
        assert forall|i: int| 0 <= i < rest.len() implies #[trigger] rest[i] != '\n' by {
            assert(rest[i] == line[end + 1 + i]);
        }
    }
}

/// A file name without separators may end where it may end.
proof fn lemma_plain_name_before(line: Seq<char>, end: int)
    ensures
        splits_at(GrepLineRegex::FilePathWithoutSeparatorCharacters, line, end)
            <==> plain_name_before(line, end),
{
    let assumed = GrepLineRegex::FilePathWithoutSeparatorCharacters;
    let path = line.take(end);
    let rest = line.skip(end + 1);
    if splits_at(assumed, line, end) {
        assert forall|i: int| 0 <= i < end - 1 implies #[trigger] line[i] != ':' && line[i] != '-'
            && line[i] != '=' by {
            assert(!is_separator(path[i]));
        }
        assert forall|i: int| end < i < line.len() implies #[trigger] line[i] != '\n' by {
            assert(rest[i - end - 1] == line[i]);
        }
        assert(path.last() == line[end - 1]);
    }
    if plain_name_before(line, end) {
        assert forall|i: int| 0 <= i < path.len() - 1 implies !is_separator(#[trigger] path[i]) by {
            assert(path[i] == line[i]);
        }
        assert forall|i: int| 0 <= i < rest.len() implies #[trigger] rest[i] != '\n' by {
            assert(rest[i] == line[end + 1 + i]);
        }
    }
}

/// A text starts with a number and a separator if that separator comes after
/// digits alone.
proof fn lemma_starts_with_number(text: Seq<char>, separator: char, n: int)
    requires
        0 < n < text.len(),
        text[n] == separator,
        !is_digit(separator),
        forall|i: int| 0 <= i < n ==> '0' <= #[trigger] text[i] <= '9',
    ensures
        starts_with_number(text, separator),
        digit_run(text) == n,
{
    let digits = text.take(n);
    assert forall|i: int| 0 <= i < n implies is_digit(#[trigger] digits[i]) by {
        assert(digits[i] == text[i]);
    }
    assert(text.skip(n)[0] == separator);
    lemma_digit_run_ends(digits, text.skip(n));
    assert(digits + text.skip(n) =~= text);
}

/// What is read after the file name, under either assumption.
proof fn lemma_says_the_rest(assumed: GrepLineRegex, line: Seq<char>)
    ensures
        read_assuming(assumed, line) matches Some(grep_line) ==> {
            &&& says_the_rest(line, grep_line)
            &&& splits_at(assumed, line, grep_line.path.len() as int)
            &&& forall|end: int| #[trigger]
                splits_at(assumed, line, end) ==> end <= grep_line.path.len()
        },
{
    law_parts_make_up_the_line(assumed, line);
    if let Some(found) = parts(assumed, line) {
        let end = found.path.len() as int;
        assert(line[end] == found.separator);
        assert(line.take(end) =~= found.path);
        let chosen = choose|end: int| is_path_end(assumed, line, end);
        assert(splits_at(assumed, line, chosen));
        lemma_parts(assumed, line, chosen);
        assert(found.path =~= line.take(chosen));
        match found.number {
            Some(digits) => {
                assert forall|i: int| 0 <= i < digits.len() implies '0' <= #[trigger] digits[i]
                    <= '9' by {
                    assert(is_digit(digits[i]));
                }
                assert(line =~= found.path + seq![found.separator] + digits + seq![found.separator]
                    + found.code);
                assert(grep_line_of(found).line_number == number_of(digits));
            },
            None => {
                let code = found.code;
                assert(line =~= found.path + seq![found.separator] + code);
                assert forall|n: int|
                    0 < n < code.len() && #[trigger] code[n] == found.separator implies exists|
                    i: int,
                |
                    0 <= i < n && !('0' <= #[trigger] code[i] <= '9') by {
                    if forall|i: int| 0 <= i < n ==> '0' <= #[trigger] code[i] <= '9' {
                        lemma_starts_with_number(code, found.separator, n);
                    }
                }
            },
        }
        assert(says_the_rest(line, grep_line_of(found)));
    }
}

/// Where a file extension is assumed, a line is read if and only if a file name
/// with an extension may stand at its start. The longest one is the file name, and
/// the rest is said as it stands.
pub proof fn law_line_read_by_its_extension(line: Seq<char>)
    ensures
        match read_assuming(GrepLineRegex::FilePathWithFileExtension, line) {
            Some(grep_line) => {
                &&& says_the_rest(line, grep_line)
                &&& exists|dot: int| extension_before(line, dot, grep_line.path.len() as int)
                &&& forall|dot: int, end: int| #[trigger]
                    extension_before(line, dot, end) ==> end <= grep_line.path.len()
            },
            None => forall|dot: int, end: int| !#[trigger] extension_before(line, dot, end),
        },
{
    let assumed = GrepLineRegex::FilePathWithFileExtension;
    lemma_says_the_rest(assumed, line);
    law_read_if_it_splits(assumed, line);
    assert forall|dot: int, end: int| #[trigger] extension_before(line, dot, end) implies splits_at(
        assumed,
        line,
        end,
    ) by {
        lemma_extension_before(line, end);
    }
    if let Some(grep_line) = read_assuming(assumed, line) {
        lemma_extension_before(line, grep_line.path.len() as int);
    }
}

/// Where a file name without separators is assumed, a line is read if and only if
/// such a name may stand at its start. The longest one is the file name, and the
/// rest is said as it stands.
pub proof fn law_line_read_without_extension(line: Seq<char>)
    ensures
        match read_assuming(GrepLineRegex::FilePathWithoutSeparatorCharacters, line) {
            Some(grep_line) => {
                &&& says_the_rest(line, grep_line)
                &&& plain_name_before(line, grep_line.path.len() as int)
                &&& forall|end: int| #[trigger]
                    plain_name_before(line, end) ==> end <= grep_line.path.len()
            },
            None => forall|end: int| !#[trigger] plain_name_before(line, end),
        },
{
    let assumed = GrepLineRegex::FilePathWithoutSeparatorCharacters;
    lemma_says_the_rest(assumed, line);
    law_read_if_it_splits(assumed, line);
    assert forall|end: int| #[trigger] plain_name_before(line, end) implies splits_at(
        assumed,
        line,
        end,
    ) by {
        lemma_plain_name_before(line, end);
    }
    if let Some(grep_line) = read_assuming(assumed, line) {
        lemma_plain_name_before(line, grep_line.path.len() as int);
    }
}

/// A line is read by the extension of its file name wherever one may stand at its
/// start, and only otherwise by a file name without separators. Where neither may
/// stand there, it is not read.
pub proof fn law_extension_goes_first(line: Seq<char>)
    ensures
        (exists|dot: int, end: int| extension_before(line, dot, end)) ==> read_line(line)
            == read_assuming(GrepLineRegex::FilePathWithFileExtension, line) && read_line(
            line,
        ) is Some,
        (forall|dot: int, end: int| !#[trigger] extension_before(line, dot, end)) ==> read_line(
            line,
        ) == read_assuming(GrepLineRegex::FilePathWithoutSeparatorCharacters, line),
        read_line(line) is Some <==> (exists|dot: int, end: int| extension_before(line, dot, end))
            || (exists|end: int| plain_name_before(line, end)),
{
    law_line_read_by_its_extension(line);
    law_line_read_without_extension(line);
    if let Some(grep_line) = read_assuming(GrepLineRegex::FilePathWithFileExtension, line) {
        let end = grep_line.path.len() as int;
        let dot = choose|dot: int| extension_before(line, dot, end);
        assert(extension_before(line, dot, end));
    }
}

/// A line of any kind, with a line number, whose file name ends in an extension, is
/// read back part by part, unless a longer file name with an extension may stand in
/// it.
pub proof fn law_numbered_line_reads_back(
    stem: Seq<char>,
    extension: Seq<char>,
    separator: char,
    line_number: usize,
    code: Seq<char>,
)
    requires
        stem.len() > 0,
        stem[0] != '|' && stem[0] != ' ',
        forall|i: int| 0 <= i < stem.len() ==> #[trigger] stem[i] != ':',
        1 <= extension.len() <= 6,
        forall|i: int|
            0 <= i < extension.len() ==> #[trigger] extension[i] != '.' && extension[i] != ' '
                && extension[i] != ':' && extension[i] != '-' && extension[i] != '=',
        separator == ':' || separator == '-' || separator == '=',
        forall|i: int| 0 <= i < code.len() ==> #[trigger] code[i] != '\n',
        separator != ':' ==> forall|dot: int, end: int| #[trigger]
            extension_before(
                stem + seq!['.'] + extension + seq![separator] + decimal(line_number as nat)
                    + seq![separator] + code,
                dot,
                end,
            ) ==> end <= stem.len() + 1 + extension.len(),
    ensures
        read_line(
            stem + seq!['.'] + extension + seq![separator] + decimal(line_number as nat)
                + seq![separator] + code,
        ) == Some(
            GrepLineView {
                path: stem + seq!['.'] + extension,
                line_number: Some(line_number),
                line_type: if separator == ':' {
                    LineType::Match
                } else if separator == '-' {
                    LineType::Context
                } else {
                    LineType::ContextHeader
                },
                code,
                submatches: None,
            },
        ),
{
    let path = stem + seq!['.'] + extension;
    let digits = decimal(line_number as nat);
    let line = path + seq![separator] + digits + seq![separator] + code;
    let original = LineParts { path, separator, number: Some(digits), code };
    lemma_decimal(line_number as nat);
    law_number_reads_back(line_number);
    lemma_path_with_extension(stem, extension);
    assert(written(original) =~= line);
    lemma_no_longer_extension(line, path.len() as int);
    law_line_with_extension_reads_back(original);
}

/// A line of any kind, without a line number, whose file name ends in an extension,
/// is read back part by part, unless a longer file name with an extension may stand
/// in it, or its code looks like a line number.
pub proof fn law_unnumbered_line_reads_back(
    stem: Seq<char>,
    extension: Seq<char>,
    separator: char,
    code: Seq<char>,
)
    requires
        stem.len() > 0,
        stem[0] != '|' && stem[0] != ' ',
        forall|i: int| 0 <= i < stem.len() ==> #[trigger] stem[i] != ':',
        1 <= extension.len() <= 6,
        forall|i: int|
            0 <= i < extension.len() ==> #[trigger] extension[i] != '.' && extension[i] != ' '
                && extension[i] != ':' && extension[i] != '-' && extension[i] != '=',
        separator == ':' || separator == '-' || separator == '=',
        forall|i: int| 0 <= i < code.len() ==> #[trigger] code[i] != '\n',
        forall|n: int|
            0 < n < code.len() && #[trigger] code[n] == separator ==> exists|i: int|
                0 <= i < n && !('0' <= #[trigger] code[i] <= '9'),
        separator != ':' ==> forall|dot: int, end: int| #[trigger]
            extension_before(
                stem + seq!['.'] + extension + seq![separator] + code,
                dot,
                end,
            ) ==> end <= stem.len() + 1 + extension.len(),
    ensures
        read_line(stem + seq!['.'] + extension + seq![separator] + code) == Some(
            GrepLineView {
                path: stem + seq!['.'] + extension,
                line_number: None,
                line_type: if separator == ':' {
                    LineType::Match
                } else if separator == '-' {
                    LineType::Context
                } else {
                    LineType::ContextHeader
                },
                code,
                submatches: None,
            },
        ),
{
    let path = stem + seq!['.'] + extension;
    let line = path + seq![separator] + code;
    let original = LineParts { path, separator, number: None, code };
    lemma_path_with_extension(stem, extension);
    lemma_not_a_number(code, separator);
    assert(written(original) =~= line);
    lemma_no_longer_extension(line, path.len() as int);
    law_line_with_extension_reads_back(original);
}

/// A line of any kind, with a line number, whose file name holds no separators, is
/// read back part by part, unless a file name with an extension may stand in it.
pub proof fn law_numbered_line_without_extension_reads_back(
    path: Seq<char>,
    separator: char,
    line_number: usize,
    code: Seq<char>,
)
    requires
        path.len() >= 2,
        path[0] != '|' && path[0] != ' ',
        path.last() != ' ',
        forall|i: int|
            0 <= i < path.len() ==> #[trigger] path[i] != ':' && path[i] != '-' && path[i] != '=',
        separator == ':' || separator == '-' || separator == '=',
        forall|i: int| 0 <= i < code.len() ==> #[trigger] code[i] != '\n',
        forall|dot: int, end: int|
            !#[trigger] extension_before(
                path + seq![separator] + decimal(line_number as nat) + seq![separator] + code,
                dot,
                end,
            ),
    ensures
        read_line(
            path + seq![separator] + decimal(line_number as nat) + seq![separator] + code,
        ) == Some(
            GrepLineView {
                path,
                line_number: Some(line_number),
                line_type: if separator == ':' {
                    LineType::Match
                } else if separator == '-' {
                    LineType::Context
                } else {
                    LineType::ContextHeader
                },
                code,
                submatches: None,
            },
        ),
{
    let assumed = GrepLineRegex::FilePathWithoutSeparatorCharacters;
    let digits = decimal(line_number as nat);
    let line = path + seq![separator] + digits + seq![separator] + code;
    let original = LineParts { path, separator, number: Some(digits), code };
    lemma_decimal(line_number as nat);
    law_number_reads_back(line_number);
    assert(written(original) =~= line);
    assert(is_digit(digits[0]));
    assert(line[path.len() as int + 1] == digits[0]);
    assert forall|end: int| path.len() < end implies !#[trigger] splits_at(assumed, line, end) by {
        lemma_plain_name_before(line, end);
        assert(line[path.len() as int] == separator);
    }
    law_line_read_by_its_extension(line);
    law_line_without_extension_reads_back(original);
}

/// A line of any kind, without a line number, whose file name holds no separators,
/// is read back part by part, unless a file name with an extension may stand in it,
/// or its code starts with a separator that the file name could end in or looks
/// like a line number.
pub proof fn law_unnumbered_line_without_extension_reads_back(
    path: Seq<char>,
    separator: char,
    code: Seq<char>,
)
    requires
        path.len() >= 2,
        path[0] != '|' && path[0] != ' ',
        path.last() != ' ',
        forall|i: int|
            0 <= i < path.len() ==> #[trigger] path[i] != ':' && path[i] != '-' && path[i] != '=',
        separator == ':' || separator == '-' || separator == '=',
        forall|i: int| 0 <= i < code.len() ==> #[trigger] code[i] != '\n',
        separator != ':' && code.len() > 0 ==> code[0] != ':' && code[0] != '-' && code[0] != '=',
        forall|n: int|
            0 < n < code.len() && #[trigger] code[n] == separator ==> exists|i: int|
                0 <= i < n && !('0' <= #[trigger] code[i] <= '9'),
        forall|dot: int, end: int|
            !#[trigger] extension_before(path + seq![separator] + code, dot, end),
    ensures
        read_line(path + seq![separator] + code) == Some(
            GrepLineView {
                path,
                line_number: None,
                line_type: if separator == ':' {
                    LineType::Match
                } else if separator == '-' {
                    LineType::Context
                } else {
                    LineType::ContextHeader
                },
                code,
                submatches: None,
            },
        ),
{
    let assumed = GrepLineRegex::FilePathWithoutSeparatorCharacters;
    let line = path + seq![separator] + code;
    let original = LineParts { path, separator, number: None, code };
    lemma_not_a_number(code, separator);
    assert(written(original) =~= line);
    assert forall|end: int| path.len() < end implies !#[trigger] splits_at(assumed, line, end) by {
        lemma_plain_name_before(line, end);
        assert(line[path.len() as int] == separator);
        if end == path.len() + 1 && code.len() > 0 {
            assert(line[end] == code[0]);
        }
    }
    law_line_read_by_its_extension(line);
    law_line_without_extension_reads_back(original);
}

/// A name, a dot and an extension are a file name with an extension.
proof fn lemma_path_with_extension(stem: Seq<char>, extension: Seq<char>)
    requires
        stem.len() > 0,
        stem[0] != '|' && stem[0] != ' ',
        forall|i: int| 0 <= i < stem.len() ==> #[trigger] stem[i] != ':',
        1 <= extension.len() <= 6,
        forall|i: int|
            0 <= i < extension.len() ==> #[trigger] extension[i] != '.' && extension[i] != ' '
                && extension[i] != ':' && extension[i] != '-' && extension[i] != '=',
    ensures
        is_path_with_extension(stem + seq!['.'] + extension),
{
    let path = stem + seq!['.'] + extension;
    let dot = stem.len() as int;
    assert forall|i: int| dot < i < path.len() implies is_extension_char(#[trigger] path[i]) by {
        assert(path[i] == extension[i - dot - 1]);
    }
    assert forall|i: int| 0 <= i < dot implies #[trigger] path[i] != ':' by {
        assert(path[i] == stem[i]);
    }
    assert(has_extension_at(path, dot));
}

/// Where no longer file name with an extension may stand, none may end later; after
/// a colon none may in any case.
proof fn lemma_no_longer_extension(line: Seq<char>, end: int)
    requires
        0 <= end < line.len(),
        line[end] == ':' || forall|dot: int, later: int| #[trigger]
            extension_before(line, dot, later) ==> later <= end,
    ensures
        forall|later: int|
            end < later ==> !#[trigger] splits_at(
                GrepLineRegex::FilePathWithFileExtension,
                line,
                later,
            ),
{
    let assumed = GrepLineRegex::FilePathWithFileExtension;
    assert forall|later: int| end < later implies !#[trigger] splits_at(assumed, line, later) by {
        if splits_at(assumed, line, later) {
            lemma_match_is_unambiguous(assumed, line, end, later);
            lemma_extension_before(line, later);
        }
    }
}

/// Code in which the separator never comes after digits alone starts with no number.
proof fn lemma_not_a_number(code: Seq<char>, separator: char)
    requires
        forall|n: int|
            0 < n < code.len() && #[trigger] code[n] == separator ==> exists|i: int|
                0 <= i < n && !('0' <= #[trigger] code[i] <= '9'),
    ensures
        !starts_with_number(code, separator),
{
    if starts_with_number(code, separator) {
        let n = digit_run(code) as int;
        lemma_digit_run(code);
        assert(code[n] == separator);
        let i = choose|i: int| 0 <= i < n && !('0' <= #[trigger] code[i] <= '9');
        assert(is_digit(code.take(n)[i]));
    }
}

} // verus!
