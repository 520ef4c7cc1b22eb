//! A line of grep output, taken apart.

use std::borrow::Cow;

use vstd::prelude::*;

verus! {

/// What a line of grep output is.
#[derive(Clone, Copy, Debug, PartialEq, Eq, Structural)]
pub enum LineType {
    /// The function or section that the lines after it stand in.
    ContextHeader,
    /// A line near a match.
    Context,
    /// A line that matches.
    Match,
    /// A line that reports on the search itself and is not displayed.
    Ignore,
}

/// A line of grep output: where it was found, and what was found there.
#[derive(Debug, PartialEq)]
pub struct GrepLine<'b> {
    pub path: Cow<'b, str>,
    pub line_number: Option<usize>,
    pub line_type: LineType,
    pub code: Cow<'b, str>,
    /// The byte ranges of `code` that match, where the grep tool tells them.
    pub submatches: Option<Vec<(usize, usize)>>,
}

/// The content of a [`GrepLine`].
#[verifier::ext_equal]
pub struct GrepLineView {
    pub path: Seq<char>,
    pub line_number: Option<usize>,
    pub line_type: LineType,
    pub code: Seq<char>,
    pub submatches: Option<Seq<(usize, usize)>>,
}

impl<'b> View for GrepLine<'b> {
    type V = GrepLineView;

    open spec fn view(&self) -> GrepLineView {
        GrepLineView {
            path: self.path@,
            line_number: self.line_number,
            line_type: self.line_type,
            code: self.code@,
            submatches: match self.submatches {
                Some(submatches) => Some(submatches@),
                None => None,
            },
        }
    }
}

/// The content of a line that may be missing.
pub open spec fn grep_line_view(line: Option<GrepLine>) -> Option<GrepLineView> {
    match line {
        Some(line) => Some(line@),
        None => None,
    }
}

/// The text that a `Cow` holds or borrows.
pub(crate) fn text_of<'a>(text: &'a Cow<'_, str>) -> (s: &'a str)
    ensures
        s@ == text@,
{
    match text {
        Cow::Borrowed(borrowed) => borrowed,
        Cow::Owned(owned) => owned.as_str(),
    }
}

/// The content of a line is what its fields hold.
pub proof fn law_grep_line_content(line: GrepLine)
    ensures
        line@.path == line.path@,
        line@.line_number == line.line_number,
        line@.line_type == line.line_type,
        line@.code == line.code@,
        match line.submatches {
            Some(submatches) => line@.submatches == Some(submatches@),
            None => line@.submatches is None,
        },
        grep_line_view(Some(line)) == Some(line@),
        grep_line_view(None) is None,
{
}

} // verus!
