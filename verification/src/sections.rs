//! The styles in which the parts of a line of code are displayed.
//!
//! A style is only handed on, so any type serves as one.

use vstd::prelude::*;

use crate::decimal::{
    all_digits, decimal, is_digit, law_number_reads_back, lemma_decimal, number_text,
};
use crate::format::{grep_line_of, written, LineParts};
use crate::line::{text_of, GrepLine, GrepLineView};
use crate::text::{
    byte_len, check_piece, has_piece, law_a_cut_is_a_piece, law_a_piece_is_a_cut, law_bytes_add_up,
    len_of, lemma_pieces_join, lemma_whole_piece, piece, piece_of,
};

verus! {

/// The styles of a line.
#[derive(Debug, PartialEq)]
pub enum StyleSectionSpecifier<'a, S> {
    /// One style for all of it.
    Style(S),
    /// The line in pieces, each with its style.
    StyleSections(Vec<(S, &'a str)>),
}

/// The content of a [`StyleSectionSpecifier`].
#[verifier::ext_equal]
pub enum StyleSections<S> {
    Style(S),
    Sections(Seq<(S, Seq<char>)>),
}

/// The styles of pieces and their texts.
pub open spec fn section_texts<S>(sections: Seq<(S, &str)>) -> Seq<(S, Seq<char>)> {
    sections.map_values(|section: (S, &str)| (section.0, section.1@))
}

impl<'a, S> View for StyleSectionSpecifier<'a, S> {
    type V = StyleSections<S>;

    open spec fn view(&self) -> StyleSections<S> {
        match self {
            StyleSectionSpecifier::Style(style) => StyleSections::Style(*style),
            StyleSectionSpecifier::StyleSections(sections) => StyleSections::Sections(
                section_texts(sections@),
            ),
        }
    }
}

/// Whether all `submatches` are pieces of `line`.
pub open spec fn are_pieces(line: Seq<char>, submatches: Seq<(usize, usize)>) -> bool {
    forall|i: int|
        0 <= i < submatches.len() ==> has_piece(
            line,
            (#[trigger] submatches[i]).0 as int,
            submatches[i].1 as int,
        )
}

/// The pieces of `line` from byte `start` on, given the submatches not yet
/// styled: each submatch is a piece in the one style, and so is what stands
/// before it, between two of them or after the last in the other, unless that
/// is nothing.
pub open spec fn styled_from<S>(
    line: Seq<char>,
    submatches: Seq<(usize, usize)>,
    start: int,
    match_style: S,
    non_match_style: S,
) -> Seq<(S, Seq<char>)>
    decreases submatches.len(),
{
    if submatches.len() == 0 {
        unmatched(line, start, byte_len(line) as int, non_match_style)
    } else {
        let (match_start, match_end) = submatches[0];
        unmatched(line, start, match_start as int, non_match_style) + seq![
            (match_style, piece(line, match_start as int, match_end as int)),
        ] + styled_from(
            line,
            submatches.drop_first(),
            match_end as int,
            match_style,
            non_match_style,
        )
    }
}

/// The piece of `line` between two bytes, unless it would be empty.
pub open spec fn unmatched<S>(line: Seq<char>, start: int, end: int, style: S) -> Seq<
    (S, Seq<char>),
> {
    if start < end {
        seq![(style, piece(line, start, end))]
    } else {
        seq![]
    }
}

/// Whether all `submatches` are pieces of `line`, so that [`make_style_sections`]
/// can style them.
pub fn can_style(line: &str, submatches: &[(usize, usize)]) -> (can: bool)
    ensures
        can == are_pieces(line@, submatches@),
{
    for i in 0..submatches.len()
        invariant
            are_pieces(line@, submatches@.take(i as int)),
    {
        let (start, end) = submatches[i];
        if !check_piece(line, start, end) {
            assert(submatches@[i as int] == (start, end));
            return false;
        }
        assert(are_pieces(line@, submatches@.take(i + 1))) by {
            assert forall|k: int| 0 <= k < i + 1 implies has_piece(
                line@,
                (#[trigger] submatches@.take(i + 1)[k]).0 as int,
                submatches@.take(i + 1)[k].1 as int,
            ) by {
                if k < i {
                    assert(submatches@.take(i as int)[k] == submatches@.take(i + 1)[k]);
                }
            }
        }
    }
    assert(submatches@.take(submatches@.len() as int) =~= submatches@);
    true
}

/// Styles `line` by the byte ranges in it that match.
pub fn make_style_sections<'a, S: Copy>(
    line: &'a str,
    submatches: &[(usize, usize)],
    match_style: S,
    non_match_style: S,
) -> (specifier: StyleSectionSpecifier<'a, S>)
    requires
        are_pieces(line@, submatches@),
    ensures
        specifier@ == StyleSections::Sections(
            styled_from(line@, submatches@, 0, match_style, non_match_style),
        ),
{
    let mut sections: Vec<(S, &'a str)> = Vec::new();
    let mut curr: usize = 0;
    let mut i: usize = 0;
    proof {
        lemma_whole_piece(line@);
        assert(submatches@.skip(0) =~= submatches@);
        assert(section_texts(sections@) =~= Seq::<(S, Seq<char>)>::empty());
    }
    while i < submatches.len()
        invariant
            0 <= i <= submatches.len(),
            are_pieces(line@, submatches@),
            has_piece(line@, curr as int, curr as int),
            has_piece(line@, byte_len(line@) as int, byte_len(line@) as int),
            section_texts(sections@) + styled_from(
                line@,
                submatches@.skip(i as int),
                curr as int,
                match_style,
                non_match_style,
            ) == styled_from(line@, submatches@, 0, match_style, non_match_style),
        decreases submatches.len() - i,
    {
        let (start, end) = submatches[i];
        let ghost before = section_texts(sections@);
        assert(submatches@.skip(i as int)[0] == submatches@[i as int]);
        assert(submatches@.skip(i as int).drop_first() =~= submatches@.skip(i + 1));
        if start > curr {
            sections.push((non_match_style, piece_of(line, curr, start)));
        }
        sections.push((match_style, piece_of(line, start, end)));
        assert(section_texts(sections@) =~= before + unmatched(
            line@,
            curr as int,
            start as int,
            non_match_style,
        ) + seq![(match_style, piece(line@, start as int, end as int))]);
        curr = end;
        i = i + 1;
        assert(section_texts(sections@) + styled_from(
            line@,
            submatches@.skip(i as int),
            curr as int,
            match_style,
            non_match_style,
        ) =~= styled_from(line@, submatches@, 0, match_style, non_match_style));
    }
    let ghost before = section_texts(sections@);
    let len = len_of(line);
    if curr < len {
        sections.push((non_match_style, piece_of(line, curr, len)));
    }
    assert(section_texts(sections@) =~= before + unmatched(
        line@,
        curr as int,
        len as int,
        non_match_style,
    ));
    StyleSectionSpecifier::StyleSections(sections)
}

/// A piece of a line as its ANSI escape sequences style it.
#[derive(Clone, Copy, Debug, PartialEq)]
pub struct AnsiSection<'b> {
    /// Whether they give it a foreground colour.
    pub has_foreground: bool,
    pub text: &'b str,
}

/// What stands before the code in a match line: the file name, a colon and, where
/// there is one, the line number and another colon.
pub open spec fn match_prefix(grep: GrepLineView) -> Seq<char> {
    match grep.line_number {
        Some(n) => grep.path + seq![':'] + decimal(n as nat) + seq![':'],
        None => grep.path + seq![':'],
    }
}

/// The pieces that the grep tool coloured in the one style, and the others in the
/// other.
pub open spec fn styled_by_color<S>(
    ansi_sections: Seq<AnsiSection>,
    match_style: S,
    non_match_style: S,
) -> Seq<(S, Seq<char>)> {
    ansi_sections.map_values(
        |section: AnsiSection|
            (
                if section.has_foreground {
                    match_style
                } else {
                    non_match_style
                },
                section.text@,
            ),
    )
}

/// Where the code starts in a match line, in bytes, if escape sequences are not
/// counted.
pub fn raw_code_offset(grep: &GrepLine) -> (offset: usize)
    ensures
        offset == byte_len(match_prefix(grep@)),
{
    proof {
        reveal_strlit(":");
        assert(":"@ =~= seq![':']);
    }
    let mut prefix: String = text_of(&grep.path).to_owned();
    prefix.append(":");
    if let Some(n) = grep.line_number {
        prefix.append(number_text(n).as_str());
        prefix.append(":");
    }
    len_of(prefix.as_str())
}

/// The code in a match line, given where it starts in `raw_line`.
pub fn raw_code<'b>(raw_line: &'b str, raw_code_start: usize) -> (code: &'b str)
    requires
        has_piece(raw_line@, raw_code_start as int, byte_len(raw_line@) as int),
    ensures
        code@ == piece(raw_line@, raw_code_start as int, byte_len(raw_line@) as int),
{
    piece_of(raw_line, raw_code_start, len_of(raw_line))
}

/// Styles the code of a match line by the colours that the grep tool gave it.
/// `ansi_sections` are the pieces of the code, unless it was not found in the line.
pub fn get_code_style_sections<'b, S: Copy>(
    ansi_sections: Option<&[AnsiSection<'b>]>,
    match_style: S,
    non_match_style: S,
) -> (specifier: Option<StyleSectionSpecifier<'b, S>>)
    ensures
        match ansi_sections {
            Some(ansi_sections) => specifier is Some && specifier->Some_0@
                == StyleSections::Sections(
                styled_by_color(ansi_sections@, match_style, non_match_style),
            ),
            None => specifier is None,
        },
{
    match ansi_sections {
        Some(ansi_sections) => {
            let mut sections: Vec<(S, &'b str)> = Vec::new();
            for i in 0..ansi_sections.len()
                invariant
                    section_texts(sections@) == styled_by_color(
                        ansi_sections@.take(i as int),
                        match_style,
                        non_match_style,
                    ),
            {
                let section = ansi_sections[i];
                let style = if section.has_foreground {
                    match_style
                } else {
                    non_match_style
                };
                let ghost before = section_texts(sections@);
                sections.push((style, section.text));
                assert(section_texts(sections@) =~= before.push((style, section.text@)));
                assert(ansi_sections@.take(i + 1) =~= ansi_sections@.take(i as int).push(section));
                assert(styled_by_color(ansi_sections@.take(i + 1), match_style, non_match_style)
                    =~= before.push((style, section.text@)));
            }
            assert(ansi_sections@.take(ansi_sections@.len() as int) =~= ansi_sections@);
            Some(StyleSectionSpecifier::StyleSections(sections))
        },
        None => None,
    }
}

/// The text of pieces, one after the other.
pub open spec fn joined<S>(sections: Seq<(S, Seq<char>)>) -> Seq<char> {
    sections.map_values(|section: (S, Seq<char>)| section.1).flatten()
}

/// Joining adds up.
proof fn lemma_joined<S>(first: (S, Seq<char>), rest: Seq<(S, Seq<char>)>)
    ensures
        joined(seq![first] + rest) == first.1 + joined(rest),
        joined(Seq::<(S, Seq<char>)>::empty()) == Seq::<char>::empty(),
{
    let texts = (seq![first] + rest).map_values(|section: (S, Seq<char>)| section.1);
    assert(texts.first() == first.1);
    assert(texts.drop_first() =~= rest.map_values(|section: (S, Seq<char>)| section.1));
    assert(Seq::<(S, Seq<char>)>::empty().map_values(|section: (S, Seq<char>)| section.1) =~= Seq::<
        Seq<char>,
    >::empty());
}

/// Whether each of the `submatches` ends before the next ones start.
pub open spec fn in_order(submatches: Seq<(usize, usize)>) -> bool {
    forall|i: int, k: int|
        0 <= i < k < submatches.len() ==> (#[trigger] submatches[i]).1 <= (
        #[trigger] submatches[k]).0
}

/// From any place on, the pieces make up the rest of the line.
proof fn lemma_styled_from_joined<S>(
    line: Seq<char>,
    submatches: Seq<(usize, usize)>,
    start: int,
    match_style: S,
    non_match_style: S,
)
    requires
        are_pieces(line, submatches),
        in_order(submatches),
        has_piece(line, start, start),
        forall|i: int| 0 <= i < submatches.len() ==> start <= (#[trigger] submatches[i]).0,
    ensures
        joined(styled_from(line, submatches, start, match_style, non_match_style)) == piece(
            line,
            start,
            byte_len(line) as int,
        ),
    decreases submatches.len(),
{
    let len = byte_len(line) as int;
    let none = Seq::<(S, Seq<char>)>::empty();
    lemma_whole_piece(line);
    if submatches.len() == 0 {
        let last = (non_match_style, piece(line, start, len));
        lemma_joined(last, none);
        assert(seq![last] + none =~= seq![last]);
        if start == len {
            assert(piece(line, len, len) =~= piece(line, 0, 0)) by {
                assert(vstd::utf8::encode_utf8(line).subrange(len, len)
                    =~= vstd::utf8::encode_utf8(line).subrange(0, 0));
            }
        }
    } else {
        let (match_start, match_end) = submatches[0];
        let matched = (match_style, piece(line, match_start as int, match_end as int));
        let before = (non_match_style, piece(line, start, match_start as int));
        let rest = submatches.drop_first();
        let after = styled_from(line, rest, match_end as int, match_style, non_match_style);
        assert forall|i: int| 0 <= i < rest.len() implies {
            &&& has_piece(line, (#[trigger] rest[i]).0 as int, rest[i].1 as int)
            &&& match_end <= rest[i].0
        } by {
            assert(rest[i] == submatches[i + 1]);
            assert(submatches[0].1 <= submatches[i + 1].0);
        }
        assert(in_order(rest)) by {
            assert forall|i: int, k: int| 0 <= i < k < rest.len() implies (#[trigger] rest[i]).1 <= (
            #[trigger] rest[k]).0 by {
                assert(submatches[i + 1].1 <= submatches[k + 1].0);
            }
        }
        lemma_styled_from_joined(line, rest, match_end as int, match_style, non_match_style);
        lemma_pieces_join(line, match_start as int, match_end as int, len);
        lemma_pieces_join(line, start, match_start as int, len);
        lemma_joined(matched, after);
        if start < match_start {
            lemma_joined(before, seq![matched] + after);
            assert(styled_from(line, submatches, start, match_style, non_match_style) =~= seq![
                before,
            ] + (seq![matched] + after));
        } else {
            assert(styled_from(line, submatches, start, match_style, non_match_style) =~= seq![
                matched,
            ] + after);
        }
    }
}

/// Styling neither drops nor repeats nor moves any of a line: where the
/// submatches stand in order, the pieces make up the line.
pub proof fn law_sections_make_up_the_line<S>(
    line: Seq<char>,
    submatches: Seq<(usize, usize)>,
    match_style: S,
    non_match_style: S,
)
    requires
        are_pieces(line, submatches),
        in_order(submatches),
    ensures
        joined(styled_from(line, submatches, 0, match_style, non_match_style)) == line,
{
    lemma_whole_piece(line);
    lemma_styled_from_joined(line, submatches, 0, match_style, non_match_style);
}

/// Styling by colour keeps the text.
pub proof fn law_colors_keep_the_text<S>(
    ansi_sections: Seq<AnsiSection>,
    match_style: S,
    non_match_style: S,
)
    ensures
        joined(styled_by_color(ansi_sections, match_style, non_match_style))
            == ansi_sections.map_values(|section: AnsiSection| section.text@).flatten(),
{
    assert(styled_by_color(ansi_sections, match_style, non_match_style).map_values(
        |section: (S, Seq<char>)| section.1,
    ) =~= ansi_sections.map_values(|section: AnsiSection| section.text@));
}

/// Every submatch is displayed as a piece of its own, in the style of matches.
pub proof fn law_submatches_are_styled<S>(
    line: Seq<char>,
    submatches: Seq<(usize, usize)>,
    start: int,
    match_style: S,
    non_match_style: S,
    i: int,
)
    requires
        0 <= i < submatches.len(),
    ensures
        styled_from(line, submatches, start, match_style, non_match_style).contains(
            (match_style, piece(line, submatches[i].0 as int, submatches[i].1 as int)),
        ),
    decreases submatches.len(),
{
    let sections = styled_from(line, submatches, start, match_style, non_match_style);
    let (match_start, match_end) = submatches[0];
    let before = unmatched(line, start, match_start as int, non_match_style);
    let wanted = (match_style, piece(line, submatches[i].0 as int, submatches[i].1 as int));
    if i == 0 {
        assert(sections[before.len() as int] == wanted);
    } else {
        let rest = submatches.drop_first();
        law_submatches_are_styled(
            line,
            rest,
            match_end as int,
            match_style,
            non_match_style,
            i - 1,
        );
        assert(rest[i - 1] == submatches[i]);
        let after = styled_from(line, rest, match_end as int, match_style, non_match_style);
        let k = choose|k: int| 0 <= k < after.len() && after[k] == wanted;
        assert(sections[before.len() + 1 + k] == wanted);
    }
}

/// In a match that gives no line number, or gives it in the shortest way, the code
/// stands right after the prefix that [`raw_code_offset`] measures.
pub proof fn law_code_follows_the_prefix(match_line: LineParts)
    requires
        match_line.separator == ':',
        match_line.number matches Some(digits) ==> exists|n: usize|
            digits == #[trigger] decimal(n as nat),
    ensures
        written(match_line) == match_prefix(grep_line_of(match_line)) + match_line.code,
{
    if let Some(digits) = match_line.number {
        let n = choose|n: usize| digits == #[trigger] decimal(n as nat);
        law_number_reads_back(n);
    }
    assert(written(match_line) =~= match_prefix(grep_line_of(match_line)) + match_line.code);
}

/// Where the submatches stand among the pieces from any place on.
proof fn lemma_places<S>(
    line: Seq<char>,
    submatches: Seq<(usize, usize)>,
    start: int,
    match_style: S,
    non_match_style: S,
) -> (found: (Seq<int>, Seq<int>))
    ensures
        ({
            let (gaps, places) = found;
            let sections = styled_from(line, submatches, start, match_style, non_match_style);
            let n = submatches.len() as int;
            &&& gaps.len() == n + 1
            &&& places.len() == n + 1
            &&& gaps[0] == 0
            &&& places[n] == sections.len()
            &&& forall|k: int|
                0 <= k < n ==> {
                    &&& 0 <= #[trigger] places[k] < sections.len()
                    &&& sections[places[k]] == (
                        match_style,
                        piece(line, submatches[k].0 as int, submatches[k].1 as int),
                    )
                    &&& gaps[k + 1] == places[k] + 1
                }
            &&& forall|k: int|
                0 <= k <= n ==> ({
                    let from = if k == 0 {
                        start
                    } else {
                        submatches[k - 1].1 as int
                    };
                    let to = if k == n {
                        byte_len(line) as int
                    } else {
                        submatches[k].0 as int
                    };
                    &&& #[trigger] places[k] == (if from < to {
                        gaps[k] + 1
                    } else {
                        gaps[k]
                    })
                    &&& from < to ==> 0 <= gaps[k] < sections.len() && sections[gaps[k]] == (
                        non_match_style,
                        piece(line, from, to),
                    )
                })
        }),
    decreases submatches.len(),
{
    let sections = styled_from(line, submatches, start, match_style, non_match_style);
    if submatches.len() == 0 {
        (seq![0], seq![sections.len() as int])
    } else {
        let n = submatches.len() as int;
        let (match_start, match_end) = submatches[0];
        let rest = submatches.drop_first();
        let before = unmatched(line, start, match_start as int, non_match_style);
        let after = styled_from(line, rest, match_end as int, match_style, non_match_style);
        let (later_gaps, later) = lemma_places(
            line,
            rest,
            match_end as int,
            match_style,
            non_match_style,
        );
        let first = before.len() as int;
        let gaps = seq![0] + later_gaps.map_values(|gap: int| first + 1 + gap);
        let places = seq![first] + later.map_values(|place: int| first + 1 + place);
        assert(forall|j: int|
            0 <= j < after.len() ==> sections[first + 1 + j] == #[trigger] after[j]);
        assert forall|k: int| 0 <= k < n implies {
            &&& 0 <= #[trigger] places[k] < sections.len()
            &&& sections[places[k]] == (
                match_style,
                piece(line, submatches[k].0 as int, submatches[k].1 as int),
            )
            &&& gaps[k + 1] == places[k] + 1
        } by {
            if k > 0 {
                assert(places[k] == first + 1 + later[k - 1]);
                assert(rest[k - 1] == submatches[k]);
                assert(sections[places[k]] == after[later[k - 1]]);
            }
        }
        assert forall|k: int| 0 <= k <= n implies ({
            let from = if k == 0 {
                start
            } else {
                submatches[k - 1].1 as int
            };
            let to = if k == n {
                byte_len(line) as int
            } else {
                submatches[k].0 as int
            };
            &&& #[trigger] places[k] == (if from < to {
                gaps[k] + 1
            } else {
                gaps[k]
            })
            &&& from < to ==> 0 <= gaps[k] < sections.len() && sections[gaps[k]] == (
                non_match_style,
                piece(line, from, to),
            )
        }) by {
            if k > 0 {
                assert(places[k] == first + 1 + later[k - 1]);
                assert(gaps[k] == first + 1 + later_gaps[k - 1]);
                if k > 1 {
                    assert(rest[k - 2] == submatches[k - 1]);
                }
                if k < n {
                    assert(rest[k - 1] == submatches[k]);
                }
                if 0 <= later_gaps[k - 1] < after.len() {
                    assert(sections[gaps[k]] == after[later_gaps[k - 1]]);
                }
            }
        }
        (gaps, places)
    }
}

/// The pieces of a line one by one. Of the two sequences found, the second tells
/// which pieces are the submatches, in their order, and ends with the number of
/// all pieces; the first tells which piece may stand before each of them and
/// after the last: one in the style of what does not match, with all that stands
/// there, unless nothing does.
pub proof fn law_sections_one_by_one<S>(
    line: Seq<char>,
    submatches: Seq<(usize, usize)>,
    match_style: S,
    non_match_style: S,
) -> (found: (Seq<int>, Seq<int>))
    ensures
        ({
            let (gaps, places) = found;
            let sections = styled_from(line, submatches, 0, match_style, non_match_style);
            let n = submatches.len() as int;
            &&& gaps.len() == n + 1
            &&& places.len() == n + 1
            &&& gaps[0] == 0
            &&& places[n] == sections.len()
            &&& forall|k: int|
                0 <= k < n ==> {
                    &&& 0 <= #[trigger] places[k] < sections.len()
                    &&& sections[places[k]] == (
                        match_style,
                        piece(line, submatches[k].0 as int, submatches[k].1 as int),
                    )
                    &&& gaps[k + 1] == places[k] + 1
                }
            &&& forall|k: int|
                0 <= k <= n ==> ({
                    let from = if k == 0 {
                        0
                    } else {
                        submatches[k - 1].1 as int
                    };
                    let to = if k == n {
                        byte_len(line) as int
                    } else {
                        submatches[k].0 as int
                    };
                    &&& #[trigger] places[k] == (if from < to {
                        gaps[k] + 1
                    } else {
                        gaps[k]
                    })
                    &&& from < to ==> 0 <= gaps[k] < sections.len() && sections[gaps[k]] == (
                        non_match_style,
                        piece(line, from, to),
                    )
                })
        }),
{
    lemma_places(line, submatches, 0, match_style, non_match_style)
}

/// The pieces in the style of matches are the submatches, from any place on.
proof fn lemma_matched_sections<S>(
    line: Seq<char>,
    submatches: Seq<(usize, usize)>,
    start: int,
    match_style: S,
    non_match_style: S,
)
    requires
        match_style != non_match_style,
    ensures
        ({
            let sections = styled_from(line, submatches, start, match_style, non_match_style);
            &&& sections.filter(|section: (S, Seq<char>)| section.0 == match_style)
                == submatches.map_values(
                |range: (usize, usize)| (match_style, piece(line, range.0 as int, range.1 as int)),
            )
            &&& forall|j: int|
                0 <= j < sections.len() ==> (#[trigger] sections[j]).0 == match_style
                    || sections[j].0 == non_match_style
        }),
    decreases submatches.len(),
{
    let sections = styled_from(line, submatches, start, match_style, non_match_style);
    let is_match = |section: (S, Seq<char>)| section.0 == match_style;
    let styled = |range: (usize, usize)|
        (match_style, piece(line, range.0 as int, range.1 as int));
    reveal(Seq::filter);
    reveal_with_fuel(Seq::filter, 2);
    let to = if submatches.len() == 0 {
        byte_len(line) as int
    } else {
        submatches[0].0 as int
    };
    let before = unmatched(line, start, to, non_match_style);
    assert(before.drop_last() =~= Seq::<(S, Seq<char>)>::empty() || before.len() == 0);
    assert(before.filter(is_match) =~= Seq::<(S, Seq<char>)>::empty());
    if submatches.len() == 0 {
        assert(submatches.map_values(styled) =~= Seq::<(S, Seq<char>)>::empty());
    } else {
        let (match_start, match_end) = submatches[0];
        let rest = submatches.drop_first();
        let matched = seq![styled(submatches[0])];
        let after = styled_from(line, rest, match_end as int, match_style, non_match_style);
        lemma_matched_sections(line, rest, match_end as int, match_style, non_match_style);
        assert(matched.drop_last() =~= Seq::<(S, Seq<char>)>::empty());
        assert(matched.filter(is_match) =~= matched);
        Seq::filter_distributes_over_add(before, matched, is_match);
        Seq::filter_distributes_over_add(before + matched, after, is_match);
        assert(sections =~= before + matched + after);
        assert(sections.filter(is_match) =~= submatches.map_values(styled));
        assert forall|j: int| 0 <= j < sections.len() implies (#[trigger] sections[j]).0
            == match_style || sections[j].0 == non_match_style by {
            if j >= before.len() + 1 {
                assert(sections[j] == after[j - before.len() - 1]);
            }
        }
    }
}

/// The pieces in the style of matches are the submatches, one for one and in their
/// order; all the other pieces are in the style of what does not match.
pub proof fn law_only_submatches_are_styled_as_matches<S>(
    line: Seq<char>,
    submatches: Seq<(usize, usize)>,
    match_style: S,
    non_match_style: S,
)
    requires
        match_style != non_match_style,
    ensures
        ({
            let sections = styled_from(line, submatches, 0, match_style, non_match_style);
            &&& sections.filter(|section: (S, Seq<char>)| section.0 == match_style)
                == submatches.map_values(
                |range: (usize, usize)| (match_style, piece(line, range.0 as int, range.1 as int)),
            )
            &&& forall|j: int|
                0 <= j < sections.len() ==> (#[trigger] sections[j]).0 == match_style
                    || sections[j].0 == non_match_style
        }),
{
    lemma_matched_sections(line, submatches, 0, match_style, non_match_style);
}

/// One more piece adds its text.
proof fn lemma_joined_take<S>(sections: Seq<(S, Seq<char>)>, j: int)
    requires
        0 <= j < sections.len(),
    ensures
        joined(sections.take(j + 1)) == joined(sections.take(j)) + sections[j].1,
{
    let texts = sections.map_values(|section: (S, Seq<char>)| section.1);
    let shorter = sections.take(j).map_values(|section: (S, Seq<char>)| section.1);
    assert(sections.take(j + 1).map_values(|section: (S, Seq<char>)| section.1) =~= shorter.push(
        sections[j].1,
    ));
    shorter.lemma_flatten_push(sections[j].1);
}

/// Where the submatches stand in order, a piece in the style of matches takes the
/// bytes of a submatch in the line, which is the one found, and any other piece
/// takes bytes that belong to none.
pub proof fn law_matched_bytes_are_submatches<S>(
    line: Seq<char>,
    submatches: Seq<(usize, usize)>,
    match_style: S,
    non_match_style: S,
    j: int,
) -> (k: int)
    requires
        are_pieces(line, submatches),
        in_order(submatches),
        match_style != non_match_style,
        0 <= j < styled_from(line, submatches, 0, match_style, non_match_style).len(),
    ensures
        ({
            let sections = styled_from(line, submatches, 0, match_style, non_match_style);
            let start = byte_len(joined(sections.take(j)));
            let end = byte_len(joined(sections.take(j + 1)));
            if sections[j].0 == match_style {
                &&& 0 <= k < submatches.len()
                &&& submatches[k].0 == start
                &&& submatches[k].1 == end
            } else {
                &&& sections[j].0 == non_match_style
                &&& start < end
                &&& forall|i: int|
                    0 <= i < submatches.len() ==> (#[trigger] submatches[i]).1 <= start || end
                        <= submatches[i].0
            }
        }),
{
    lemma_whole_piece(line);
    lemma_matched_bytes(line, submatches, 0, match_style, non_match_style, j)
}

/// The bytes of a piece, counted from any place on.
proof fn lemma_matched_bytes<S>(
    line: Seq<char>,
    submatches: Seq<(usize, usize)>,
    start: int,
    match_style: S,
    non_match_style: S,
    j: int,
) -> (k: int)
    requires
        are_pieces(line, submatches),
        in_order(submatches),
        has_piece(line, start, start),
        forall|i: int| 0 <= i < submatches.len() ==> start <= (#[trigger] submatches[i]).0,
        match_style != non_match_style,
        0 <= j < styled_from(line, submatches, start, match_style, non_match_style).len(),
    ensures
        ({
            let sections = styled_from(line, submatches, start, match_style, non_match_style);
            let from = start + byte_len(joined(sections.take(j)));
            let to = start + byte_len(joined(sections.take(j + 1)));
            if sections[j].0 == match_style {
                &&& 0 <= k < submatches.len()
                &&& submatches[k].0 == from
                &&& submatches[k].1 == to
            } else {
                &&& sections[j].0 == non_match_style
                &&& from < to
                &&& forall|i: int|
                    0 <= i < submatches.len() ==> (#[trigger] submatches[i]).1 <= from || to
                        <= submatches[i].0
            }
        }),
    decreases submatches.len(),
{
    let sections = styled_from(line, submatches, start, match_style, non_match_style);
    let len = byte_len(line) as int;
    let to = if submatches.len() == 0 {
        len
    } else {
        submatches[0].0 as int
    };
    let before = unmatched(line, start, to, non_match_style);
    lemma_whole_piece(line);
    assert(has_piece(line, start, to));
    law_a_piece_is_a_cut(line, start, to);
    lemma_joined_take(sections, j);
    assert(sections.take(0) =~= Seq::<(S, Seq<char>)>::empty());
    lemma_joined((match_style, line), Seq::<(S, Seq<char>)>::empty());
    law_bytes_add_up(joined(sections.take(j)), sections[j].1, 'a');
    if before.len() == 1 {
        assert(sections[0] == before[0]);
        lemma_joined_take(sections, 0);
        law_bytes_add_up(joined(sections.take(0)), sections[0].1, 'a');
    }
    if submatches.len() == 0 || j < before.len() {
        assert forall|i: int| 0 <= i < submatches.len() implies to <= (
        #[trigger] submatches[i]).0 by {
            if i > 0 {
                assert(submatches[0].1 <= submatches[i].0);
            }
        }
        0
    } else {
        let (match_start, match_end) = submatches[0];
        let rest = submatches.drop_first();
        let after = styled_from(line, rest, match_end as int, match_style, non_match_style);
        let first = before.len() as int;
        law_a_piece_is_a_cut(line, match_start as int, match_end as int);
        assert(sections[first] == (
            match_style,
            piece(line, match_start as int, match_end as int),
        ));
        lemma_joined_take(sections, first);
        law_bytes_add_up(joined(sections.take(first)), sections[first].1, 'a');
        assert(start + byte_len(joined(sections.take(first))) == match_start);
        assert(start + byte_len(joined(sections.take(first + 1))) == match_end);
        if j == first {
            0
        } else {
            assert forall|i: int| 0 <= i < rest.len() implies {
                &&& has_piece(line, (#[trigger] rest[i]).0 as int, rest[i].1 as int)
                &&& match_end <= rest[i].0
            } by {
                assert(rest[i] == submatches[i + 1]);
                assert(submatches[0].1 <= submatches[i + 1].0);
            }
            assert(in_order(rest)) by {
                assert forall|i: int, k: int| 0 <= i < k < rest.len() implies (
                #[trigger] rest[i]).1 <= (#[trigger] rest[k]).0 by {
                    assert(submatches[i + 1].1 <= submatches[k + 1].0);
                }
            }
            let later = j - first - 1;
            let k = lemma_matched_bytes(
                line,
                rest,
                match_end as int,
                match_style,
                non_match_style,
                later,
            );
            assert(sections.skip(first + 1) =~= after);
            lemma_joined_after(sections, after, first + 1, later);
            lemma_joined_after(sections, after, first + 1, later + 1);
            assert(sections[j] == after[later]);
            if k >= 0 && k < rest.len() {
                assert(rest[k] == submatches[k + 1]);
            }
            let from = match_end + byte_len(joined(after.take(later)));
            let to = match_end + byte_len(joined(after.take(later + 1)));
            if sections[j].0 != match_style {
                assert forall|i: int| 0 <= i < submatches.len() implies (
                #[trigger] submatches[i]).1 <= from || to <= submatches[i].0 by {
                    if i > 0 {
                        assert(rest[i - 1] == submatches[i]);
                    }
                }
            }
            k + 1
        }
    }
}

/// The text of pieces is that of the first ones and that of those after them.
proof fn lemma_joined_after<S>(
    sections: Seq<(S, Seq<char>)>,
    after: Seq<(S, Seq<char>)>,
    first: int,
    later: int,
)
    requires
        0 <= first,
        0 <= later <= after.len(),
        sections.len() == first + after.len(),
        sections.skip(first) == after,
    ensures
        joined(sections.take(first + later)) == joined(sections.take(first)) + joined(
            after.take(later),
        ),
        byte_len(joined(sections.take(first + later))) == byte_len(joined(sections.take(first)))
            + byte_len(joined(after.take(later))),
    decreases later,
{
    if later == 0 {
        lemma_joined(sections[0], Seq::<(S, Seq<char>)>::empty());
        assert(after.take(0) =~= Seq::<(S, Seq<char>)>::empty());
        assert(joined(after.take(0)) =~= Seq::<char>::empty());
        assert(joined(sections.take(first)) + joined(after.take(0)) =~= joined(
            sections.take(first),
        ));
    } else {
        lemma_joined_after(sections, after, first, later - 1);
        lemma_joined_take(sections, first + later - 1);
        lemma_joined_take(after, later - 1);
        assert(sections[first + later - 1] == sections.skip(first)[later - 1]);
        assert(joined(sections.take(first + later)) =~= joined(sections.take(first)) + joined(
            after.take(later),
        ));
    }
    law_bytes_add_up(joined(sections.take(first)), joined(after.take(later)), 'a');
}

/// Styling by colour gives each piece of the grep tool, whatever its text, the
/// style of matches if the tool coloured it, and the other style if it did not.
pub proof fn law_colors_decide<S>(
    ansi_sections: Seq<AnsiSection>,
    match_style: S,
    non_match_style: S,
)
    ensures
        ({
            let sections = styled_by_color(ansi_sections, match_style, non_match_style);
            &&& sections.len() == ansi_sections.len()
            &&& forall|i: int|
                0 <= i < ansi_sections.len() ==> {
                    &&& ansi_sections[i].has_foreground ==> (#[trigger] sections[i]).0
                        == match_style
                    &&& !ansi_sections[i].has_foreground ==> sections[i].0 == non_match_style
                    &&& sections[i].1 == ansi_sections[i].text@
                }
        }),
{
}

/// The code of a match starts after the bytes of the file name, one for the colon,
/// and, where there is a line number, one for each of its digits and for a second
/// colon.
pub proof fn law_code_offset(grep: GrepLineView)
    ensures
        byte_len(match_prefix(grep)) == byte_len(grep.path) + (match grep.line_number {
            Some(n) => decimal(n as nat).len() + 2,
            None => 1,
        }),
{
    let colon = seq![':'];
    law_bytes_add_up(grep.path, colon, ':');
    if let Some(n) = grep.line_number {
        let digits = decimal(n as nat);
        lemma_decimal(n as nat);
        lemma_digit_bytes(digits);
        law_bytes_add_up(grep.path + colon, digits, ':');
        law_bytes_add_up(grep.path + colon + digits, colon, ':');
    }
}

/// A digit takes one byte.
proof fn lemma_digit_bytes(digits: Seq<char>)
    requires
        all_digits(digits),
    ensures
        byte_len(digits) == digits.len(),
    decreases digits.len(),
{
    if digits.len() == 0 {
        assert(digits =~= Seq::<char>::empty());
        law_bytes_add_up(digits, digits, '0');
    } else {
        lemma_digit_bytes(digits.drop_last());
        assert(is_digit(digits.last()));
        law_bytes_add_up(digits.drop_last(), seq![digits.last()], digits.last());
        assert(digits =~= digits.drop_last() + seq![digits.last()]);
    }
}

/// The content of the styles of a line is those styles.
pub proof fn law_style_sections_content<S>(style: S, sections: Vec<(S, &str)>)
    ensures
        StyleSectionSpecifier::Style(style)@ == StyleSections::Style(style),
        ({
            let content = StyleSectionSpecifier::StyleSections(sections)@->Sections_0;
            &&& StyleSectionSpecifier::StyleSections(sections)@ is Sections
            &&& content.len() == sections@.len()
            &&& forall|i: int|
                0 <= i < sections@.len() ==> (#[trigger] content[i]).0 == sections@[i].0
                    && content[i].1 == sections@[i].1@
        }),
{
}

/// The submatches of a line can be styled if and only if each of them starts and
/// ends within the line, in this order and between two characters.
pub proof fn law_what_can_be_styled(line: Seq<char>, submatches: Seq<(usize, usize)>)
    ensures
        are_pieces(line, submatches) <==> forall|i: int|
            0 <= i < submatches.len() ==> {
                &&& (#[trigger] submatches[i]).0 <= submatches[i].1 <= byte_len(line)
                &&& exists|k: int|
                    0 <= k <= line.len() && byte_len(#[trigger] line.take(k)) == submatches[i].0
                &&& exists|k: int|
                    0 <= k <= line.len() && byte_len(#[trigger] line.take(k)) == submatches[i].1
            },
{
    assert forall|start: int, end: int|
        #[trigger] has_piece(line, start, end) <==> {
            &&& 0 <= start <= end <= byte_len(line)
            &&& exists|k: int| 0 <= k <= line.len() && byte_len(#[trigger] line.take(k)) == start
            &&& exists|k: int| 0 <= k <= line.len() && byte_len(#[trigger] line.take(k)) == end
        } by {
        lemma_has_piece(line, start, end);
    }
}

/// A piece starts and ends between two characters.
proof fn lemma_has_piece(line: Seq<char>, start: int, end: int)
    ensures
        has_piece(line, start, end) <==> {
            &&& 0 <= start <= end <= byte_len(line)
            &&& exists|k: int| 0 <= k <= line.len() && byte_len(#[trigger] line.take(k)) == start
            &&& exists|k: int| 0 <= k <= line.len() && byte_len(#[trigger] line.take(k)) == end
        },
{
    if has_piece(line, start, end) {
        let (before, after) = law_a_piece_is_a_cut(line, start, end);
        let part = piece(line, start, end);
        let first = before.len() as int;
        let last = first + part.len();
        assert(line.take(first) =~= before);
        assert(line.take(last) =~= before + part);
        law_bytes_add_up(before, part, 'a');
        assert(byte_len(line.take(first)) == start);
        assert(byte_len(line.take(last)) == end);
    }
    if 0 <= start <= end <= byte_len(line) && (exists|k: int|
        0 <= k <= line.len() && byte_len(#[trigger] line.take(k)) == start) && (exists|k: int|
        0 <= k <= line.len() && byte_len(#[trigger] line.take(k)) == end) {
        let first = choose|k: int|
            0 <= k <= line.len() && byte_len(#[trigger] line.take(k)) == start;
        let last = choose|k: int| 0 <= k <= line.len() && byte_len(#[trigger] line.take(k)) == end;
        let nothing = Seq::<char>::empty();
        law_a_cut_is_a_piece(line.take(first), nothing, line.skip(first));
        law_a_cut_is_a_piece(line.take(last), nothing, line.skip(last));
        law_bytes_add_up(nothing, nothing, 'a');
        assert(line.take(first) + nothing + line.skip(first) =~= line);
        assert(line.take(last) + nothing + line.skip(last) =~= line);
    }
}

} // verus!
