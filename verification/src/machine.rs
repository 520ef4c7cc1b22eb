//! What to do with a line that may be grep output.
//!
//! [`StateMachine::handle_grep_line`] decides it. Where the line is displayed, the
//! terminal side asks [`StateMachine::language`] for the language of the code,
//! writes what the [`GrepStep`] says, expands tabs where it is asked to, and hands
//! the text back to learn how to paint the code.

use vstd::prelude::*;

use crate::decimal::decimal;
use crate::format::{is_separator, law_plain_line, line_type_of, read_line};
use crate::graphemes::{grapheme_clusters, graphemes, texts};
use crate::line::{grep_line_view, text_of, GrepLine, GrepLineView, LineType};
use crate::output_config::{make_output_config, output_config, GrepOutputConfig};
use crate::parse::{is_json, is_ripgrep_json, parse_grep_line, parsed_line};
use crate::process::{is_grep, process_ref, CallingProcess};
use crate::sections::{
    are_pieces, get_code_style_sections, law_code_offset, make_style_sections, match_prefix,
    raw_code_offset, styled_by_color, styled_from, AnsiSection, StyleSectionSpecifier,
    StyleSections,
};
use crate::text::byte_len;

verus! {

/// What kind of output is being read.
#[derive(Clone, Copy, Debug, PartialEq, Eq, Structural)]
pub enum State {
    /// Not known yet.
    Unknown,
    /// Grep output.
    Grep,
    /// Some other output, such as a diff.
    Other,
}

/// What the user has chosen.
pub struct Config<S> {
    /// Mark lines, so that one can jump from one to the next.
    pub navigate: bool,
    /// What stands after the file name and the line number, or `keep` for the
    /// separator that the grep tool writes.
    pub grep_separator_symbol: String,
    /// The language of files that do not tell theirs.
    pub default_language: Option<String>,
    pub grep_file_style: S,
    pub grep_line_number_style: S,
    pub grep_match_word_style: S,
    pub grep_match_line_style: S,
    pub grep_context_line_style: S,
}

/// The state of a run, with the line that is being read.
pub struct StateMachine<S> {
    pub state: State,
    /// The line without ANSI escape sequences.
    pub line: String,
    /// The line as it was read.
    pub raw_line: String,
    pub config: Config<S>,
    /// The command that writes the lines.
    pub calling_process: Option<CallingProcess>,
}

/// A header to write, as that of a diff hunk is written.
#[derive(Debug, PartialEq)]
pub struct HunkHeader {
    pub code: String,
    /// The line numbers of the hunk and their counts.
    pub line_numbers: Vec<(usize, usize)>,
    pub line: String,
    pub path: String,
}

/// A file name and a line number to write.
#[derive(Debug, PartialEq)]
pub struct FilePath<S> {
    pub line_number: Option<usize>,
    pub path: String,
    pub pad_line_number: bool,
    /// What stands between the two.
    pub separator: String,
    /// Whether it stands at the end too.
    pub terminate_with_separator: bool,
    pub file_style: Option<S>,
    pub line_number_style: Option<S>,
}

/// What is still to be done before the code of a line can be painted.
#[derive(Debug, PartialEq)]
pub enum CodeStep {
    /// Expand the tabs among these characters of the code; then ask
    /// [`StateMachine::paint_submatches`].
    ExpandCode { graphemes: Vec<String>, submatches: Vec<(usize, usize)> },
    /// Expand the tabs among these characters of the raw line, and hand it back to
    /// [`StateMachine::set_raw_line`]. Find the byte in it that stands `offset`
    /// bytes from its start if escape sequences are not counted, and the pieces of
    /// the text after it; then ask [`StateMachine::paint_colored`].
    ExpandRawLine { graphemes: Vec<String>, offset: usize, code: String },
    /// Nothing: ask [`StateMachine::paint_context`].
    Paint { code: String },
}

/// A line to display.
#[derive(Debug, PartialEq)]
pub struct LineDisplay<S> {
    /// What to write first, if anything.
    pub marker: Option<&'static str>,
    /// What to write next.
    pub file_path: FilePath<S>,
    /// How to paint the code after it.
    pub code: CodeStep,
}

/// What to do with a line.
#[derive(Debug, PartialEq)]
pub enum GrepStep<S> {
    /// It is no grep output and left to others.
    NotHandled,
    /// It is done with: nothing is displayed.
    Ignored,
    /// Write a header.
    Header(HunkHeader),
    /// Write a line.
    Line(LineDisplay<S>),
}

/// Code to paint: a line, its styles, and the state to paint it in.
#[derive(Debug, PartialEq)]
pub struct PaintedLine<'a, S> {
    pub line: String,
    pub style_sections: StyleSectionSpecifier<'a, S>,
    pub state: State,
}

/// The content of a [`HunkHeader`].
#[verifier::ext_equal]
pub struct HunkHeaderView {
    pub code: Seq<char>,
    pub line_numbers: Seq<(usize, usize)>,
    pub line: Seq<char>,
    pub path: Seq<char>,
}

/// The content of a [`FilePath`].
#[verifier::ext_equal]
pub struct FilePathView<S> {
    pub line_number: Option<usize>,
    pub path: Seq<char>,
    pub pad_line_number: bool,
    pub separator: Seq<char>,
    pub terminate_with_separator: bool,
    pub file_style: Option<S>,
    pub line_number_style: Option<S>,
}

/// The content of a [`CodeStep`].
#[verifier::ext_equal]
pub enum CodeStepView {
    ExpandCode { graphemes: Seq<Seq<char>>, submatches: Seq<(usize, usize)> },
    ExpandRawLine { graphemes: Seq<Seq<char>>, offset: nat, code: Seq<char> },
    Paint { code: Seq<char> },
}

/// The content of a [`LineDisplay`].
#[verifier::ext_equal]
pub struct LineDisplayView<S> {
    pub marker: Option<Seq<char>>,
    pub file_path: FilePathView<S>,
    pub code: CodeStepView,
}

/// The content of a [`GrepStep`].
#[verifier::ext_equal]
pub enum GrepStepView<S> {
    NotHandled,
    Ignored,
    Header(HunkHeaderView),
    Line(LineDisplayView<S>),
}

/// The content of a [`PaintedLine`].
#[verifier::ext_equal]
pub struct PaintedLineView<S> {
    pub line: Seq<char>,
    pub style_sections: StyleSections<S>,
    pub state: State,
}

impl View for HunkHeader {
    type V = HunkHeaderView;

    open spec fn view(&self) -> HunkHeaderView {
        HunkHeaderView {
            code: self.code@,
            line_numbers: self.line_numbers@,
            line: self.line@,
            path: self.path@,
        }
    }
}

impl<S> View for FilePath<S> {
    type V = FilePathView<S>;

    open spec fn view(&self) -> FilePathView<S> {
        FilePathView {
            line_number: self.line_number,
            path: self.path@,
            pad_line_number: self.pad_line_number,
            separator: self.separator@,
            terminate_with_separator: self.terminate_with_separator,
            file_style: self.file_style,
            line_number_style: self.line_number_style,
        }
    }
}

impl View for CodeStep {
    type V = CodeStepView;

    open spec fn view(&self) -> CodeStepView {
        match self {
            CodeStep::ExpandCode { graphemes, submatches } => CodeStepView::ExpandCode {
                graphemes: texts(graphemes@),
                submatches: submatches@,
            },
            CodeStep::ExpandRawLine { graphemes, offset, code } => CodeStepView::ExpandRawLine {
                graphemes: texts(graphemes@),
                offset: *offset as nat,
                code: code@,
            },
            CodeStep::Paint { code } => CodeStepView::Paint { code: code@ },
        }
    }
}

impl<S> View for LineDisplay<S> {
    type V = LineDisplayView<S>;

    open spec fn view(&self) -> LineDisplayView<S> {
        LineDisplayView {
            marker: match self.marker {
                Some(marker) => Some(marker@),
                None => None,
            },
            file_path: self.file_path@,
            code: self.code@,
        }
    }
}

impl<S> View for GrepStep<S> {
    type V = GrepStepView<S>;

    open spec fn view(&self) -> GrepStepView<S> {
        match self {
            GrepStep::NotHandled => GrepStepView::NotHandled,
            GrepStep::Ignored => GrepStepView::Ignored,
            GrepStep::Header(header) => GrepStepView::Header(header@),
            GrepStep::Line(line) => GrepStepView::Line(line@),
        }
    }
}

impl<'a, S> View for PaintedLine<'a, S> {
    type V = PaintedLineView<S>;

    open spec fn view(&self) -> PaintedLineView<S> {
        PaintedLineView {
            line: self.line@,
            style_sections: self.style_sections@,
            state: self.state,
        }
    }
}

/// What is written before a line, if anything, to mark it.
pub open spec fn navigate_marker(
    navigate: bool,
    line_type: LineType,
    add_navigate_marker_to_matches: bool,
) -> Option<Seq<char>> {
    if !navigate {
        None
    } else if !add_navigate_marker_to_matches {
        Some(""@)
    } else if line_type == LineType::Match {
        Some("• "@)
    } else {
        Some("  "@)
    }
}

/// What stands after the file name and after the line number.
pub open spec fn separator(symbol: Seq<char>, line_type: LineType) -> Seq<char> {
    if symbol == "keep"@ {
        match line_type {
            LineType::Match => ":"@,
            LineType::Context => "-"@,
            LineType::ContextHeader => "="@,
            LineType::Ignore => ""@,
        }
    } else {
        symbol
    }
}

/// How the code of a line is painted: a match by the byte ranges that match, where
/// the grep tool tells them, and otherwise by the colours it gave them; other
/// lines as they are.
pub open spec fn code_step(grep_line: GrepLineView, raw_line: Seq<char>) -> CodeStepView {
    if grep_line.line_type == LineType::Match {
        match grep_line.submatches {
            Some(submatches) => CodeStepView::ExpandCode {
                graphemes: grapheme_clusters(grep_line.code),
                submatches,
            },
            None => CodeStepView::ExpandRawLine {
                graphemes: grapheme_clusters(raw_line),
                offset: byte_len(match_prefix(grep_line)),
                code: grep_line.code,
            },
        }
    } else {
        CodeStepView::Paint { code: grep_line.code }
    }
}

/// Whether what is handed out to be painted, or to have its tabs expanded first,
/// is all of the code, and all of the raw line.
pub open spec fn hands_out_all(step: CodeStepView, code: Seq<char>, raw_line: Seq<char>) -> bool {
    match step {
        CodeStepView::ExpandCode { graphemes, submatches } => graphemes.flatten() == code,
        CodeStepView::ExpandRawLine { graphemes, offset, code: painted } => graphemes.flatten()
            == raw_line && painted == code,
        CodeStepView::Paint { code: painted } => painted == code,
    }
}

/// How a line of grep output is displayed.
pub open spec fn display<S>(
    config: Config<S>,
    output: GrepOutputConfig,
    line: Seq<char>,
    raw_line: Seq<char>,
    grep_line: GrepLineView,
) -> GrepStepView<S> {
    if grep_line.line_type == LineType::ContextHeader
        && output.render_context_header_as_hunk_header {
        GrepStepView::Header(
            HunkHeaderView {
                code: grep_line.code,
                line_numbers: seq![
                    (
                        match grep_line.line_number {
                            Some(n) => n,
                            None => 0,
                        },
                        0,
                    ),
                ],
                line,
                path: grep_line.path,
            },
        )
    } else {
        GrepStepView::Line(
            LineDisplayView {
                marker: navigate_marker(
                    config.navigate,
                    grep_line.line_type,
                    output.add_navigate_marker_to_matches,
                ),
                file_path: FilePathView {
                    line_number: grep_line.line_number,
                    path: grep_line.path,
                    pad_line_number: output.pad_line_number,
                    separator: separator(config.grep_separator_symbol@, grep_line.line_type),
                    terminate_with_separator: true,
                    file_style: Some(config.grep_file_style),
                    line_number_style: Some(config.grep_line_number_style),
                },
                code: code_step(grep_line, raw_line),
            },
        )
    }
}

impl<S> StateMachine<S> {
    /// What the current line says, if it may be grep output and can be read as
    /// such.
    pub open spec fn current_grep_line(&self, ripgrep_json: Option<GrepLineView>) -> Option<
        GrepLineView,
    > {
        if self.state == State::Grep || self.state == State::Unknown {
            parsed_line(self.line@, is_grep(process_ref(&self.calling_process)), ripgrep_json)
        } else {
            None
        }
    }

    /// What to do with the current line.
    pub open spec fn grep_step(&self, ripgrep_json: Option<GrepLineView>) -> GrepStepView<S> {
        match self.current_grep_line(ripgrep_json) {
            None => GrepStepView::NotHandled,
            Some(grep_line) => if grep_line.line_type == LineType::Ignore {
                GrepStepView::Ignored
            } else {
                display(
                    self.config,
                    output_config(process_ref(&self.calling_process)),
                    self.line@,
                    self.raw_line@,
                    grep_line,
                )
            },
        }
    }
}

impl<S: Copy> StateMachine<S> {
    /// Whether [`Self::handle_grep_line`] looks at what the current line says as
    /// `rg --json` output.
    pub fn wants_ripgrep_json(&self) -> (wants: bool)
        ensures
            wants == ((self.state == State::Grep || self.state == State::Unknown) && is_json(
                self.line@,
            )),
            !wants ==> forall|json: Option<GrepLineView>, other: Option<GrepLineView>|
                self.grep_step(json) == self.grep_step(other),
    {
        self.state != State::Other && is_ripgrep_json(self.line.as_str())
    }

    /// Decides what to do with the current line. If it is a line of grep output,
    /// grep output is what is being read from then on.
    ///
    /// `ripgrep_json` is what the line says if it is read as `rg --json` output. It
    /// is looked at only where [`Self::wants_ripgrep_json`] says so.
    pub fn handle_grep_line(&mut self, ripgrep_json: Option<GrepLine>) -> (step: GrepStep<S>)
        ensures
            step@ == old(self).grep_step(grep_line_view(ripgrep_json)),
            step@ matches GrepStepView::Line(display) ==> hands_out_all(
                display.code,
                old(self).current_grep_line(grep_line_view(ripgrep_json))->Some_0.code,
                old(self).raw_line@,
            ),
            final(self).state == (if step is Header || step is Line {
                State::Grep
            } else {
                old(self).state
            }),
            final(self).line == old(self).line,
            final(self).raw_line == old(self).raw_line,
            final(self).config == old(self).config,
            final(self).calling_process == old(self).calling_process,
    {
        let try_parse = match self.state {
            State::Grep | State::Unknown => true,
            State::Other => false,
        };
        if !try_parse {
            return GrepStep::NotHandled;
        }
        let parsed = parse_grep_line(
            self.line.as_str(),
            self.calling_process.as_ref(),
            ripgrep_json,
        );
        let grep_line = match parsed {
            None => return GrepStep::NotHandled,
            Some(grep_line) => grep_line,
        };
        if grep_line.line_type == LineType::Ignore {
            return GrepStep::Ignored;
        }
        let output = make_output_config(self.calling_process.as_ref());
        let step = self.display_step(grep_line, output);
        self.state = State::Grep;
        step
    }

    /// How a line of grep output is displayed.
    fn display_step(&self, grep_line: GrepLine, output: GrepOutputConfig) -> (step: GrepStep<S>)
        ensures
            step@ == display(self.config, output, self.line@, self.raw_line@, grep_line@),
            step is Header || step is Line,
            step@ matches GrepStepView::Line(display) ==> hands_out_all(
                display.code,
                grep_line@.code,
                self.raw_line@,
            ),
    {
        if grep_line.line_type == LineType::ContextHeader
            && output.render_context_header_as_hunk_header {
            let line_number: usize = match grep_line.line_number {
                Some(n) => n,
                None => 0,
            };
            let header = HunkHeader {
                code: text_of(&grep_line.code).to_owned(),
                line_numbers: vec![(line_number, 0)],
                line: self.line.clone(),
                path: text_of(&grep_line.path).to_owned(),
            };
            return GrepStep::Header(header);
        }
        let marker = if self.config.navigate {
            Some(
                if !output.add_navigate_marker_to_matches {
                    ""
                } else if grep_line.line_type == LineType::Match {
                    "• "
                } else {
                    "  "
                },
            )
        } else {
            None
        };
        let file_path = FilePath {
            line_number: grep_line.line_number,
            path: text_of(&grep_line.path).to_owned(),
            pad_line_number: output.pad_line_number,
            separator: self.separator_for(grep_line.line_type),
            terminate_with_separator: true,
            file_style: Some(self.config.grep_file_style),
            line_number_style: Some(self.config.grep_line_number_style),
        };
        let code = self.code_step_for(grep_line);
        GrepStep::Line(LineDisplay { marker, file_path, code })
    }

    /// What stands after the file name and after the line number.
    fn separator_for(&self, line_type: LineType) -> (text: String)
        ensures
            text@ == separator(self.config.grep_separator_symbol@, line_type),
    {
        let keep: String = "keep".to_owned();
        if self.config.grep_separator_symbol == keep {
            // grep, rg, and git grep use ":" for matching lines and "-" for
            // non-matching lines, and `git grep -W` uses "=" for a context header.
            let kept = match line_type {
                LineType::Match => ":",
                LineType::Context => "-",
                LineType::ContextHeader => "=",
                LineType::Ignore => "",
            };
            kept.to_owned()
        } else {
            // But ":" results in a "file/path:number:" construct that terminal
            // emulators are more likely to recognize and render as a link.
            self.config.grep_separator_symbol.clone()
        }
    }

    /// How the code of a line is painted.
    fn code_step_for(&self, grep_line: GrepLine) -> (step: CodeStep)
        ensures
            step@ == code_step(grep_line@, self.raw_line@),
            hands_out_all(step@, grep_line@.code, self.raw_line@),
    {
        let code: String = text_of(&grep_line.code).to_owned();
        if grep_line.line_type != LineType::Match {
            return CodeStep::Paint { code };
        }
        let offset = raw_code_offset(&grep_line);
        match grep_line.submatches {
            // Tabs are expanded at this late stage because they are escaped in
            // JSON, so expansion must come after JSON parsing.
            Some(submatches) => CodeStep::ExpandCode {
                graphemes: graphemes(code.as_str()),
                submatches,
            },
            None => CodeStep::ExpandRawLine {
                graphemes: graphemes(self.raw_line.as_str()),
                offset,
                code,
            },
        }
    }

    /// The language to highlight code in, given the extension of its file if it
    /// has one.
    pub fn language<'a>(&'a self, extension: Option<&'a str>) -> (language: Option<&'a str>)
        ensures
            match extension {
                Some(extension) => language == Some(extension),
                None => match self.config.default_language {
                    Some(default) => language is Some && language->Some_0@ == default@,
                    None => language is None,
                },
            },
    {
        match extension {
            Some(extension) => Some(extension),
            None => match &self.config.default_language {
                Some(default) => Some(default.as_str()),
                None => None,
            },
        }
    }

    /// Takes back the raw line of a match with its tabs expanded.
    pub fn set_raw_line(&mut self, raw_line: String)
        ensures
            final(self).raw_line@ == raw_line@,
            final(self).state == old(self).state,
            final(self).line == old(self).line,
            final(self).config == old(self).config,
            final(self).calling_process == old(self).calling_process,
    {
        self.raw_line = raw_line;
    }

    /// How to paint the code of a match, given which byte ranges of it match.
    pub fn paint_submatches<'a>(&self, code: &'a str, submatches: &[(usize, usize)]) -> (painted:
        PaintedLine<'a, S>)
        requires
            are_pieces(code@, submatches@),
        ensures
            painted@ == (PaintedLineView {
                line: code@ + "\n"@,
                style_sections: StyleSections::Sections(
                    styled_from(
                        code@,
                        submatches@,
                        0,
                        self.config.grep_match_word_style,
                        self.config.grep_match_line_style,
                    ),
                ),
                state: self.state,
            }),
    {
        let style_sections = make_style_sections(
            code,
            submatches,
            self.config.grep_match_word_style,
            self.config.grep_match_line_style,
        );
        self.painted(code, style_sections)
    }

    /// How to paint the code of a match, given the pieces of it as the grep tool
    /// coloured them, if it was found in the raw line.
    pub fn paint_colored<'a>(
        &self,
        code: &str,
        ansi_sections: Option<&[AnsiSection<'a>]>,
    ) -> (painted: PaintedLine<'a, S>)
        ensures
            painted@ == (PaintedLineView {
                line: code@ + "\n"@,
                style_sections: match ansi_sections {
                    Some(ansi_sections) => StyleSections::Sections(
                        styled_by_color(
                            ansi_sections@,
                            self.config.grep_match_word_style,
                            self.config.grep_match_line_style,
                        ),
                    ),
                    None => StyleSections::Style(self.config.grep_match_line_style),
                },
                state: self.state,
            }),
    {
        let style_sections = match get_code_style_sections(
            ansi_sections,
            self.config.grep_match_word_style,
            self.config.grep_match_line_style,
        ) {
            Some(style_sections) => style_sections,
            None => StyleSectionSpecifier::Style(self.config.grep_match_line_style),
        };
        self.painted(code, style_sections)
    }

    /// How to paint the code of a line that is no match.
    pub fn paint_context(&self, code: &str) -> (painted: PaintedLine<'static, S>)
        ensures
            painted@ == (PaintedLineView {
                line: code@ + "\n"@,
                style_sections: StyleSections::Style(self.config.grep_context_line_style),
                state: self.state,
            }),
    {
        self.painted(code, StyleSectionSpecifier::Style(self.config.grep_context_line_style))
    }

    /// The code as a line of its own, with its styles and the current state.
    fn painted<'a>(&self, code: &str, style_sections: StyleSectionSpecifier<'a, S>) -> (painted:
        PaintedLine<'a, S>)
        ensures
            painted@ == (PaintedLineView {
                line: code@ + "\n"@,
                style_sections: style_sections@,
                state: self.state,
            }),
    {
        let mut line: String = code.to_owned();
        line.append("\n");
        PaintedLine { line, style_sections, state: self.state }
    }
}

/// With `keep`, the separator of a line is the one that the grep tool wrote.
pub proof fn law_keep_keeps_the_separator(c: char)
    requires
        is_separator(c),
    ensures
        separator("keep"@, line_type_of(c)) == seq![c],
{
    reveal_strlit(":");
    reveal_strlit("-");
    reveal_strlit("=");
    assert(separator("keep"@, line_type_of(c)) =~= seq![c]);
}

/// A line is handled if and only if it is read as grep output; of those, all are
/// displayed but the ones to be ignored.
pub proof fn law_handled_if_read<S>(
    machine: StateMachine<S>,
    ripgrep_json: Option<GrepLineView>,
)
    ensures
        machine.grep_step(ripgrep_json) is NotHandled <==> machine.current_grep_line(
            ripgrep_json,
        ) is None,
        machine.grep_step(ripgrep_json) is Ignored <==> (machine.current_grep_line(
            ripgrep_json,
        ) matches Some(grep_line) && grep_line.line_type == LineType::Ignore),
{
}

/// Output that is known not to be grep output is left alone, whatever its lines
/// look like.
pub proof fn law_other_output_is_left_alone<S>(
    machine: StateMachine<S>,
    ripgrep_json: Option<GrepLineView>,
)
    requires
        machine.state == State::Other,
    ensures
        machine.grep_step(ripgrep_json) is NotHandled,
{
}

/// A plain line is never ignored: if it is read at all, it is displayed, as a
/// header or with its file name, and a match is styled by its colours.
pub proof fn law_plain_lines_are_displayed<S>(
    machine: StateMachine<S>,
    ripgrep_json: Option<GrepLineView>,
)
    requires
        !is_json(machine.line@),
    ensures
        machine.current_grep_line(ripgrep_json) matches Some(grep_line) ==> {
            ||| machine.grep_step(ripgrep_json) matches GrepStepView::Header(header) && header.path
                == grep_line.path && header.code == grep_line.code
            ||| machine.grep_step(ripgrep_json) matches GrepStepView::Line(display)
                && display.file_path.path == grep_line.path && display.file_path.line_number
                == grep_line.line_number && !(display.code is ExpandCode)
        },
{
    law_plain_line(machine.line@);
}

/// What is done with a line does not depend on whether grep output was read
/// before it, as long as nothing else was.
pub proof fn law_first_line_is_like_the_others<S>(
    first: StateMachine<S>,
    later: StateMachine<S>,
    ripgrep_json: Option<GrepLineView>,
)
    requires
        first.state == State::Unknown,
        later.state == State::Grep,
        first.line@ == later.line@,
        first.raw_line@ == later.raw_line@,
        first.config == later.config,
        first.calling_process == later.calling_process,
    ensures
        first.grep_step(ripgrep_json) == later.grep_step(ripgrep_json),
{
}

/// The line that is displayed: nothing unless grep output is being read or nothing
/// is known of the output yet; then what a line that starts with a brace says as
/// JSON, and what any other line that a grep tool writes says by its format.
pub proof fn law_current_line<S>(machine: StateMachine<S>, ripgrep_json: Option<GrepLineView>)
    ensures
        machine.current_grep_line(ripgrep_json) == (if machine.state == State::Other {
            None
        } else if machine.line@.len() > 0 && machine.line@[0] == '{' {
            ripgrep_json
        } else {
            match machine.calling_process {
                Some(CallingProcess::GitGrep(_)) => read_line(machine.line@),
                Some(CallingProcess::OtherGrep) => read_line(machine.line@),
                Some(CallingProcess::Other) => None,
                None => None,
            }
        }),
{
}

/// What is done with a line goes by its kind. One that is to be ignored is; a
/// context header is written as the header of a hunk, unless entire functions are
/// displayed; and all others are written as lines.
pub proof fn law_kind_decides<S>(machine: StateMachine<S>, ripgrep_json: Option<GrepLineView>)
    ensures
        ({
            let step = machine.grep_step(ripgrep_json);
            let headers = match machine.calling_process {
                Some(CallingProcess::GitGrep((longs, shorts))) => {
                    &&& forall|i: int| 0 <= i < shorts@.len() ==> (#[trigger] shorts@[i])@ != "-W"@
                    &&& forall|i: int|
                        0 <= i < longs@.len() ==> (#[trigger] longs@[i])@ != "--function-context"@
                },
                _ => true,
            };
            match machine.current_grep_line(ripgrep_json) {
                Some(grep_line) => match grep_line.line_type {
                    LineType::Ignore => step is Ignored,
                    LineType::ContextHeader => if headers {
                        step is Header
                    } else {
                        step is Line
                    },
                    LineType::Context => step is Line,
                    LineType::Match => step is Line,
                },
                None => step is NotHandled,
            }
        }),
{
}

/// Whatever the line is, plain or JSON: where it is written as a line, the file
/// name and the line number written are those that were read, in the styles that
/// the user has chosen for them, and the separator stands after both.
pub proof fn law_file_path_is_the_one_read<S>(
    machine: StateMachine<S>,
    ripgrep_json: Option<GrepLineView>,
)
    ensures
        machine.grep_step(ripgrep_json) matches GrepStepView::Line(display) ==> {
            &&& machine.current_grep_line(ripgrep_json) matches Some(grep_line)
            &&& display.file_path.path == grep_line.path
            &&& display.file_path.line_number == grep_line.line_number
            &&& display.file_path.terminate_with_separator
            &&& display.file_path.file_style == Some(machine.config.grep_file_style)
            &&& display.file_path.line_number_style == Some(machine.config.grep_line_number_style)
        },
{
}

/// Whatever the line is, plain or JSON: where it is written as a header, that is
/// the header of what was read, at its line number, or at zero if it has none.
pub proof fn law_header_is_the_one_read<S>(
    machine: StateMachine<S>,
    ripgrep_json: Option<GrepLineView>,
)
    ensures
        machine.grep_step(ripgrep_json) matches GrepStepView::Header(header) ==> {
            &&& machine.current_grep_line(ripgrep_json) matches Some(grep_line)
            &&& header.path == grep_line.path
            &&& header.code == grep_line.code
            &&& header.line == machine.line@
            &&& header.line_numbers.len() == 1
            &&& header.line_numbers[0].1 == 0
            &&& grep_line.line_number matches Some(n) ==> header.line_numbers[0].0 == n
            &&& grep_line.line_number is None ==> header.line_numbers[0].0 == 0
        },
{
}

/// The separator is the symbol that the user has chosen, whatever it is and
/// whatever the line is; only `keep` stands for the separator of the grep tools:
/// a colon in a match, a dash in a line near one, and an equals sign in a header.
pub proof fn law_separator_is_as_chosen<S>(
    machine: StateMachine<S>,
    ripgrep_json: Option<GrepLineView>,
)
    ensures
        machine.grep_step(ripgrep_json) matches GrepStepView::Line(display) ==> {
            let symbol = machine.config.grep_separator_symbol@;
            let line_type = machine.current_grep_line(ripgrep_json)->Some_0.line_type;
            let written = display.file_path.separator;
            &&& symbol != seq!['k', 'e', 'e', 'p'] ==> written == symbol
            &&& symbol == seq!['k', 'e', 'e', 'p'] && line_type == LineType::Match ==> written
                == seq![':']
            &&& symbol == seq!['k', 'e', 'e', 'p'] && line_type == LineType::Context ==> written
                == seq!['-']
            &&& symbol == seq!['k', 'e', 'e', 'p'] && line_type == LineType::ContextHeader
                ==> written == seq!['=']
        },
{
    reveal_strlit("keep");
    reveal_strlit(":");
    reveal_strlit("-");
    reveal_strlit("=");
    assert("keep"@ =~= seq!['k', 'e', 'e', 'p']);
    assert(":"@ =~= seq![':']);
    assert("-"@ =~= seq!['-']);
    assert("="@ =~= seq!['=']);
}

/// Lines are marked, and line numbers padded, where entire functions are displayed:
/// a match by a bullet and a space, and any other line by two spaces. A mark, be it
/// empty, is written if and only if the user navigates by marks.
pub proof fn law_marks<S>(machine: StateMachine<S>, ripgrep_json: Option<GrepLineView>)
    ensures
        machine.grep_step(ripgrep_json) matches GrepStepView::Line(display) ==> {
            let entire_functions = machine.calling_process matches Some(
                CallingProcess::GitGrep((longs, shorts)),
            ) && ((exists|i: int| 0 <= i < shorts@.len() && (#[trigger] shorts@[i])@ == "-W"@) || (
            exists|i: int|
                0 <= i < longs@.len() && (#[trigger] longs@[i])@ == "--function-context"@));
            let line_type = machine.current_grep_line(ripgrep_json)->Some_0.line_type;
            &&& display.file_path.pad_line_number == entire_functions
            &&& display.marker is Some <==> machine.config.navigate
            &&& machine.config.navigate && !entire_functions ==> display.marker->Some_0.len() == 0
            &&& machine.config.navigate && entire_functions && line_type == LineType::Match
                ==> display.marker == Some(seq!['•', ' '])
            &&& machine.config.navigate && entire_functions && line_type != LineType::Match
                ==> display.marker == Some(seq![' ', ' '])
        },
{
    reveal_strlit("");
    reveal_strlit("• ");
    reveal_strlit("  ");
    assert("• "@ =~= seq!['•', ' ']);
    assert("  "@ =~= seq![' ', ' ']);
}

/// The code of a match is highlighted by its submatches, all as they were read,
/// where there are any told; otherwise by the colours of the raw line after the
/// file name and the line number. The code of other lines is painted as it is.
/// None of the code, nor of the raw line, is left out.
pub proof fn law_code_is_the_one_read<S>(
    machine: StateMachine<S>,
    ripgrep_json: Option<GrepLineView>,
)
    ensures
        machine.grep_step(ripgrep_json) matches GrepStepView::Line(display) ==> {
            let grep_line = machine.current_grep_line(ripgrep_json)->Some_0;
            &&& grep_line.line_type == LineType::Match <==> !(display.code is Paint)
            &&& display.code is ExpandCode <==> grep_line.line_type == LineType::Match
                && grep_line.submatches is Some
            &&& match display.code {
                CodeStepView::ExpandCode { graphemes, submatches } => {
                    &&& graphemes == grapheme_clusters(grep_line.code)
                    &&& grep_line.submatches == Some(submatches)
                },
                CodeStepView::ExpandRawLine { graphemes, offset, code } => {
                    &&& graphemes == grapheme_clusters(machine.raw_line@)
                    &&& code == grep_line.code
                    &&& offset == byte_len(grep_line.path) + (match grep_line.line_number {
                        Some(n) => decimal(n as nat).len() + 2,
                        None => 1,
                    })
                },
                CodeStepView::Paint { code } => code == grep_line.code,
            }
        },
{
    if let Some(grep_line) = machine.current_grep_line(ripgrep_json) {
        law_code_offset(grep_line);
    }
}

/// What is handed out is all of the code and of the raw line if its characters,
/// one after the other, are.
pub proof fn law_all_is_handed_out(
    graphemes: Seq<Seq<char>>,
    submatches: Seq<(usize, usize)>,
    offset: nat,
    painted: Seq<char>,
    code: Seq<char>,
    raw_line: Seq<char>,
)
    ensures
        hands_out_all(CodeStepView::ExpandCode { graphemes, submatches }, code, raw_line)
            <==> graphemes.flatten() == code,
        hands_out_all(
            CodeStepView::ExpandRawLine { graphemes, offset, code: painted },
            code,
            raw_line,
        ) <==> graphemes.flatten() == raw_line && painted == code,
        hands_out_all(CodeStepView::Paint { code: painted }, code, raw_line) <==> painted == code,
{
}

/// The content of a header is what its fields hold.
pub proof fn law_header_content(header: HunkHeader)
    ensures
        header@.code == header.code@,
        header@.line_numbers == header.line_numbers@,
        header@.line == header.line@,
        header@.path == header.path@,
{
}

/// The content of a file name with a line number is what its fields hold.
pub proof fn law_file_path_content<S>(file_path: FilePath<S>)
    ensures
        file_path@.line_number == file_path.line_number,
        file_path@.path == file_path.path@,
        file_path@.pad_line_number == file_path.pad_line_number,
        file_path@.separator == file_path.separator@,
        file_path@.terminate_with_separator == file_path.terminate_with_separator,
        file_path@.file_style == file_path.file_style,
        file_path@.line_number_style == file_path.line_number_style,
{
}

/// The content of what is to be done with code is what its fields hold.
pub proof fn law_code_step_content(step: CodeStep)
    ensures
        match step {
            CodeStep::ExpandCode { graphemes, submatches } => step@ == (
            CodeStepView::ExpandCode { graphemes: texts(graphemes@), submatches: submatches@ }),
            CodeStep::ExpandRawLine { graphemes, offset, code } => step@ == (
            CodeStepView::ExpandRawLine {
                graphemes: texts(graphemes@),
                offset: offset as nat,
                code: code@,
            }),
            CodeStep::Paint { code } => step@ == (CodeStepView::Paint { code: code@ }),
        },
{
}

/// The content of what is to be done with a line is what it holds.
pub proof fn law_step_content<S>(step: GrepStep<S>)
    ensures
        match step {
            GrepStep::NotHandled => step@ is NotHandled,
            GrepStep::Ignored => step@ is Ignored,
            GrepStep::Header(header) => step@ == GrepStepView::<S>::Header(header@),
            GrepStep::Line(line) => {
                &&& step@ is Line
                &&& step@->Line_0.file_path == line.file_path@
                &&& step@->Line_0.code == line.code@
                &&& match line.marker {
                    Some(marker) => step@->Line_0.marker == Some(marker@),
                    None => step@->Line_0.marker is None,
                }
            },
        },
{
}

/// The content of painted code is what its fields hold.
pub proof fn law_painted_content<S>(painted: PaintedLine<S>)
    ensures
        painted@.line == painted.line@,
        painted@.style_sections == painted.style_sections@,
        painted@.state == painted.state,
{
}

} // verus!
