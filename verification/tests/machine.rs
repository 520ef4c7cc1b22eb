use delta_grep::line::{GrepLine, LineType};
use delta_grep::machine::{
    CodeStep, Config, FilePath, GrepStep, HunkHeader, LineDisplay, PaintedLine, State, StateMachine,
};
use delta_grep::process::CallingProcess;
use delta_grep::sections::{AnsiSection, StyleSectionSpecifier};

const FILE: u8 = 1;
const NUMBER: u8 = 2;
const WORD: u8 = 3;
const LINE: u8 = 4;
const CONTEXT: u8 = 5;

fn machine(state: State, line: &str, raw_line: &str) -> StateMachine<u8> {
    StateMachine {
        state,
        line: line.to_string(),
        raw_line: raw_line.to_string(),
        config: Config {
            navigate: false,
            grep_separator_symbol: ":".to_string(),
            default_language: None,
            grep_file_style: FILE,
            grep_line_number_style: NUMBER,
            grep_match_word_style: WORD,
            grep_match_line_style: LINE,
            grep_context_line_style: CONTEXT,
        },
        calling_process: Some(CallingProcess::OtherGrep),
    }
}

fn entire_functions() -> Option<CallingProcess> {
    Some(CallingProcess::GitGrep((vec![], vec!["-W".to_string()])))
}

fn json_line(line_type: LineType) -> Option<GrepLine<'static>> {
    Some(GrepLine {
        path: "a.rs".into(),
        line_number: Some(3),
        line_type,
        code: "\tx\ty".into(),
        submatches: Some(vec![(1, 2)]),
    })
}

fn display(step: GrepStep<u8>) -> LineDisplay<u8> {
    match step {
        GrepStep::Line(display) => display,
        other => panic!("{:?}", other),
    }
}

fn strings(texts: &[&str]) -> Vec<String> {
    texts.iter().map(|text| text.to_string()).collect()
}

#[test]
fn a_match_is_displayed_by_its_colors() {
    let raw = "a.rs:7:\t\x1b[31mx\x1b[m";
    let mut machine = machine(State::Unknown, "a.rs:7:\tx", raw);
    assert_eq!(
        display(machine.handle_grep_line(None)),
        LineDisplay {
            marker: None,
            file_path: FilePath {
                line_number: Some(7),
                path: "a.rs".to_string(),
                pad_line_number: false,
                separator: ":".to_string(),
                terminate_with_separator: true,
                file_style: Some(FILE),
                line_number_style: Some(NUMBER),
            },
            code: CodeStep::ExpandRawLine {
                graphemes: raw.chars().map(|c| c.to_string()).collect(),
                offset: 7,
                code: "\tx".to_string(),
            },
        }
    );
    assert_eq!(machine.state, State::Grep);
    assert_eq!(machine.raw_line, raw);
    assert_eq!(machine.line, "a.rs:7:\tx");

    machine.set_raw_line("a.rs:7:    \x1b[31mx\x1b[m".to_string());
    assert_eq!(machine.raw_line, "a.rs:7:    \x1b[31mx\x1b[m");
    let pieces = [
        AnsiSection { has_foreground: false, text: "    " },
        AnsiSection { has_foreground: true, text: "x" },
    ];
    assert_eq!(
        machine.paint_colored("\tx", Some(&pieces)),
        PaintedLine {
            line: "\tx\n".to_string(),
            style_sections: StyleSectionSpecifier::StyleSections(vec![(LINE, "    "), (WORD, "x")]),
            state: State::Grep,
        }
    );
    assert_eq!(
        machine.paint_colored("\tx", None),
        PaintedLine {
            line: "\tx\n".to_string(),
            style_sections: StyleSectionSpecifier::Style(LINE),
            state: State::Grep,
        }
    );
}

#[test]
fn a_match_with_submatches_is_displayed_by_them() {
    let mut machine = machine(State::Grep, "{}", "{}");
    assert!(machine.wants_ripgrep_json());
    let step = machine.handle_grep_line(json_line(LineType::Match));
    assert_eq!(
        display(step).code,
        CodeStep::ExpandCode {
            graphemes: strings(&["\t", "x", "\t", "y"]),
            submatches: vec![(1, 2)],
        }
    );
    assert_eq!(
        machine.paint_submatches("    x    y", &[(4, 5)]),
        PaintedLine {
            line: "    x    y\n".to_string(),
            style_sections: StyleSectionSpecifier::StyleSections(vec![
                (LINE, "    "),
                (WORD, "x"),
                (LINE, "    y"),
            ]),
            state: State::Grep,
        }
    );
}

#[test]
fn characters_are_those_that_users_perceive() {
    let text = "e\u{301}\t\u{1F1F7}\u{1F1FA}x";
    let mut machine = machine(State::Grep, "a.rs:x", text);
    assert_eq!(
        display(machine.handle_grep_line(None)).code,
        CodeStep::ExpandRawLine {
            graphemes: strings(&["e\u{301}", "\t", "\u{1F1F7}\u{1F1FA}", "x"]),
            offset: 5,
            code: "x".to_string(),
        }
    );
}

#[test]
fn a_line_near_a_match_is_painted_as_it_is() {
    let mut machine = machine(State::Grep, "a.rs-8-y", "");
    let display = display(machine.handle_grep_line(None));
    assert_eq!(display.code, CodeStep::Paint { code: "y".to_string() });
    assert_eq!(display.file_path.line_number, Some(8));
    assert_eq!(
        machine.paint_context("y"),
        PaintedLine {
            line: "y\n".to_string(),
            style_sections: StyleSectionSpecifier::Style(CONTEXT),
            state: State::Grep,
        }
    );
}

#[test]
fn a_context_header_is_a_hunk_header() {
    let mut machine = machine(State::Unknown, "a.rs=57=fn f() {", "");
    assert_eq!(
        machine.handle_grep_line(None),
        GrepStep::Header(HunkHeader {
            code: "fn f() {".to_string(),
            line_numbers: vec![(57, 0)],
            line: "a.rs=57=fn f() {".to_string(),
            path: "a.rs".to_string(),
        })
    );
    assert_eq!(machine.state, State::Grep);
    machine.line = "a.rs=fn f() {".to_string();
    match machine.handle_grep_line(None) {
        GrepStep::Header(header) => assert_eq!(header.line_numbers, [(0, 0)]),
        other => panic!("{:?}", other),
    }
}

#[test]
fn a_context_header_is_a_line_among_entire_functions() {
    let mut machine = machine(State::Unknown, "a.rs=57=fn f() {", "");
    machine.calling_process = entire_functions();
    let display = display(machine.handle_grep_line(None));
    assert_eq!(display.code, CodeStep::Paint { code: "fn f() {".to_string() });
    assert!(display.file_path.pad_line_number);
}

#[test]
fn lines_are_marked_to_navigate() {
    let mark = |line: &str, navigate: bool, calling_process: Option<CallingProcess>| {
        let mut machine = machine(State::Grep, line, line);
        machine.config.navigate = navigate;
        machine.calling_process = calling_process;
        display(machine.handle_grep_line(None)).marker
    };
    assert_eq!(mark("a.rs:x", true, entire_functions()), Some("• "));
    assert_eq!(mark("a.rs-x", true, entire_functions()), Some("  "));
    assert_eq!(mark("a.rs=x", true, entire_functions()), Some("  "));
    assert_eq!(mark("a.rs:x", true, Some(CallingProcess::OtherGrep)), Some(""));
    assert_eq!(mark("a.rs:x", false, entire_functions()), None);
}

#[test]
fn the_separator_is_kept_or_replaced() {
    let separator = |line: &str, symbol: &str| {
        let mut machine = machine(State::Grep, line, line);
        machine.config.grep_separator_symbol = symbol.to_string();
        machine.calling_process = entire_functions();
        display(machine.handle_grep_line(None)).file_path.separator
    };
    assert_eq!(separator("a.rs:x", "keep"), ":");
    assert_eq!(separator("a.rs-x", "keep"), "-");
    assert_eq!(separator("a.rs=x", "keep"), "=");
    for line in ["a.rs:x", "a.rs-x", "a.rs=x"] {
        assert_eq!(separator(line, ":"), ":");
        assert_eq!(separator(line, "Keep"), "Keep");
        assert_eq!(separator(line, ""), "");
    }
}

#[test]
fn lines_to_be_ignored_are_handled_and_not_displayed() {
    let mut machine = machine(State::Unknown, "{}", "{}");
    assert_eq!(machine.handle_grep_line(json_line(LineType::Ignore)), GrepStep::Ignored);
    assert_eq!(machine.state, State::Unknown);
}

#[test]
fn other_lines_are_not_handled() {
    let mut plain = machine(State::Unknown, "no grep output", "");
    assert!(!plain.wants_ripgrep_json());
    assert_eq!(plain.handle_grep_line(None), GrepStep::NotHandled);
    assert_eq!(plain.state, State::Unknown);

    let mut json = machine(State::Grep, "{}", "");
    assert_eq!(json.handle_grep_line(None), GrepStep::NotHandled);
    assert_eq!(json.state, State::Grep);

    let mut no_grep = machine(State::Unknown, "a.rs:x", "");
    no_grep.calling_process = Some(CallingProcess::Other);
    assert_eq!(no_grep.handle_grep_line(None), GrepStep::NotHandled);
}

#[test]
fn other_output_is_left_alone() {
    let mut diff = machine(State::Other, "a.rs:x", "");
    assert_eq!(diff.handle_grep_line(None), GrepStep::NotHandled);
    diff.line = "{".to_string();
    assert!(!diff.wants_ripgrep_json());
    assert_eq!(diff.handle_grep_line(json_line(LineType::Match)), GrepStep::NotHandled);
    assert_eq!(diff.state, State::Other);
}

#[test]
fn the_language_is_that_of_the_file_or_the_default() {
    let mut machine = machine(State::Grep, "", "");
    assert_eq!(machine.language(None), None);
    assert_eq!(machine.language(Some("rs")), Some("rs"));
    machine.config.default_language = Some("txt".to_string());
    assert_eq!(machine.language(None), Some("txt"));
    assert_eq!(machine.language(Some("rs")), Some("rs"));
}
