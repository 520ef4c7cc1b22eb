use delta_grep::line::{GrepLine, LineType};
use delta_grep::sections::{
    can_style, get_code_style_sections, make_style_sections, raw_code, raw_code_offset, AnsiSection,
    StyleSectionSpecifier,
};

const M: char = 'm';
const N: char = 'n';

fn styled<'a>(line: &'a str, submatches: &[(usize, usize)]) -> Vec<(char, &'a str)> {
    assert!(can_style(line, submatches));
    match make_style_sections(line, submatches, M, N) {
        StyleSectionSpecifier::StyleSections(sections) => sections,
        StyleSectionSpecifier::Style(_) => panic!("no sections"),
    }
}

#[test]
fn submatches_and_the_rest_are_styled() {
    assert_eq!(styled("let x = x;", &[(4, 5), (8, 9)]), [(N, "let "), (M, "x"), (N, " = "), (M, "x"), (N, ";")]);
    assert_eq!(styled("xy", &[(0, 1), (1, 2)]), [(M, "x"), (M, "y")]);
    assert_eq!(styled("xy", &[(0, 2)]), [(M, "xy")]);
    assert_eq!(styled("xy", &[]), [(N, "xy")]);
    assert_eq!(styled("", &[]), []);
    assert_eq!(styled("é=ü", &[(2, 3)]), [(N, "é"), (M, "="), (N, "ü")]);
}

#[test]
fn empty_submatches_are_styled() {
    assert_eq!(styled("xy", &[(1, 1)]), [(N, "x"), (M, ""), (N, "y")]);
    assert_eq!(styled("", &[(0, 0)]), [(M, "")]);
}

#[test]
fn submatches_out_of_order_repeat_text() {
    assert_eq!(styled("abcd", &[(1, 3), (2, 4)]), [(N, "a"), (M, "bc"), (M, "cd")]);
    assert_eq!(styled("abcd", &[(2, 3), (0, 1)]), [(N, "ab"), (M, "c"), (M, "a"), (N, "bcd")]);
}

#[test]
fn sections_in_order_make_up_the_line() {
    let line = "fn é(日本: usize) -> usize {";
    for submatches in [vec![], vec![(3, 5)], vec![(0, 2), (6, 12)], vec![(6, 9), (9, 12), (14, 19)]] {
        let text: String = styled(line, &submatches).iter().map(|section| section.1).collect();
        assert_eq!(text, line);
    }
}

#[test]
fn ranges_that_are_no_pieces_cannot_be_styled() {
    assert!(!can_style("abc", &[(0, 4)]));
    assert!(!can_style("abc", &[(2, 1)]));
    assert!(!can_style("abc", &[(0, 1), (4, 4)]));
    assert!(!can_style("é", &[(0, 1)]));
    assert!(!can_style("é", &[(1, 2)]));
    assert!(can_style("é", &[(0, 2), (2, 2)]));
}

fn match_line(path: &'static str, line_number: Option<usize>) -> GrepLine<'static> {
    GrepLine {
        path: path.into(),
        line_number,
        line_type: LineType::Match,
        code: "x".into(),
        submatches: None,
    }
}

#[test]
fn the_code_follows_the_prefix() {
    assert_eq!(raw_code_offset(&match_line("a.rs", None)), 5);
    assert_eq!(raw_code_offset(&match_line("a.rs", Some(0))), 7);
    assert_eq!(raw_code_offset(&match_line("a.rs", Some(123))), 9);
    assert_eq!(raw_code_offset(&match_line("é.rs", Some(12))), 9);
    assert_eq!(raw_code("a.rs:123:x", raw_code_offset(&match_line("a.rs", Some(123)))), "x");
    assert_eq!(raw_code("é:x", 3), "x");
    assert_eq!(raw_code("ab", 2), "");
}

#[test]
fn colored_pieces_are_styled_as_matches() {
    let pieces = [
        AnsiSection { has_foreground: false, text: "let " },
        AnsiSection { has_foreground: true, text: "x" },
        AnsiSection { has_foreground: false, text: "" },
    ];
    assert_eq!(
        get_code_style_sections(Some(&pieces), M, N),
        Some(StyleSectionSpecifier::StyleSections(vec![(N, "let "), (M, "x"), (N, "")]))
    );
    assert_eq!(get_code_style_sections(Some(&[]), M, N), Some(StyleSectionSpecifier::StyleSections(vec![])));
    assert_eq!(get_code_style_sections(None, M, N), None);
}
