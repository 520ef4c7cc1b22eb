use delta_grep::format::GrepLineRegex;
use delta_grep::line::{GrepLine, LineType};
use delta_grep::parse::{_parse_grep_line, grep_line_from_captures, is_ripgrep_json, parse_grep_line};
use delta_grep::pattern::make_grep_line_regex;
use delta_grep::process::CallingProcess;

const ASSUMPTIONS: [GrepLineRegex; 2] = [
    GrepLineRegex::FilePathWithFileExtension,
    GrepLineRegex::FilePathWithoutSeparatorCharacters,
];

fn is_separator(c: char) -> bool {
    ":-=".contains(c)
}

fn is_path(assumed: GrepLineRegex, path: &[char]) -> bool {
    let n = path.len();
    if n < 2 || path[0] == '|' || path[0] == ' ' {
        return false;
    }
    match assumed {
        GrepLineRegex::FilePathWithFileExtension => {
            let dot = match path.iter().rposition(|c| *c == '.') {
                Some(dot) => dot,
                None => return false,
            };
            let extension = &path[dot + 1..];
            dot >= 1
                && !path[..dot].contains(&':')
                && (1..=6).contains(&extension.len())
                && extension.iter().all(|c| *c != ' ' && !is_separator(*c))
        }
        GrepLineRegex::FilePathWithoutSeparatorCharacters => {
            !path[..n - 1].iter().any(|c| is_separator(*c))
                && path[n - 1] != ':'
                && path[n - 1] != ' '
        }
    }
}

/// What a line says, by trying all ends of the file name from the last on.
fn read(assumed: GrepLineRegex, line: &str) -> Option<GrepLine<'static>> {
    let chars: Vec<char> = line.chars().collect();
    let end = (0..chars.len()).rev().find(|end| {
        is_path(assumed, &chars[..*end])
            && is_separator(chars[*end])
            && !chars[end + 1..].contains(&'\n')
    })?;
    let rest = &chars[end + 1..];
    let digits = rest.iter().take_while(|c| c.is_ascii_digit()).count();
    let numbered = digits > 0 && rest.get(digits) == Some(&chars[end]);
    let number: String = rest[..digits].iter().collect();
    let code = if numbered { &rest[digits + 1..] } else { rest };
    Some(GrepLine {
        path: chars[..end].iter().collect::<String>().into(),
        line_number: if numbered { number.parse().ok() } else { None },
        line_type: match chars[end] {
            ':' => LineType::Match,
            '-' => LineType::Context,
            _ => LineType::ContextHeader,
        },
        code: code.iter().collect::<String>().into(),
        submatches: None,
    })
}

fn check(line: &str) {
    for assumed in ASSUMPTIONS {
        assert_eq!(_parse_grep_line(assumed, line), read(assumed, line), "{:?} {:?}", assumed, line);
    }
}

fn check_all(alphabet: &[char], length: usize) {
    let mut lines = vec![String::new()];
    for _ in 0..length {
        let mut longer = Vec::new();
        for line in &lines {
            for c in alphabet {
                longer.push(format!("{}{}", line, c));
            }
        }
        for line in &longer {
            check(line);
        }
        lines = longer;
    }
}

#[test]
fn all_short_lines_are_read_by_the_format() {
    check_all(&['a', '.', ':', '-', '=', ' ', '|', '1', '\n'], 3);
}

#[test]
fn lines_of_names_and_dashes_are_read_by_the_format() {
    check_all(&['a', '.', '-'], 6);
}

#[test]
fn lines_of_numbers_are_read_by_the_format() {
    check_all(&['.', '1', '-', ':'], 5);
}

#[test]
fn longer_lines_are_read_by_the_format() {
    for line in [
        "",
        "a.rs:",
        "a.rs:1:",
        "a.rs:1",
        "a.rs:1-x",
        "a.rs-1:x",
        "a.rs=1=1=x",
        "a.rs-1-b.rs-2-x",
        "a.rs-see b.c:2",
        "a-b.rs:c.d:e",
        "a.toolong:x",
        "a.sixsix:x",
        "a.sevense:x",
        "a.b c:x",
        "a.b/c:x",
        "a.b.c:x",
        ".gitignore:x",
        ".git.x:x",
        "a:.x-y",
        "Makefile-",
        "Makefile--x",
        "Makefile-=x",
        "Makefile :x",
        "Make-7-file:7:x",
        "|a.rs:x",
        " a.rs:x",
        ":a.rs:x",
        "-a.rs:x",
        "=a.rs:x",
        "a\n.rs:x",
        "a.rs:x\n",
        "a.rs:1:x\n",
        "a.rs:x\r",
        "a.rs:x\ny-z",
        "ab:\n",
        "é.ü:日本",
        "日本:7:語",
        "日本-7-語",
        "a.٣٣:٣:x",
        "etc/examples/119-within-line-edits:4:repo=$(mktemp -d)",
        "a.rs:99999999999999999999999999:x",
        "a.rs:000000000000000000000000001:x",
    ] {
        check(line);
    }
}

fn line(
    path: &'static str,
    line_number: Option<usize>,
    line_type: LineType,
    code: &'static str,
) -> Option<GrepLine<'static>> {
    Some(GrepLine {
        path: path.into(),
        line_number,
        line_type,
        code: code.into(),
        submatches: None,
    })
}

fn parse(line: &str) -> Option<GrepLine<'_>> {
    parse_grep_line(line, Some(&CallingProcess::OtherGrep), None)
}

#[test]
fn the_file_name_is_the_longest_possible() {
    assert_eq!(parse("a.rs-1-b.rs-2-x"), line("a.rs-1-b.rs", Some(2), LineType::Context, "x"));
    assert_eq!(parse("a.rs:1:b.rs:2:x"), line("a.rs", Some(1), LineType::Match, "b.rs:2:x"));
    assert_eq!(parse("Makefile--x"), line("Makefile-", None, LineType::Context, "x"));
}

#[test]
fn an_extension_is_assumed_first() {
    assert_eq!(parse("ab-c.rs:x"), line("ab-c.rs", None, LineType::Match, "x"));
    assert_eq!(parse("ab-c.rs-:x"), line("ab-c.rs", None, LineType::Context, ":x"));
}

#[test]
fn a_file_name_with_dashes_needs_an_extension() {
    // Without one the first dash is taken for the separator.
    assert_eq!(
        parse("etc/119-within-line-edits:4:x"),
        line("etc/119", None, LineType::Context, "within-line-edits:4:x")
    );
}

#[test]
fn a_number_too_large_is_dropped() {
    assert_eq!(
        parse("a.rs:99999999999999999999999999:x"),
        line("a.rs", None, LineType::Match, "x")
    );
}

#[test]
fn a_second_line_is_not_read() {
    assert_eq!(parse("a.rs:x\ny"), None);
    assert_eq!(parse("a.rs:x\r"), line("a.rs", None, LineType::Match, "x\r"));
}

#[test]
fn matches_are_read_back() {
    let codes = ["", "x", "b.rs-1-x", "b.rs:2:x", "2:x", "  a = b", "é"];
    for path in ["a.rs", "src/a-7-b.rs", "de lta.rs", "Makefile", "日本", "ab-", "ab="] {
        for code in codes {
            for n in [0, 7, 58, usize::MAX] {
                let text = format!("{}:{}:{}", path, n, code);
                let expected = GrepLine {
                    path: path.into(),
                    line_number: Some(n),
                    line_type: LineType::Match,
                    code: code.into(),
                    submatches: None,
                };
                assert_eq!(parse(&text), Some(expected));
            }
        }
    }
}

#[test]
fn the_parts_make_up_the_line() {
    for text in ["a.rs:7:x", "a.rs-x", "src/a-b.c=12=d.e-f", "Makefile-7-x", "ab=:x"] {
        let found = parse(text).unwrap();
        let separator = match found.line_type {
            LineType::Match => ":",
            LineType::Context => "-",
            _ => "=",
        };
        let number = match found.line_number {
            Some(n) => format!("{}{}", n, separator),
            None => String::new(),
        };
        assert_eq!(format!("{}{}{}{}", found.path, separator, number, found.code), text);
    }
}

#[test]
fn json_is_read_as_json() {
    let json = || line("a.rs", Some(3), LineType::Ignore, "x");
    assert!(is_ripgrep_json("{\"type\":\"begin\"}"));
    assert!(!is_ripgrep_json(" {"));
    assert!(!is_ripgrep_json(""));
    for calling_process in [None, Some(&CallingProcess::Other), Some(&CallingProcess::OtherGrep)] {
        assert_eq!(parse_grep_line("{a.rs:x", calling_process, json()), json());
        assert_eq!(parse_grep_line("{a.rs:x", calling_process, None), None);
    }
}

#[test]
fn plain_lines_are_not_read_as_json() {
    let json = || line("b.rs", Some(3), LineType::Ignore, "y");
    assert_eq!(
        parse_grep_line("a.rs:x", Some(&CallingProcess::OtherGrep), json()),
        line("a.rs", None, LineType::Match, "x")
    );
    assert_eq!(parse_grep_line("a.rs:x", Some(&CallingProcess::Other), json()), None);
    assert_eq!(parse_grep_line("a.rs:x", None, json()), None);
}

#[test]
fn groups_say_what_the_line_is() {
    let mut groups = vec![None; 9];
    groups[1] = Some("p");
    groups[6] = Some("=");
    groups[8] = Some("c");
    assert_eq!(grep_line_from_captures(&groups), line("p", None, LineType::ContextHeader, "c").unwrap());
    groups[7] = Some("57");
    assert_eq!(
        grep_line_from_captures(&groups),
        line("p", Some(57), LineType::ContextHeader, "c").unwrap()
    );
    groups[4] = Some("-");
    groups[5] = Some("5");
    assert_eq!(grep_line_from_captures(&groups), line("p", Some(5), LineType::Context, "c").unwrap());
    groups[2] = Some(":");
    assert_eq!(grep_line_from_captures(&groups), line("p", None, LineType::Match, "c").unwrap());
}

#[test]
fn the_patterns_are_regular_expressions_with_eight_groups() {
    for assumed in ASSUMPTIONS {
        let pattern = make_grep_line_regex(assumed);
        let regex = regex::Regex::new(&pattern).unwrap();
        assert_eq!(regex.captures_len(), 9);
    }
    assert!(make_grep_line_regex(ASSUMPTIONS[0]).contains("{1,6}"));
    assert!(!make_grep_line_regex(ASSUMPTIONS[1]).contains("{1,6}"));
}
