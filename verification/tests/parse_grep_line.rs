use delta_grep::line::{GrepLine, LineType};
use delta_grep::parse::parse_grep_line;
use delta_grep::process::CallingProcess;

/// The calling process when the parent process was started by `command`.
fn calling_process(command: &str) -> Option<CallingProcess> {
    let mut words = command.split(' ');
    let program = words.next()?.rsplit('/').next()?;
    if program != "git" || !words.any(|word| word == "grep") {
        return Some(CallingProcess::Other);
    }
    let options: Vec<&str> = words.take_while(|word| *word != "--").collect();
    let longs = options.iter().filter(|o| o.starts_with("--"));
    let shorts = options.iter().filter(|o| o.starts_with('-') && !o.starts_with("--"));
    Some(CallingProcess::GitGrep((
        longs.map(|o| o.to_string()).collect(),
        shorts.map(|o| o.to_string()).collect(),
    )))
}

#[test]
fn test_parse_grep_match() {
    let fake_parent_grep_command = "git --doesnt-matter grep --nor-this nor_this -- nor_this";
    {
        let calling_process = calling_process(fake_parent_grep_command);
        assert_eq!(
            parse_grep_line("src/co-7-fig.rs:xxx", calling_process.as_ref(), None),
            Some(GrepLine {
                path: "src/co-7-fig.rs".into(),
                line_number: None,
                line_type: LineType::Match,
                code: "xxx".into(),
                submatches: None,
            })
        );
    }
    {
        let calling_process = calling_process(fake_parent_grep_command);
        assert_eq!(
            parse_grep_line("src/config.rs:use crate::minusplus::MinusPlus;", calling_process.as_ref(), None),
            Some(GrepLine {
                path: "src/config.rs".into(),
                line_number: None,
                line_type: LineType::Match,
                code: "use crate::minusplus::MinusPlus;".into(),
                submatches: None,
            })
        );
    }
    {
        let calling_process = calling_process(fake_parent_grep_command);
        assert_eq!(
            parse_grep_line("src/config.rs:    pub line_numbers_style_minusplus: MinusPlus<Style>,", calling_process.as_ref(), None),
            Some(GrepLine {
                path: "src/config.rs".into(),
                line_number: None,
                line_type: LineType::Match,
                code: "    pub line_numbers_style_minusplus: MinusPlus<Style>,".into(),
                submatches: None,
            })
        );
    }
    {
        let calling_process = calling_process(fake_parent_grep_command);
        assert_eq!(
            parse_grep_line("src/con-fig.rs:use crate::minusplus::MinusPlus;", calling_process.as_ref(), None),
            Some(GrepLine {
                path: "src/con-fig.rs".into(),
                line_number: None,
                line_type: LineType::Match,
                code: "use crate::minusplus::MinusPlus;".into(),
                submatches: None,
            })
        );
    }
    {
        let calling_process = calling_process(fake_parent_grep_command);
        assert_eq!(
            parse_grep_line("src/con-fig.rs:    pub line_numbers_style_minusplus: MinusPlus<Style>,", calling_process.as_ref(), None),
            Some(GrepLine {
                path: "src/con-fig.rs".into(),
                line_number: None,
                line_type: LineType::Match,
                code: "    pub line_numbers_style_minusplus: MinusPlus<Style>,".into(),
                submatches: None,
            })
        );
    }
    {
        let calling_process = calling_process(fake_parent_grep_command);
        assert_eq!(
        parse_grep_line("src/de lta.rs:pub fn delta<I>(lines: ByteLines<I>, writer: &mut dyn Write, config: &Config) -> std::io::Result<()>", calling_process.as_ref(), None),
        Some(GrepLine {
            path: "src/de lta.rs".into(),
            line_number: None,
            line_type: LineType::Match,
            code: "pub fn delta<I>(lines: ByteLines<I>, writer: &mut dyn Write, config: &Config) -> std::io::Result<()>".into(),
            submatches: None,
        })
    );
    }
    {
        let calling_process = calling_process(fake_parent_grep_command);
        assert_eq!(
        parse_grep_line("src/de lta.rs:    pub fn new(writer: &'a mut dyn Write, config: &'a Config) -> Self {", calling_process.as_ref(), None),
        Some(GrepLine {
            path: "src/de lta.rs".into(),
            line_number: None,
            line_type: LineType::Match,
            code: "    pub fn new(writer: &'a mut dyn Write, config: &'a Config) -> Self {".into(),
            submatches: None,
        })
    );
    }
}

#[test]
fn test_parse_grep_n_match() {
    let fake_parent_grep_command =
        "/usr/local/bin/git --doesnt-matter grep --nor-this nor_this -- nor_this";
    {
        let calling_process = calling_process(fake_parent_grep_command);
        assert_eq!(
            parse_grep_line("src/co-7-fig.rs:7:xxx", calling_process.as_ref(), None),
            Some(GrepLine {
                path: "src/co-7-fig.rs".into(),
                line_number: Some(7),
                line_type: LineType::Match,
                code: "xxx".into(),
                submatches: None,
            })
        );
    }
    {
        let calling_process = calling_process(fake_parent_grep_command);
        assert_eq!(
            parse_grep_line("src/config.rs:21:use crate::minusplus::MinusPlus;", calling_process.as_ref(), None),
            Some(GrepLine {
                path: "src/config.rs".into(),
                line_number: Some(21),
                line_type: LineType::Match,
                code: "use crate::minusplus::MinusPlus;".into(),
                submatches: None,
            })
        );
    }
    {
        let calling_process = calling_process(fake_parent_grep_command);
        assert_eq!(
            parse_grep_line("src/config.rs:95:    pub line_numbers_style_minusplus: MinusPlus<Style>,", calling_process.as_ref(), None),
            Some(GrepLine {
                path: "src/config.rs".into(),
                line_number: Some(95),
                line_type: LineType::Match,
                code: "    pub line_numbers_style_minusplus: MinusPlus<Style>,".into(),
                submatches: None,
            })
        );
    }
    {
        let calling_process = calling_process(fake_parent_grep_command);
        assert_eq!(
            parse_grep_line("Makefile:10:test: unit-test end-to-end-test", calling_process.as_ref(), None),
            Some(GrepLine {
                path: "Makefile".into(),
                line_number: Some(10),
                line_type: LineType::Match,
                code: "test: unit-test end-to-end-test".into(),
                submatches: None,
            })
        );
    }
    {
        let calling_process = calling_process(fake_parent_grep_command);
        assert_eq!(
            parse_grep_line("Makefile:16:    ./tests/test_raw_output_matches_git_on_full_repo_history", calling_process.as_ref(), None),
            Some(GrepLine {
                path: "Makefile".into(),
                line_number: Some(16),
                line_type: LineType::Match,
                code: "    ./tests/test_raw_output_matches_git_on_full_repo_history".into(),
                submatches: None,
            })
        );
    }
}

#[test]
fn test_parse_grep_no_match() {
    let fake_parent_grep_command =
        "/usr/local/bin/git --doesnt-matter grep --nor-this nor_this -- nor_this";
    {
        let calling_process = calling_process(fake_parent_grep_command);
        assert_eq!(
            parse_grep_line("src/co-7-fig.rs-xxx", calling_process.as_ref(), None),
            Some(GrepLine {
                path: "src/co-7-fig.rs".into(),
                line_number: None,
                line_type: LineType::Context,
                code: "xxx".into(),
                submatches: None,
            })
        );
    }
    {
        let calling_process = calling_process(fake_parent_grep_command);
        assert_eq!(
            parse_grep_line("src/config.rs-    pub available_terminal_width: usize,", calling_process.as_ref(), None),
            Some(GrepLine {
                path: "src/config.rs".into(),
                line_number: None,
                line_type: LineType::Context,
                code: "    pub available_terminal_width: usize,".into(),
                submatches: None,
            })
        );
    }
    {
        let calling_process = calling_process(fake_parent_grep_command);
        assert_eq!(
            parse_grep_line("src/con-fig.rs-use crate::minusplus::MinusPlus;", calling_process.as_ref(), None),
            Some(GrepLine {
                path: "src/con-fig.rs".into(),
                line_number: None,
                line_type: LineType::Context,
                code: "use crate::minusplus::MinusPlus;".into(),
                submatches: None,
            })
        );
    }
    {
        let calling_process = calling_process(fake_parent_grep_command);
        assert_eq!(
            parse_grep_line("de-lta.rs-            if self.source == Source::Unknown {", calling_process.as_ref(), None),
            Some(GrepLine {
                path: "de-lta.rs".into(),
                line_number: None,
                line_type: LineType::Context,
                code: "            if self.source == Source::Unknown {".into(),
                submatches: None,
            })
        );
    }
}

#[test]
fn test_parse_grep_n_no_match() {
    // git grep -n
    let fake_parent_grep_command =
        "/usr/local/bin/git --doesnt-matter grep --nor-this nor_this -- nor_this";
    {
        let calling_process = calling_process(fake_parent_grep_command);
        assert_eq!(
            parse_grep_line("src/co-7-fig.rs-7-xxx", calling_process.as_ref(), None),
            Some(GrepLine {
                path: "src/co-7-fig.rs".into(),
                line_number: Some(7),
                line_type: LineType::Context,
                code: "xxx".into(),
                submatches: None,
            })
        );
    }
    {
        let calling_process = calling_process(fake_parent_grep_command);
        assert_eq!(
            parse_grep_line("src/config.rs-58-    pub available_terminal_width: usize,", calling_process.as_ref(), None),
            Some(GrepLine {
                path: "src/config.rs".into(),
                line_number: Some(58),
                line_type: LineType::Context,
                code: "    pub available_terminal_width: usize,".into(),
                submatches: None,
            })
        );
    }
}

#[test]
fn test_parse_grep_match_no_extension() {
    let fake_parent_grep_command =
        "/usr/local/bin/git --doesnt-matter grep --nor-this nor_this -- nor_this";
    {
        let calling_process = calling_process(fake_parent_grep_command);
        assert_eq!(
            parse_grep_line("Makefile:xxx", calling_process.as_ref(), None),
            Some(GrepLine {
                path: "Makefile".into(),
                line_number: None,
                line_type: LineType::Match,
                code: "xxx".into(),
                submatches: None,
            })
        );
    }
}

#[test]
fn test_parse_grep_n_match_no_extension() {
    // git grep -n
    let fake_parent_grep_command =
        "/usr/local/bin/git --doesnt-matter grep --nor-this nor_this -- nor_this";
    {
        let calling_process = calling_process(fake_parent_grep_command);
        assert_eq!(
            parse_grep_line("Makefile:7:xxx", calling_process.as_ref(), None),
            Some(GrepLine {
                path: "Makefile".into(),
                line_number: Some(7),
                line_type: LineType::Match,
                code: "xxx".into(),
                submatches: None,
            })
        );
    }
}

#[test]
#[allow(non_snake_case)]
fn test_parse_grep_W_context_header() {
    // git grep -W
    let fake_parent_grep_command =
        "/usr/local/bin/git --doesnt-matter grep --nor-this nor_this -- nor_this";
    {
        let calling_process = calling_process(fake_parent_grep_command);
        assert_eq!(
            parse_grep_line("src/config.rs=pub struct Config {", calling_process.as_ref(), None), // match
            Some(GrepLine {
                path: "src/config.rs".into(),
                line_number: None,
                line_type: LineType::ContextHeader,
                code: "pub struct Config {".into(),
                submatches: None,
            })
        );
    }
}

#[test]
#[allow(non_snake_case)]
fn test_parse_grep_W_n_context_header() {
    // git grep -n -W
    let fake_parent_grep_command =
        "/usr/local/bin/git --doesnt-matter grep --nor-this nor_this -- nor_this";
    {
        let calling_process = calling_process(fake_parent_grep_command);
        assert_eq!(
            parse_grep_line("src/config.rs=57=pub struct Config {", calling_process.as_ref(), None),
            Some(GrepLine {
                path: "src/config.rs".into(),
                line_number: Some(57),
                line_type: LineType::ContextHeader,
                code: "pub struct Config {".into(),
                submatches: None,
            })
        );
    }
}

#[test]
fn test_parse_grep_not_grep_output() {
    let fake_parent_grep_command =
        "/usr/local/bin/git --doesnt-matter grep --nor-this nor_this -- nor_this";
    {
        let calling_process = calling_process(fake_parent_grep_command);
        let not_grep_output = "|       expose it in delta's color output styled with grep:";
        assert_eq!(parse_grep_line(not_grep_output, calling_process.as_ref(), None), None);
    }
}

#[test]
fn test_parse_grep_parent_command_is_not_grep_1() {
    let fake_parent_grep_command =
        "/usr/local/bin/notgrep --doesnt-matter --nor-this nor_this -- nor_this";
    {
        let calling_process = calling_process(fake_parent_grep_command);
        let apparently_grep_output = "src/co-7-fig.rs:xxx";
        assert_eq!(parse_grep_line(apparently_grep_output, calling_process.as_ref(), None), None);
    }
}

#[test]
fn test_parse_grep_parent_command_is_not_grep_2() {
    {
        // No fake parent grep command
        let calling_process: Option<CallingProcess> = None;
        let apparently_grep_output = "src/co-7-fig.rs:xxx";
        assert_eq!(parse_grep_line(apparently_grep_output, calling_process.as_ref(), None), None);
    }
}
