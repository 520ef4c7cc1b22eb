use delta_grep::output_config::{make_output_config, GrepOutputConfig};
use delta_grep::process::CallingProcess;

fn git_grep(longs: &[&str], shorts: &[&str]) -> CallingProcess {
    CallingProcess::GitGrep((
        longs.iter().map(|o| o.to_string()).collect(),
        shorts.iter().map(|o| o.to_string()).collect(),
    ))
}

const ENTIRE_FUNCTIONS: GrepOutputConfig = GrepOutputConfig {
    render_context_header_as_hunk_header: false,
    add_navigate_marker_to_matches: true,
    pad_line_number: true,
};

const MATCHES: GrepOutputConfig = GrepOutputConfig {
    render_context_header_as_hunk_header: true,
    add_navigate_marker_to_matches: false,
    pad_line_number: false,
};

#[test]
fn entire_functions_are_displayed_with_markers() {
    for process in [
        git_grep(&[], &["-W"]),
        git_grep(&["--function-context"], &[]),
        git_grep(&["--color", "--function-context"], &["-n"]),
        git_grep(&["--show-function"], &["-p", "-n", "-W"]),
    ] {
        assert_eq!(make_output_config(Some(&process)), ENTIRE_FUNCTIONS);
    }
}

#[test]
fn other_output_is_displayed_with_headers() {
    for process in [
        git_grep(&[], &[]),
        git_grep(&[], &["-p"]),
        git_grep(&["--show-function"], &[]),
        git_grep(&["-W"], &["--function-context"]),
        git_grep(&["--function-contexts"], &["-w", "-WW"]),
        CallingProcess::OtherGrep,
        CallingProcess::Other,
    ] {
        assert_eq!(make_output_config(Some(&process)), MATCHES);
    }
    assert_eq!(make_output_config(None), MATCHES);
}
