use iawk::matcher::compile_patterns;
use iawk::scan::{run_filter, Scanner};

fn strings(items: &[&str]) -> Vec<String> {
    items.iter().map(|s| s.to_string()).collect()
}

fn filter(patterns: &[&str], before: usize, after: usize, input: &[&str]) -> Vec<String> {
    let regexes = compile_patterns(&strings(patterns)).expect("patterns must compile");
    run_filter(regexes, before, after, strings(input))
}

fn joined(lines: &[String]) -> String {
    let mut out = String::new();
    for line in lines {
        out.push_str(line);
        out.push('\n');
    }
    out
}

#[test]
fn test_stdin_stdout() {
    let out = filter(&["[e]"], 0, 0, &["abc", "def", "ghi"]);
    assert_eq!("def\n", joined(&out));
}

#[test]
fn test_stdin_stdout_2() {
    let out = filter(&["[ae]"], 0, 0, &["abc", "def", "ghi"]);
    assert_eq!("abc\ndef\n", joined(&out));
}

#[test]
fn test_stdin_stdout_3() {
    let out = filter(&["[a]", "[e]"], 0, 0, &["abc", "def", "ghi"]);
    assert_eq!("abc\ndef\n", joined(&out));
}

#[test]
fn match_with_context_each_side() {
    let out = filter(&["MATCH"], 1, 1, &["x", "y", "MATCH", "z", "w"]);
    assert_eq!(strings(&["y", "MATCH", "z"]), out);
}

#[test]
fn empty_pattern_set_outputs_nothing() {
    assert_eq!(0, filter(&[], 0, 0, &["a", "b", "c"]).len());
    assert_eq!(0, filter(&[], 2, 3, &["a", "b", "c"]).len());
    assert_eq!(0, filter(&[], 5, 0, &["a", "b", "c"]).len());
}

#[test]
fn repeated_runs_agree() {
    let first = filter(&["[ae]", "h"], 2, 1, &["abc", "def", "ghi", "jkl", "mno"]);
    let second = filter(&["[ae]", "h"], 2, 1, &["abc", "def", "ghi", "jkl", "mno"]);
    assert_eq!(first, second);
}

#[test]
fn before_capped_by_history() {
    let out = filter(&["M"], 10, 0, &["a", "b", "c", "M"]);
    assert_eq!(strings(&["a", "b", "c", "M"]), out);
}

#[test]
fn before_evicts_oldest() {
    let out = filter(&["M"], 1, 0, &["a", "b", "M"]);
    assert_eq!(strings(&["b", "M"]), out);
}

#[test]
fn before_zero_keeps_no_context() {
    let out = filter(&["M"], 0, 2, &["x", "M"]);
    assert_eq!(strings(&["M"]), out);
}

#[test]
fn after_truncated_by_stream_end() {
    let out = filter(&["M"], 0, 5, &["M", "z"]);
    assert_eq!(strings(&["M", "z"]), out);
}

#[test]
fn match_inside_window_is_plain_context() {
    // The second matching line falls inside the first match's trailing
    // window: it is emitted as context only and does not re-arm the window,
    // so the line after it stays unemitted.
    let out = filter(&["m"], 0, 1, &["m1", "m2", "y", "z"]);
    assert_eq!(strings(&["m1", "m2"]), out);
}

#[test]
fn no_flush_at_end_of_stream() {
    let out = filter(&["M"], 5, 0, &["M", "x", "y"]);
    assert_eq!(strings(&["M"]), out);
}

#[test]
fn buffered_context_emitted_once() {
    // Two matches with their own context; nothing carries over between the
    // flushes and no line is duplicated.
    let out = filter(&["M"], 2, 0, &["a", "M1", "b", "c", "d", "M2"]);
    assert_eq!(strings(&["a", "M1", "c", "d", "M2"]), out);
}

#[test]
fn empty_line_is_a_line() {
    let out = filter(&["^$"], 0, 0, &["", "a", ""]);
    assert_eq!(strings(&["", ""]), out);
}

#[test]
fn invalid_pattern_reports_first_failure() {
    let err = compile_patterns(&strings(&["a", "[", "("])).expect_err("must fail");
    assert_eq!(1, err.index);
    assert_eq!("[", err.pattern);
}

#[test]
fn valid_patterns_all_compile() {
    let regexes = compile_patterns(&strings(&["^a.*b$", "[0-9]+"])).expect("must compile");
    assert_eq!(2, regexes.len());
}

#[test]
fn scanner_streams_like_whole_run() {
    let patterns = strings(&["[ae]", "h"]);
    let input = strings(&["abc", "def", "ghi", "jkl", "mno"]);
    let regexes = compile_patterns(&patterns).expect("patterns must compile");
    let mut scanner = Scanner::new(regexes, 1, 1);
    let mut streamed: Vec<String> = Vec::new();
    for line in input.clone() {
        streamed.append(&mut scanner.process_line(line));
    }
    let regexes_again = compile_patterns(&patterns).expect("patterns must compile");
    let whole = run_filter(regexes_again, 1, 1, input);
    assert_eq!(whole, streamed);
}
