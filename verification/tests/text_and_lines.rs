use yunta_engine::lines::{fenced, indent_lines, lines, summary};
use yunta_engine::paths::{join, registry_path, Isolation, RunRoots};
use yunta_engine::text::{decimal, is_blank, ordinal, path_less, signed_decimal, text_less};

#[test]
fn numbers_are_written_in_decimal() {
    assert_eq!(decimal(0), "0");
    assert_eq!(decimal(1234567890), "1234567890");
    assert_eq!(decimal(u64::MAX), "18446744073709551615");
    assert_eq!(signed_decimal(-42), "-42");
    assert_eq!(signed_decimal(i32::MIN), "-2147483648");
    assert_eq!(ordinal(0), "1");
}

#[test]
fn text_sorts_by_code_point_and_paths_by_component() {
    assert!(text_less("a", "b"));
    assert!(text_less("a", "ab"));
    assert!(!text_less("ab", "ab"));
    assert!(text_less("a-b", "a/b"));
    assert!(path_less("a/b", "a-b"));
    assert!(path_less("a", "a/b"));
    assert!(!path_less("b", "a/b"));
}

#[test]
fn blank_text_is_only_white_space() {
    assert!(is_blank(""));
    assert!(is_blank(" \t\n\u{3000}"));
    assert!(!is_blank("  x "));
}

#[test]
fn lines_split_the_way_a_reader_sees_them() {
    assert_eq!(lines(""), Vec::<String>::new());
    assert_eq!(lines("a\n"), vec!["a".to_string()]);
    assert_eq!(lines("a\r\nb\n\nc"), vec!["a".to_string(), "b".to_string(), "".to_string(), "c".to_string()]);
    assert_eq!(lines("\n"), vec!["".to_string()]);
    assert_eq!(lines("end\r"), vec!["end\r".to_string()]);
}

#[test]
fn a_one_line_outcome_is_inline_code_and_anything_else_is_fenced() {
    assert_eq!(fenced("exit 1"), "`exit 1`");
    assert_eq!(fenced("one\ntwo"), "\n\n  ```\n  one\n  two\n  ```");
    assert_eq!(fenced("uses `x`"), "\n\n  ```\n  uses `x`\n  ```");
    assert_eq!(indent_lines("a\nb", "> "), "> a\n> b");
}

#[test]
fn a_suite_summary_is_its_last_five_lines_last_first() {
    assert_eq!(summary("1\n2\n3\n4\n5\n6\n7\n"), "7\n6\n5\n4\n3");
    assert_eq!(summary("only"), "only");
    assert_eq!(summary(""), "");
}

#[test]
fn paths_join_the_way_paths_extend() {
    assert_eq!(join("/runs/r1", "scratch/engine.json"), "/runs/r1/scratch/engine.json");
    assert_eq!(join("/runs/r1/", "x"), "/runs/r1/x");
    assert_eq!(join("/runs", "/abs"), "/abs");
    assert_eq!(registry_path("/runs/r1"), "/runs/r1/scratch/engine.json");
    let roots = RunRoots { runs: "/state/runs".to_string(), worktrees: "/state/trees".to_string() };
    assert_eq!(roots.successor_worktree(Isolation::Worktree, "r2", "/repo"), "/state/trees/r2");
    assert_eq!(roots.successor_worktree(Isolation::Shared, "r2", "/repo"), "/repo");
}
