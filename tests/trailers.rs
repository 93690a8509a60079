use git_cmp::engine::{branch_mode_names, commit_mode_names};
use git_cmp::trailer::{line_to_upstream, same_chars, split_segments, split_words, upstream_candidates};

fn strings(v: &[&str]) -> Vec<String> {
    v.iter().map(|s| s.to_string()).collect()
}

#[test]
fn commit_line_gives_second_word() {
    assert_eq!(line_to_upstream("commit abc123"), Some("abc123".to_string()));
    assert_eq!(line_to_upstream("  commit \t abc123  trailing"), Some("abc123".to_string()));
}

#[test]
fn commit_line_without_id_gives_nothing() {
    assert_eq!(line_to_upstream("commit"), None);
    assert_eq!(line_to_upstream("commit   "), None);
}

#[test]
fn cherry_pick_line_strips_parenthesis() {
    assert_eq!(
        line_to_upstream("(cherry picked from commit def456)"),
        Some("def456".to_string())
    );
}

#[test]
fn short_cherry_pick_line_gives_nothing() {
    assert_eq!(line_to_upstream("(cherry picked from commit"), None);
    assert_eq!(line_to_upstream("(cherry picked"), None);
}

#[test]
fn other_lines_give_nothing() {
    assert_eq!(line_to_upstream(""), None);
    assert_eq!(line_to_upstream("fix the commit parser"), None);
    assert_eq!(line_to_upstream("Commit abc"), None);
    assert_eq!(line_to_upstream("(cherry chosen from commit abc)"), None);
}

#[test]
fn candidates_follow_line_order() {
    let msg = "Pick a fix\n\ncommit abc123\n(cherry picked from commit def456)\n";
    assert_eq!(upstream_candidates(msg), strings(&["abc123", "def456"]));
}

#[test]
fn candidates_keep_repeats() {
    let msg = "commit abc\ncommit abc\r\n";
    assert_eq!(upstream_candidates(msg), strings(&["abc", "abc"]));
}

#[test]
fn message_without_trailers_has_no_candidates() {
    assert!(upstream_candidates("Just a subject\n\nand a body\n").is_empty());
    assert!(upstream_candidates("").is_empty());
}

#[test]
fn words_split_on_ascii_whitespace() {
    let line: Vec<char> = " a  bc\td\r".chars().collect();
    let words = split_words(&line);
    let words: Vec<String> = words.iter().map(|w| w.iter().collect()).collect();
    assert_eq!(words, strings(&["a", "bc", "d"]));
}

#[test]
fn segments_split_on_newline() {
    let text: Vec<char> = "a\n\nb".chars().collect();
    let segs = split_segments(&text);
    let segs: Vec<String> = segs.iter().map(|w| w.iter().collect()).collect();
    assert_eq!(segs, strings(&["a", "", "b"]));
}

#[test]
fn same_chars_compares_contents() {
    assert!(same_chars(&vec!['a', 'b'], &vec!['a', 'b']));
    assert!(!same_chars(&vec!['a', 'b'], &vec!['a', 'c']));
    assert!(!same_chars(&vec!['a'], &vec!['a', 'b']));
}

#[test]
fn commit_mode_adds_head_for_one_name() {
    assert_eq!(commit_mode_names(&strings(&["x"]), false), strings(&["x", "HEAD"]));
    assert_eq!(commit_mode_names(&strings(&["x", "y"]), false), strings(&["x", "y"]));
}

#[test]
fn commit_mode_with_autofetch_adds_nothing() {
    assert_eq!(commit_mode_names(&strings(&["x"]), true), strings(&["x"]));
}

#[test]
fn branch_mode_defaults_upstream_and_current() {
    assert_eq!(branch_mode_names(&strings(&["x"])), strings(&["x", "main", "HEAD"]));
    assert_eq!(branch_mode_names(&strings(&["x", "up"])), strings(&["x", "up", "HEAD"]));
    assert_eq!(
        branch_mode_names(&strings(&["x", "up", "cur"])),
        strings(&["x", "up", "cur"])
    );
}
