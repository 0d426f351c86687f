use adopt::paths::join_path;
use adopt::text::{padded_left, padded_right, repeat_char, split_words_str, trim_str};

#[test]
fn padding_matches_format_widths() {
    assert_eq!(padded_right("ab", 5), format!("{:<5}", "ab"));
    assert_eq!(padded_left("ab", 5), format!("{:>5}", "ab"));
    assert_eq!(padded_right("abcdef", 3), "abcdef");
    assert_eq!(padded_left("é", 3), format!("{:>3}", "é"));
    assert_eq!(repeat_char('-', 4), "----");
}

#[test]
fn joining_paths_like_path_join() {
    assert_eq!(join_path("/home/joe", ".local"), "/home/joe/.local");
    assert_eq!(join_path("/home/joe/", ".local"), "/home/joe/.local");
    assert_eq!(join_path("/home/joe", "/abs"), "/abs");
    assert_eq!(join_path("", "rel"), "rel");
}

#[test]
fn words_and_trim() {
    assert_eq!(split_words_str("  a \t b\nc  "), vec!["a", "b", "c"]);
    assert!(split_words_str("   ").is_empty());
    assert_eq!(trim_str("\n x y \t"), "x y");
}
