use moodle_cli::text::{collapse_white_space_exec, str_contains, str_eq, str_replace, str_trim};

#[test]
fn replace_is_left_to_right_and_non_overlapping() {
    assert_eq!(str_replace("aaa", "aa", "b"), "ba");
    assert_eq!(str_replace("x&amp;y&amp;", "&amp;", "&"), "x&y&");
    assert_eq!(str_replace("none", "zz", "y"), "none");
}

#[test]
fn trim_removes_unicode_white_space() {
    assert_eq!(str_trim("\u{3000} a b \n\t"), "a b");
    assert_eq!(str_trim("   "), "");
}

#[test]
fn collapse_joins_words_with_single_spaces() {
    assert_eq!(collapse_white_space_exec("  What   is\n 2+2 ?  "), "What is 2+2 ?");
    assert_eq!(collapse_white_space_exec(""), "");
}

#[test]
fn contains_and_eq() {
    assert!(str_contains("review.php?attempt=1", "review.php"));
    assert!(!str_contains("view.php", "review.php"));
    assert!(str_contains("abc", ""));
    assert!(str_eq("日本", "日本"));
    assert!(!str_eq("a", "ab"));
}
