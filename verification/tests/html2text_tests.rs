use moodle_cli::html2text::{html_to_term, strip_tag_regions, try_html_to_term, try_strip_tag_regions};

#[test]
fn strip_removes_script_region() {
    assert_eq!(strip_tag_regions("a<script>x()</script>b", "<script", "</script>"), "ab");
}

#[test]
fn strip_ignores_case_of_tags() {
    assert_eq!(strip_tag_regions("a<SCRIPT>x</Script>b", "<script", "</script>"), "ab");
}

#[test]
fn strip_keeps_unclosed_region() {
    assert_eq!(strip_tag_regions("a<script>x", "<script", "</script>"), "a<script>x");
}

#[test]
fn strip_keeps_text_without_tags() {
    assert_eq!(strip_tag_regions("plain text", "<style", "</style>"), "plain text");
}

#[test]
fn strip_handles_multibyte_text() {
    assert_eq!(strip_tag_regions("日本<style>p{}</style>語", "<style", "</style>"), "日本語");
}

#[test]
fn strip_removes_several_regions() {
    assert_eq!(strip_tag_regions("1<b>x</b>2<b>y</b>3", "<b", "</b>"), "123");
}

#[test]
fn try_strip_reports_endless_scan() {
    assert_eq!(try_strip_tag_regions("a<x", "<x", ""), None);
    assert_eq!(try_strip_tag_regions("abc", "<x", ""), Some("abc".to_string()));
}

#[test]
fn term_paragraphs() {
    assert_eq!(html_to_term("<p>Hello</p><p>World</p>"), "Hello\n\nWorld");
}

#[test]
fn term_list() {
    assert_eq!(html_to_term("<ul><li>a</li><li>b</li></ul>"), "- a\n- b");
}

#[test]
fn term_preformatted_block() {
    assert_eq!(html_to_term("<pre>x &lt; y</pre>"), "```\nx < y\n```");
}

#[test]
fn term_link_and_emphasis() {
    assert_eq!(
        html_to_term("<p>See <a href=\"https://e.x/a\">this</a> <strong>now</strong></p>"),
        "See [this](https://e.x/a) **now**"
    );
}

#[test]
fn term_script_and_entities() {
    assert_eq!(
        html_to_term("<script>var a=1;</script>A &amp; B&nbsp;&mdash; C<br>D"),
        "A & B — C\nD"
    );
}

#[test]
fn term_heading() {
    assert_eq!(html_to_term("<h2 class=\"x\">Title</h2>text"), "## Title\ntext");
}

#[test]
fn try_term_some_on_page() {
    assert_eq!(try_html_to_term("<p>x</p>"), Some("x".to_string()));
}

#[test]
fn term_plain_text_is_kept() {
    assert_eq!(html_to_term("  a b c  "), "a b c");
}

#[test]
fn term_code_blocks_are_numbered_in_order() {
    assert_eq!(
        html_to_term("<pre>one</pre>text<code>two &amp; three</code>"),
        "```\none\n```\ntext\n```\ntwo & three\n```"
    );
}

#[test]
fn removing_regions_never_lengthens() {
    for t in ["a<SCRIPT>x</script>b", "plain", "<script>open only", ""] {
        let r = strip_tag_regions(t, "<script", "</script>");
        assert!(r.chars().count() <= t.chars().count());
    }
    assert_eq!(strip_tag_regions("a<SCRIPT>x</script>b", "<script", "</script>"), "ab");
}

#[test]
fn ascii_stripping_follows_its_steps() {
    assert_eq!(strip_tag_regions("", "<style", "</style>"), "");
    assert_eq!(strip_tag_regions("<STYLE>a{}</Style>rest", "<style", "</style>"), "rest");
    assert_eq!(strip_tag_regions("x<style>y", "<style", "</style>"), "x<style>y");
    assert_eq!(strip_tag_regions("plain text", "<style", "</style>"), "plain text");
}
