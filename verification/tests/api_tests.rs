use moodle_cli::api::{
    activities_in_page, course_list_urls, course_url, next_course_list, courses_in_page, extract_id_from_href,
    moodle_url_with, section_url, sections_in_page,
};
use moodle_cli::types::ActivityType;

#[test]
fn extract_id_reads_course_link() {
    assert_eq!(extract_id_from_href("https://x/course/view.php?id=42", "id="), Some(42));
}

#[test]
fn extract_id_takes_first_parameter_with_prefix() {
    assert_eq!(extract_id_from_href("view.php?foo=1&id=7", "id="), Some(7));
    assert_eq!(extract_id_from_href("a?xid=3&id=4", "id="), Some(4));
    assert_eq!(extract_id_from_href("a?id=1&id=2", "id="), Some(1));
}

#[test]
fn extract_id_refuses_non_numbers() {
    assert_eq!(extract_id_from_href("view.php?id=abc", "id="), None);
    assert_eq!(extract_id_from_href("a?id=1?id=2", "id="), None);
    assert_eq!(extract_id_from_href("a?id=", "id="), None);
}

#[test]
fn extract_id_needs_a_query() {
    assert_eq!(extract_id_from_href("view.php", "id="), None);
    assert_eq!(extract_id_from_href("a?x=1&y=2", "id="), None);
}

#[test]
fn extract_id_accepts_plus_and_rejects_overflow() {
    assert_eq!(extract_id_from_href("a?id=+5", "id="), Some(5));
    assert_eq!(extract_id_from_href("a?id=4294967295", "id="), Some(4294967295));
    assert_eq!(extract_id_from_href("a?id=4294967296", "id="), None);
}

#[test]
fn extract_id_roundtrip_example() {
    let href = format!("https://host/course/view.php?id={}&section=3", 31337u32);
    assert_eq!(extract_id_from_href(&href, "id="), Some(31337));
}

#[test]
fn courses_are_read_from_course_links() {
    let page = r#"<html><body>
        <a href="https://x/course/view.php?id=5"> Math </a>
        <a href="https://x/course/view.php?id=5">Again</a>
        <a href="https://x/course/view.php?id=6">   </a>
        <a href="https://x/other.php?id=8">Other</a>
        <a>No link</a>
        <a href="https://x/course/view.php?id=7">Science</a>
    </body></html>"#;
    let courses = courses_in_page(page).unwrap();
    let got: Vec<(u32, String)> = courses.into_iter().map(|c| (c.id, c.name)).collect();
    assert_eq!(got, vec![(5, "Math".to_string()), (7, "Science".to_string())]);
}

#[test]
fn courses_of_empty_page() {
    assert!(courses_in_page("<p>nothing</p>").unwrap().is_empty());
}

#[test]
fn sections_are_numbered_and_named() {
    let page = r#"<ul>
        <li class="section main" id="section-1"><h3 class="sectionname"> Intro </h3></li>
        <li class="section" id="section-0"><h3>Zero</h3></li>
        <li class="section" id="section-2"><p>no heading</p></li>
        <li class="section" id="other"><h3>Other</h3></li>
    </ul>"#;
    let got: Vec<(u32, String)> =
        sections_in_page(page).unwrap().into_iter().map(|s| (s.id, s.name)).collect();
    assert_eq!(got, vec![(1, "Intro".to_string()), (2, "Section 2".to_string())]);
}

#[test]
fn activities_are_kinds_of_links() {
    let page = r#"<div>
        <a href="https://x/mod/quiz/view.php?id=10"> Quiz 1 </a>
        <a href="https://x/mod/assign/view.php?id=11">Report</a>
        <a href="https://x/mod/url/view.php?id=12">Slides</a>
        <a href="https://x/mod/quiz/view.php?id=10">Quiz again</a>
        <a href="https://x/mod/forum/view.php?id=13">Forum</a>
    </div>"#;
    let got: Vec<(u32, String, ActivityType)> = activities_in_page(page)
        .unwrap()
        .into_iter()
        .map(|a| (a.id, a.name, a.activity_type))
        .collect();
    assert_eq!(
        got,
        vec![
            (10, "Quiz 1".to_string(), ActivityType::Quiz),
            (11, "Report".to_string(), ActivityType::Assignment),
            (12, "Slides".to_string(), ActivityType::Url),
        ]
    );
}

#[test]
fn activity_kind_queries() {
    let page = r#"<a href="https://x/mod/assign/view.php?id=3">A</a><a href="https://x/mod/url/view.php?id=4">U</a>"#;
    let acts = activities_in_page(page).unwrap();
    assert!(acts[0].is_assignment());
    assert!(!acts[0].is_url());
    assert!(acts[1].is_url());
    assert!(!acts[1].is_assignment());
}

#[test]
fn addresses_of_listings() {
    assert_eq!(
        course_list_urls(),
        vec![
            "https://joho.g-edu.uec.ac.jp/moodle3/my/index.php".to_string(),
            "https://joho.g-edu.uec.ac.jp/moodle3/".to_string()
        ]
    );
    assert_eq!(next_course_list(0, false), Some("https://joho.g-edu.uec.ac.jp/moodle3/my/index.php".to_string()));
    assert_eq!(next_course_list(1, false), Some("https://joho.g-edu.uec.ac.jp/moodle3/".to_string()));
    assert_eq!(next_course_list(1, true), None);
    assert_eq!(next_course_list(2, false), None);
    assert_eq!(course_url(5), "https://joho.g-edu.uec.ac.jp/moodle3/course/view.php?id=5");
    assert_eq!(section_url(5, 2), "https://joho.g-edu.uec.ac.jp/moodle3/course/view.php?id=5&section=2");
    assert_eq!(moodle_url_with("/a?id=", 0, "&b"), "https://joho.g-edu.uec.ac.jp/moodle3/a?id=0&b");
}

#[test]
fn id_after_another_parameter() {
    assert_eq!(extract_id_from_href("https://x/course/view.php?lang=ja&id=42", "id="), Some(42));
    assert_eq!(extract_id_from_href("view.php?section=3&id=7&x=1", "id="), Some(7));
    assert_eq!(extract_id_from_href("view.php?idx=1&id=7", "id="), Some(7));
}
