use moodle_cli::resource::{
    file_name_from_url, images, is_blank, is_file_url, is_image_data, link_url, page_content,
    fetch_step, safe_name, FetchStep, ImageEntry, FETCH_ATTEMPTS,
};

#[test]
fn files_are_told_by_extension() {
    assert!(is_file_url("https://x/a/FILE.PDF"));
    assert!(is_file_url("https://x/v.mp4"));
    assert!(is_file_url("https://x/pic.JPEG"));
    assert!(!is_file_url("https://x/page.php?id=1"));
    assert!(!is_file_url("https://x/file.pdf?forcedownload=1"));
    assert!(!is_file_url("https://x/noext"));
}

#[test]
fn file_names_from_addresses() {
    assert_eq!(file_name_from_url("https://x/files/a.pdf?forcedownload=1"), "a.pdf");
    assert_eq!(file_name_from_url("https://x/files/"), "");
    assert_eq!(file_name_from_url("plain"), "plain");
}

#[test]
fn folder_names_keep_safe_characters() {
    assert_eq!(safe_name(" Report: 1/2 (final) "), "Report 12 final");
    assert_eq!(safe_name("講義_資料-1"), "講義_資料-1");
    assert_eq!(safe_name("../.."), "");
}

#[test]
fn image_data_by_magic_bytes() {
    assert!(is_image_data(b"\x89PNG\r\n\x1a\n"));
    assert!(is_image_data(b"GIF89a\x01\x00"));
    assert!(is_image_data(b"RIFF\x00\x00\x00\x00WEBP"));
    assert!(!is_image_data(b"\xFF\xD8\xFF\xE0\x00\x10JFIF"));
    assert!(!is_image_data(b"\x89PNG"));
    assert!(!is_image_data(b"<html>..."));
}

#[test]
fn retries_pause_longer_each_time() {
    assert_eq!(FETCH_ATTEMPTS, 3);
    assert_eq!(fetch_step(1, false), FetchStep::Retry { pause_ms: 1000 });
    assert_eq!(fetch_step(2, false), FetchStep::Retry { pause_ms: 2000 });
    assert_eq!(fetch_step(3, false), FetchStep::GiveUp);
    assert_eq!(fetch_step(2, true), FetchStep::Use);
}

#[test]
fn content_from_first_place_found() {
    let page = r#"<html><body><div class="generalbox"><p>General</p></div>
        <div class="resourcecontent"><p>Hi</p></div></body></html>"#;
    assert_eq!(page_content(page), Some((Some(".resourcecontent".to_string()), "<p>Hi</p>".to_string())));
    let blank_first = r#"<html><body><div class="resourcecontent">  </div><div id="region-main">Main</div></body></html>"#;
    assert_eq!(page_content(blank_first), Some((Some("#region-main".to_string()), "Main".to_string())));
}

#[test]
fn content_falls_back_to_body() {
    let page = "<html><body><style>p{}</style><p>Only</p></body></html>";
    assert_eq!(page_content(page), Some((Some("<body>".to_string()), "<p>Only</p>".to_string())));
    let (src, html) = page_content("<html><body> </body></html>").unwrap();
    assert_eq!(src, Some("<body>".to_string()));
    assert!(is_blank(&html));
}

#[test]
fn images_resolve_against_the_page() {
    let entries = images(
        r#"<p><img src="/pix/a.png?x=1" alt="A"><img src="b.gif"></p>"#,
        "https://x/mod/url/view.php?id=1",
    )
    .unwrap();
    let got: Vec<(String, String, String)> = entries
        .into_iter()
        .map(|e| match e {
            ImageEntry::Image { label, url, file_name } => (label, url, file_name),
            ImageEntry::BadBase => panic!("unexpected bad base"),
        })
        .collect();
    assert_eq!(
        got,
        vec![
            ("A".to_string(), "https://x/pix/a.png?x=1".to_string(), "a.png".to_string()),
            ("image".to_string(), "https://x/mod/url/b.gif".to_string(), "b.gif".to_string()),
        ]
    );
    match &images(r#"<img src="a.png">"#, "not a url").unwrap()[0] {
        ImageEntry::BadBase => {}
        _ => panic!("expected bad base"),
    }
    assert_eq!(link_url(12), "https://joho.g-edu.uec.ac.jp/moodle3/mod/url/view.php?id=12");
}
