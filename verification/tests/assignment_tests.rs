use moodle_cli::assignment::{
    assign_post_url, draft_url, submission_params,
    accepted_types, assign_url, author_name, confirm_sesskey, delete_fields, draft_action,
    draft_fields, extract_number, extract_str, file_clash, file_to_delete, fresh_form_values,
    overwrite_fields, overwrite_outcome, param_or, remove_fields, retry_succeeded,
    selected_json, submission_form, submission_status, submit_fields, submit_outcome,
    upload_fields, upload_outcome, upload_settings, upload_title, upload_url, DraftAction,
    OverwriteOutcome, SubmitOutcome, UploadOutcome,
};

fn pairs(v: &[(&str, &str)]) -> Vec<(String, String)> {
    v.iter().map(|(a, b)| (a.to_string(), b.to_string())).collect()
}

#[test]
fn status_is_read_or_unknown() {
    let page = r#"<div class="submithelp">  Submitted for grading  </div>"#;
    assert_eq!(submission_status(page), Some("Submitted for grading".to_string()));
    assert_eq!(submission_status("<p>x</p>"), Some("Unknown".to_string()));
}

#[test]
fn form_hidden_inputs_in_order() {
    let page = r#"<form action="x">
        <input type="hidden" name="sesskey" value="abc">
        <input type="text" name="title" value="t">
        <input type="hidden" name="userid" value="9">
        <input type="hidden" value="novalue">
    </form><form><input type="hidden" name="other" value="o"></form>"#;
    let params = submission_form(page).unwrap().unwrap();
    assert_eq!(params, pairs(&[("sesskey", "abc"), ("userid", "9"), ("", "novalue")]));
    assert_eq!(submission_form("<p>no form</p>"), Some(None));
}

#[test]
fn parameters_are_looked_up_with_defaults() {
    let params = pairs(&[("sesskey", "abc"), ("userid", "9"), ("sesskey", "later")]);
    assert_eq!(param_or(&params, "sesskey", ""), "abc");
    assert_eq!(param_or(&params, "lastmodified", ""), "");
    assert_eq!(param_or(&params, "files_filemanager", "0"), "0");
    assert_eq!(param_or(&pairs(&[]), "userid", "12501"), "12501");
}

#[test]
fn author_from_user_text_or_profile_or_default() {
    let view = r#"<span class="usertext"> Taro Yamada </span>"#;
    assert_eq!(author_name(view, ""), Some("Taro Yamada".to_string()));
    let edit = r#"<a href="https://x/user/view.php?id=3"> Hanako </a>"#;
    assert_eq!(author_name("<p></p>", edit), Some("Hanako".to_string()));
    assert_eq!(author_name("", ""), Some("山田 太郎".to_string()));
    let empty = r#"<span class="usertext">  </span>"#;
    assert_eq!(author_name(empty, edit), Some("山田 太郎".to_string()));
}

#[test]
fn accepted_types_listed_or_pdf() {
    let page = r#"var cfg = {"accepted_types": [".pdf", ".docx"], "x": 1};"#;
    assert_eq!(accepted_types(page, ","), Some(".pdf,.docx".to_string()));
    assert_eq!(accepted_types(page, ", "), Some(".pdf, .docx".to_string()));
    assert_eq!(accepted_types("nothing here", ","), Some(".pdf".to_string()));
    assert_eq!(accepted_types(r#""accepted_types":[ "" , " " ]"#, ","), Some(".pdf".to_string()));
}

#[test]
fn confirmation_key_or_fallback() {
    let page = r#"<input type="hidden" name="sesskey" value="k2">"#;
    assert_eq!(confirm_sesskey(page, "k1"), Some("k2".to_string()));
    assert_eq!(confirm_sesskey("<p></p>", "k1"), Some("k1".to_string()));
}

#[test]
fn draft_listing_read() {
    match draft_action(r#"{"path":"/","filecount":0}"#).unwrap() {
        DraftAction::Cleared => {}
        _ => panic!("expected cleared"),
    }
    match draft_action("no count").unwrap() {
        DraftAction::Cleared => {}
        _ => panic!("expected cleared"),
    }
    let listing = r#"{"list":[{"filename":"a.pdf","filepath":"/"},{"filename":"b c.pdf"}],"filecount":2}"#;
    match draft_action(listing).unwrap() {
        DraftAction::Delete { count, files } => {
            assert_eq!(count, "2");
            assert_eq!(files, vec!["a.pdf".to_string(), "b c.pdf".to_string()]);
        }
        _ => panic!("expected delete"),
    }
}

#[test]
fn extract_str_cuts_at_end_characters() {
    let ends = [' ', '\n', '"', '\'', '>'];
    assert_eq!(extract_str(r#"<div id="filemanager-abc123" x>"#, "filemanager-", &ends), Some("abc123".to_string()));
    assert_eq!(extract_str("no key here", "filemanager-", &ends), Some(String::new()));
    assert_eq!(extract_str("x filemanager-abc", "filemanager-", &ends), None);
    let long = format!("filemanager-{}>", "a".repeat(150));
    assert_eq!(extract_str(&long, "filemanager-", &ends), Some("a".repeat(100)));
}

#[test]
fn extract_number_reads_digits() {
    assert_eq!(extract_number("x?ctx_id=123&course=45", "ctx_id="), "123");
    assert_eq!(extract_number("x?ctx_id=123&course=45", "course="), "45");
    assert_eq!(extract_number("ctx_id=abc", "ctx_id="), "");
    assert_eq!(extract_number("nothing", "ctx_id="), "");
}

#[test]
fn upload_settings_and_address() {
    let page = r#"<div id="filemanager-abc123" data-x="1"></div>
        <script>M.cfg = {"maxbytes":"1024","areamaxbytes":-1,"repo_id":"7"};
        var u = "draft?ctx_id=12&course=34";</script>"#;
    let s = upload_settings(page).unwrap();
    assert_eq!(s.client_id, "abc123");
    assert_eq!(s.ctx_id, "12");
    assert_eq!(s.course, "34");
    assert_eq!(s.maxbytes, "1024");
    assert_eq!(s.areamaxbytes, "-1");
    assert_eq!(s.repo_id, "7");
    assert_eq!(
        upload_url("SK", "99", &s),
        "https://joho.g-edu.uec.ac.jp/moodle3/repository/repository_ajax.php?action=upload&sesskey=SK&ctx_id=12&course=34&itemid=99&client_id=abc123&repo_id=7&env=filemanager&maxbytes=1024&areamaxbytes=-1&p=/&page="
    );
}

#[test]
fn upload_settings_defaults() {
    let s = upload_settings("plain page").unwrap();
    assert_eq!(s.client_id, "");
    assert_eq!(s.ctx_id, "");
    assert_eq!(s.maxbytes, "5242880");
    assert_eq!(s.areamaxbytes, "-1");
    assert_eq!(s.repo_id, "4");
    let s2 = upload_settings(r#"<div data-repositoryid="5"></div> maxbytes = 2048"#).unwrap();
    assert_eq!(s2.repo_id, "5");
    assert_eq!(s2.maxbytes, "2048");
}

#[test]
fn upload_title_from_path() {
    assert_eq!(upload_title("/home/u/report.pdf"), "report.pdf");
    assert_eq!(upload_title("report.pdf"), "report.pdf");
    assert_eq!(upload_title(""), "file.pdf");
    assert_eq!(upload_title("dir/.."), "file.pdf");
}

#[test]
fn upload_replies() {
    assert_eq!(upload_outcome(r#"{"error":"too big"}"#), UploadOutcome::Error);
    assert_eq!(upload_outcome(r#"{"url":"u","file":"f"}"#), UploadOutcome::Stored);
    assert_eq!(
        upload_outcome(r#"{"event":"fileexists","url":"u","file":"f"}"#),
        UploadOutcome::FileExists
    );
    assert_eq!(upload_outcome("{}"), UploadOutcome::Unrecognised);
}

#[test]
fn file_clash_is_read() {
    let reply = r#"{"event":"fileexists","existingfile":{"filepath":"\/sub\/","filename":"a.pdf"},"newfile":{"filepath":"\/","filename":"a (1).pdf"}}"#;
    let c = file_clash(reply).unwrap().unwrap();
    assert_eq!(c.existing_path, "/sub/");
    assert_eq!(c.existing_name, "a.pdf");
    assert_eq!(c.new_name, "a (1).pdf");
    assert_eq!(file_to_delete(&c), "a.pdf");
    assert!(file_clash(r#"{"event":"fileexists"}"#).unwrap().is_none());
    assert_eq!(
        overwrite_fields("SK", "C", "9", &c),
        pairs(&[
            ("sesskey", "SK"),
            ("client_id", "C"),
            ("filepath", "/"),
            ("itemid", "9"),
            ("existingfilename", "a.pdf"),
            ("existingfilepath", "/sub/"),
            ("newfilename", "a.pdf"),
            ("newfilepath", "/sub/"),
        ])
    );
}

#[test]
fn overwrite_and_retry_replies() {
    assert_eq!(overwrite_outcome(""), OverwriteOutcome::Overwritten);
    assert_eq!(overwrite_outcome("true"), OverwriteOutcome::Overwritten);
    assert_eq!(overwrite_outcome(r#"{"event":"overwritten"}"#), OverwriteOutcome::Overwritten);
    assert_eq!(overwrite_outcome("false"), OverwriteOutcome::Failed);
    assert_eq!(overwrite_outcome(r#"{"error":"x"}"#), OverwriteOutcome::Failed);
    assert_eq!(overwrite_outcome("odd"), OverwriteOutcome::Unclear);
    assert!(retry_succeeded("true"));
    assert!(retry_succeeded(r#"{"file":"x"}"#));
    assert!(!retry_succeeded(r#"{"error":"x","file":"y"}"#));
    assert!(!retry_succeeded("odd"));
}

#[test]
fn fresh_values_or_previous() {
    let page = r#"<input name="lastmodified" value="1700"><input name="sesskey" value="new">"#;
    assert_eq!(fresh_form_values(page, "1", "old"), Some(("1700".to_string(), "new".to_string())));
    assert_eq!(fresh_form_values("", "1", "old"), Some(("1".to_string(), "old".to_string())));
}

#[test]
fn submission_replies() {
    assert_eq!(submit_outcome("x submissionstatussubmitted y"), SubmitOutcome::Submitted);
    assert_eq!(submit_outcome("success"), SubmitOutcome::LikelySubmitted);
    assert_eq!(submit_outcome("エラーです"), SubmitOutcome::LikelyFailed);
    assert_eq!(submit_outcome(r#"{"error":1}"#), SubmitOutcome::LikelyFailed);
    assert_eq!(submit_outcome("hmm"), SubmitOutcome::Unclear);
}

#[test]
fn request_fields() {
    assert_eq!(
        remove_fields(8, "9", "SK"),
        pairs(&[("id", "8"), ("action", "removesubmission"), ("userid", "9"), ("sesskey", "SK")])
    );
    assert_eq!(
        draft_fields("SK", "", "99"),
        pairs(&[("sesskey", "SK"), ("client_id", ""), ("filepath", "/"), ("itemid", "99")])
    );
    assert_eq!(selected_json("a.pdf"), r#"[{"filepath":"/","filename":"a.pdf"}]"#);
    assert_eq!(delete_fields("SK", "", "99", "a.pdf").last().unwrap().1, r#"[{"filepath":"/","filename":"a.pdf"}]"#);
    assert_eq!(
        upload_fields("99", ".pdf", "r.pdf", "Taro"),
        pairs(&[("itemid", "99"), ("accepted_types[]", ".pdf"), ("title", "r.pdf"), ("author", "Taro")])
    );
    assert_eq!(
        submit_fields(8, "9", "1700", "SK", "99"),
        pairs(&[
            ("action", "savesubmission"),
            ("id", "8"),
            ("userid", "9"),
            ("lastmodified", "1700"),
            ("sesskey", "SK"),
            ("_qf__mod_assign_submission_form", "1"),
            ("files_filemanager", "99"),
            ("submitbutton", "提出する"),
        ])
    );
    assert_eq!(
        assign_url(8, "&action=editsubmission"),
        "https://joho.g-edu.uec.ac.jp/moodle3/mod/assign/view.php?id=8&action=editsubmission"
    );
}

#[test]
fn submission_form_values_with_defaults() {
    let p = submission_params(&pairs(&[("sesskey", "SK"), ("files_filemanager", "99")]));
    assert_eq!(p.draft_id, "99");
    assert_eq!(p.sesskey, "SK");
    assert_eq!(p.lastmodified, "");
    assert_eq!(p.userid, "12501");
    assert_eq!(draft_url("list"), "https://joho.g-edu.uec.ac.jp/moodle3/repository/draftfiles_ajax.php?action=list");
    assert_eq!(assign_post_url(), "https://joho.g-edu.uec.ac.jp/moodle3/mod/assign/view.php");
}
