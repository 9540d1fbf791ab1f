use moodle_cli::assign_flow::{AssignAction, AssignFlow, AssignRequest, AssignStage, AssignStep};

fn pairs(v: &[(&str, &str)]) -> Vec<(String, String)> {
    v.iter().map(|(a, b)| (a.to_string(), b.to_string())).collect()
}

fn lines(v: &[&str]) -> Vec<String> {
    v.iter().map(|s| s.to_string()).collect()
}

const BASE: &str = "https://joho.g-edu.uec.ac.jp/moodle3";
const VIEW: &str = r#"<div class="submithelp"> Not submitted </div><span class="usertext">Taro</span>"#;
const EDIT: &str = r#"<form action="x">
  <input type="hidden" name="sesskey" value="SK">
  <input type="hidden" name="files_filemanager" value="99">
  <input type="hidden" name="lastmodified" value="1700">
  <input type="hidden" name="userid" value="7">
</form><script>{"accepted_types":[".pdf",".docx"]}</script>"#;
const SETTINGS: &str = r#"<div id="filemanager-cid1" class="fm"></div> ctx_id=5&course=3 {"maxbytes":1000,"repo_id":"8"}"#;
const CLASH: &str = r#"{"event":"fileexists","existingfile":{"filepath":"\/","filename":"report.pdf"},"newfile":{"filepath":"\/","filename":"report (1).pdf"}}"#;

fn get_of(a: &AssignAction) -> (String, AssignRequest) {
    match a {
        AssignAction::Get { url, request } => (url.clone(), *request),
        _ => panic!("expected a fetch"),
    }
}

fn post_of(a: &AssignAction) -> (String, Vec<(String, String)>, AssignRequest) {
    match a {
        AssignAction::Post { url, fields, request } => (url.clone(), fields.clone(), *request),
        _ => panic!("expected a post"),
    }
}

fn upload_of(a: &AssignAction) -> (String, Vec<(String, String)>, AssignRequest) {
    match a {
        AssignAction::Upload { url, fields, request } => (url.clone(), fields.clone(), *request),
        _ => panic!("expected an upload"),
    }
}

fn wait_of(a: &AssignAction) -> u64 {
    match a {
        AssignAction::Wait { ms } => *ms,
        _ => panic!("expected a pause"),
    }
}

fn is_done(a: &AssignAction) -> bool {
    matches!(a, AssignAction::Done)
}

fn to_listing(flow: &mut AssignFlow) {
    flow.on_page(VIEW).unwrap();
    flow.on_page(EDIT).unwrap();
    flow.on_page(r#"<input type="hidden" name="sesskey" value="SK2">"#).unwrap();
    flow.on_page("").unwrap();
    flow.on_waited().unwrap();
    assert_eq!(flow.stage(), AssignStage::List);
}

fn to_upload(flow: &mut AssignFlow) {
    to_listing(flow);
    flow.on_page(r#"{"filecount":0}"#).unwrap();
    flow.on_page(SETTINGS).unwrap();
    assert_eq!(flow.stage(), AssignStage::Upload);
}

#[test]
fn assign_flow_reads_the_pages_and_removes_the_submission() {
    let (mut flow, first) = AssignFlow::begin(42, "/tmp/report.pdf");
    assert_eq!(get_of(&first), (format!("{BASE}/mod/assign/view.php?id=42"), AssignRequest::View));
    let s: AssignStep = flow.on_page(VIEW).unwrap();
    assert_eq!(s.lines, lines(&["Submission status: Not submitted"]));
    assert_eq!(get_of(&s.action), (format!("{BASE}/mod/assign/view.php?id=42&action=editsubmission"), AssignRequest::Edit));
    let s = flow.on_page(EDIT).unwrap();
    assert_eq!(
        s.lines,
        lines(&[
            "  sesskey: SK",
            "  file_draft_id: 99",
            "  lastmodified: 1700",
            "  userid: 7",
            "  author: Taro",
            "  accepted file types: .pdf,.docx",
            "\nRemoving existing submission...",
        ])
    );
    assert_eq!(
        get_of(&s.action),
        (format!("{BASE}/mod/assign/view.php?id=42&action=removesubmissionconfirm"), AssignRequest::Confirm)
    );
    let s = flow.on_page(r#"<input type="hidden" name="sesskey" value="SK2">"#).unwrap();
    assert_eq!(
        post_of(&s.action),
        (
            format!("{BASE}/mod/assign/view.php"),
            pairs(&[("id", "42"), ("action", "removesubmission"), ("userid", "7"), ("sesskey", "SK2")]),
            AssignRequest::Remove
        )
    );
    let s = flow.on_page("").unwrap();
    assert_eq!(s.lines, lines(&["\nWaiting for draft area to be cleared...", "  Attempt 1 of 5..."]));
    assert_eq!(wait_of(&s.action), 1000);
    let s = flow.on_waited().unwrap();
    assert_eq!(
        post_of(&s.action),
        (
            format!("{BASE}/repository/draftfiles_ajax.php?action=list"),
            pairs(&[("sesskey", "SK"), ("client_id", ""), ("filepath", "/"), ("itemid", "99")]),
            AssignRequest::List
        )
    );
}

#[test]
fn assign_flow_clears_the_draft_area() {
    let (mut flow, _) = AssignFlow::begin(42, "/tmp/report.pdf");
    to_listing(&mut flow);
    let listing = r#"{"filecount":2,"list":[{"filename":"a.pdf"},{"filename":"b.pdf"}]}"#;
    let s = flow.on_page(listing).unwrap();
    assert_eq!(
        s.lines,
        lines(&["  Server reports filecount: 2", "  Draft area still has 2 files, deleting them...", "    Deleting: a.pdf"])
    );
    let (url, fields, request) = post_of(&s.action);
    assert_eq!(url, format!("{BASE}/repository/draftfiles_ajax.php?action=deleteselected"));
    assert_eq!(fields.last().unwrap().1, r#"[{"filepath":"/","filename":"a.pdf"}]"#);
    assert_eq!(request, AssignRequest::Delete);
    let s = flow.on_page("").unwrap();
    assert_eq!(s.lines, lines(&["    Deleting: b.pdf"]));
    let s = flow.on_page("").unwrap();
    assert_eq!(wait_of(&s.action), 1000);
    assert!(s.lines.is_empty());
    let s = flow.on_waited().unwrap();
    assert_eq!(s.lines, lines(&["  Attempt 2 of 5..."]));
    flow.on_waited().unwrap();
    let s = flow.on_page(r#"{"filecount":0}"#).unwrap();
    assert_eq!(s.lines, lines(&["  Server reports filecount: 0", "  Draft area is empty!"]));
    assert_eq!(get_of(&s.action).1, AssignRequest::Settings);
}

#[test]
fn assign_flow_gives_up_clearing_after_five_listings() {
    let (mut flow, _) = AssignFlow::begin(42, "/tmp/report.pdf");
    to_listing(&mut flow);
    for n in 1..=5 {
        let s = flow.on_page(r#"{"filecount":1}"#).unwrap();
        assert_eq!(wait_of(&s.action), 1000);
        let s = flow.on_waited().unwrap();
        if n < 5 {
            assert_eq!(s.lines, vec![format!("  Attempt {} of 5...", n + 1)]);
            flow.on_waited().unwrap();
        } else {
            assert_eq!(
                s.lines,
                lines(&["  WARNING: Could not clear draft area after 5 attempts, proceeding anyway..."])
            );
            assert_eq!(get_of(&s.action).1, AssignRequest::Settings);
        }
    }
}

#[test]
fn assign_flow_uploads_with_the_settings() {
    let (mut flow, _) = AssignFlow::begin(42, "/tmp/report.pdf");
    to_listing(&mut flow);
    flow.on_page(r#"{"filecount":0}"#).unwrap();
    let s = flow.on_page(SETTINGS).unwrap();
    assert_eq!(
        s.lines,
        lines(&[
            "\n  ctx_id: 5",
            "  course: 3",
            "  client_id: cid1",
            "  maxbytes: 1000",
            "  areamaxbytes: -1",
            "  repo_id: 8",
        ])
    );
    let (url, fields, request) = upload_of(&s.action);
    assert_eq!(
        url,
        format!("{BASE}/repository/repository_ajax.php?action=upload&sesskey=SK&ctx_id=5&course=3&itemid=99&client_id=cid1&repo_id=8&env=filemanager&maxbytes=1000&areamaxbytes=-1&p=/&page=")
    );
    assert_eq!(
        fields,
        pairs(&[("itemid", "99"), ("accepted_types[]", ".pdf,.docx"), ("title", "report.pdf"), ("author", "Taro")])
    );
    assert_eq!(request, AssignRequest::Upload);
}

#[test]
fn assign_flow_resolves_a_clash_and_submits() {
    let (mut flow, _) = AssignFlow::begin(42, "/tmp/report.pdf");
    to_upload(&mut flow);
    let s = flow.on_page(CLASH).unwrap();
    assert_eq!(s.lines[1], "\n[!] File already exists - attempting overwrite...");
    assert_eq!(s.lines[2], "  Overwriting: report.pdf");
    let (url, fields, _) = post_of(&s.action);
    assert_eq!(url, format!("{BASE}/repository/draftfiles_ajax.php?action=overwrite"));
    assert_eq!(
        fields,
        pairs(&[
            ("sesskey", "SK"),
            ("client_id", "cid1"),
            ("filepath", "/"),
            ("itemid", "99"),
            ("existingfilename", "report.pdf"),
            ("existingfilepath", "/"),
            ("newfilename", "report.pdf"),
            ("newfilepath", "/"),
        ])
    );
    let s = flow.on_page("false").unwrap();
    assert_eq!(s.lines, lines(&["  Overwrite response: false", "\n[!] Overwrite failed, trying delete-then-upload..."]));
    let (_, fields, request) = post_of(&s.action);
    assert_eq!(request, AssignRequest::DeleteClash);
    assert_eq!(fields.last().unwrap().1, r#"[{"filepath":"/","filename":"report.pdf"}]"#);
    assert_eq!(wait_of(&flow.on_page("").unwrap().action), 2000);
    let s = flow.on_waited().unwrap();
    let (_, fields, request) = post_of(&s.action);
    assert_eq!(request, AssignRequest::ListAfterDelete);
    assert_eq!(fields, pairs(&[("sesskey", "SK"), ("client_id", "cid1"), ("filepath", "/"), ("itemid", "99")]));
    let s = flow.on_page("{}").unwrap();
    assert_eq!(s.lines, lines(&["  List after delete: {}"]));
    assert_eq!(upload_of(&s.action).2, AssignRequest::Reupload);
    let s = flow.on_page(r#"{"file":"x"}"#).unwrap();
    assert_eq!(s.lines[1], "\n[+] Upload succeeded after delete!");
    assert_eq!(get_of(&s.action).1, AssignRequest::Refresh);
    let refreshed = r#"<input name="lastmodified" value="1800"><input name="sesskey" value="SK3">"#;
    let s = flow.on_page(refreshed).unwrap();
    assert_eq!(s.lines, lines(&["  fresh lastmodified: 1800", "  fresh sesskey: SK3", "\nSubmitting assignment..."]));
    match &s.action {
        AssignAction::Submit { url, fields } => {
            assert_eq!(url, &format!("{BASE}/mod/assign/view.php"));
            assert_eq!(
                fields,
                &pairs(&[
                    ("action", "savesubmission"),
                    ("id", "42"),
                    ("userid", "7"),
                    ("lastmodified", "1800"),
                    ("sesskey", "SK3"),
                    ("_qf__mod_assign_submission_form", "1"),
                    ("files_filemanager", "99"),
                    ("submitbutton", "提出する"),
                ])
            );
        }
        _ => panic!("expected the submission"),
    }
    let s = flow.on_page("submissionstatussubmitted").unwrap();
    assert_eq!(s.lines, lines(&["  Body length: 25 bytes", "\n[+] ASSIGNMENT SUBMISSION SUCCEEDED!"]));
    assert!(is_done(&s.action));
    assert_eq!(flow.stage(), AssignStage::Over);
    assert!(flow.on_page("").is_none());
    assert!(flow.on_waited().is_none());
}

#[test]
fn assign_flow_stops_on_errors() {
    let (mut flow, _) = AssignFlow::begin(42, "/tmp/report.pdf");
    flow.on_page(VIEW).unwrap();
    match flow.on_page("<p>no form</p>").unwrap().action {
        AssignAction::Abort { message } => assert_eq!(message, "  [!] Could not find submission form on edit page"),
        _ => panic!("expected an abort"),
    }

    let (mut flow, _) = AssignFlow::begin(42, "/tmp/report.pdf");
    to_upload(&mut flow);
    let s = flow.on_page(r#"{"error":"too big"}"#).unwrap();
    assert_eq!(s.lines, lines(&[r#"  Upload body: {"error":"too big"}"#, "\n[!] Upload returned error!"]));
    assert!(is_done(&s.action));

    let (mut flow, _) = AssignFlow::begin(42, "/tmp/report.pdf");
    to_upload(&mut flow);
    let s = flow.on_page(r#"{"event":"fileexists"}"#).unwrap();
    assert_eq!(s.lines.last().unwrap(), "\n[!] Could not parse fileexists response");
    assert!(is_done(&s.action));

    let (mut flow, _) = AssignFlow::begin(42, "/tmp/report.pdf");
    to_upload(&mut flow);
    flow.on_page(CLASH).unwrap();
    let s = flow.on_page("maybe").unwrap();
    assert_eq!(s.lines.last().unwrap(), "\n[?] Overwrite response unclear: maybe");
    assert!(is_done(&s.action));
}

#[test]
fn assign_flow_direct_success_and_overwrite() {
    let (mut flow, _) = AssignFlow::begin(42, "/tmp/report.pdf");
    to_upload(&mut flow);
    let s = flow.on_page(r#"{"url":"u","file":"report.pdf"}"#).unwrap();
    assert_eq!(s.lines[1..].to_vec(), lines(&["\n[+] Upload succeeded!", "\nRe-fetching edit page after upload..."]));
    assert_eq!(get_of(&s.action).1, AssignRequest::Refresh);

    let (mut flow, _) = AssignFlow::begin(42, "/tmp/report.pdf");
    to_upload(&mut flow);
    flow.on_page(CLASH).unwrap();
    let s = flow.on_page(r#"{"event":"overwritten"}"#).unwrap();
    assert_eq!(s.lines[1], "\n[+] File overwritten successfully!");
    assert_eq!(get_of(&s.action).1, AssignRequest::Refresh);
}
