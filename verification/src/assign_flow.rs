//! The course of submitting a file to an assignment, as a state machine:
//! each page that comes back, and each pause that ends, decides what is
//! shown and the next request, pause or end.
use vstd::prelude::*;
use crate::api::{spec_moodle_url, spec_moodle_url_with};
use crate::assignment::{
    accepted_types, assign_post_url, assign_url, author_name, confirm_sesskey, delete_fields, draft_action,
    draft_fields, draft_url, file_clash, file_clash_view, file_to_delete, fresh_form_values, overwrite_fields,
    overwrite_outcome, params_view, remove_fields, retry_succeeded, spec_accepted_types, spec_author_name,
    spec_confirm_sesskey, spec_delete_fields, spec_draft_action, spec_draft_fields, spec_file_clash,
    spec_file_to_delete, spec_fresh_form_values, spec_overwrite_fields, spec_overwrite_outcome,
    spec_remove_fields, spec_retry_succeeded, spec_submission_form, spec_submission_params,
    spec_submission_status, spec_submit_fields, spec_submit_outcome, spec_upload_fields,
    spec_upload_outcome, spec_upload_settings, spec_upload_title, spec_upload_url, submission_form,
    submission_params, submission_params_view, submission_status, submit_fields, submit_outcome,
    upload_fields, upload_outcome, upload_settings, upload_settings_view, upload_title, upload_url,
    DraftAction, FileClash, OverwriteOutcome, SubmissionParams, SubmitOutcome, UploadOutcome,
    UploadSettings, MAX_DRAFT_ATTEMPTS,
};
use crate::pattern::strings_view;
use crate::text::{append_chars, chars_of, decimal, decimal_exec, string_of, utf8_len, utf8_len_prefix};

verus! {

/// Where submitting stands: what it waits for.
#[derive(PartialEq, Eq, Structural, Clone, Copy, Debug)]
pub enum AssignStage {
    /// The assignment page.
    View,
    /// The edit page with the submission form.
    Edit,
    /// The page that confirms the removal of the submission.
    Confirm,
    /// The reply to the removal.
    Remove,
    /// The pause before a listing of the draft area.
    BeforeList,
    /// A listing of the draft area.
    List,
    /// The reply to the deletion of a file of the draft area.
    Deleting,
    /// The pause after the deletions.
    AfterDeleting,
    /// The edit page, read for the upload settings.
    Settings,
    /// The reply to the upload.
    Upload,
    /// The reply to the overwrite of a clashing file.
    Overwrite,
    /// The reply to the deletion of the clashing file.
    DeleteClash,
    /// The pause after that deletion.
    WaitClash,
    /// The listing after that deletion.
    ListAfterDelete,
    /// The reply to the repeated upload.
    Reupload,
    /// The edit page after the upload.
    Refresh,
    /// The reply to the submission.
    Submit,
    /// Nothing.
    Over,
}

/// A request of the submission.
#[derive(PartialEq, Eq, Structural, Clone, Copy, Debug)]
pub enum AssignRequest {
    View,
    Edit,
    Confirm,
    Remove,
    List,
    Delete,
    Settings,
    Upload,
    Overwrite,
    DeleteClash,
    ListAfterDelete,
    Reupload,
    Refresh,
    Submit,
}

/// The next thing the client does; every page fetched or posted is handed
/// back to [`AssignFlow::on_page`], every pause's end to
/// [`AssignFlow::on_waited`].
pub enum AssignAction {
    /// Fetch this address.
    Get { url: String, request: AssignRequest },
    /// Post these fields as a form.
    Post { url: String, fields: Vec<(String, String)>, request: AssignRequest },
    /// Post these fields as a multipart form, with the file attached as
    /// `repo_upload_file`.
    Upload { url: String, fields: Vec<(String, String)>, request: AssignRequest },
    /// Post these fields as a multipart form.
    Submit { url: String, fields: Vec<(String, String)> },
    /// Pause this many milliseconds.
    Wait { ms: u64 },
    /// Stop, with this message on the error stream.
    Abort { message: String },
    /// Stop.
    Done,
}

/// What a step shows (lines, in order) and what comes next.
pub struct AssignStep {
    pub lines: Vec<String>,
    pub action: AssignAction,
}

/// The state of a submission: the stage, the assignment, the title of the
/// upload, what the first pages gave, the listings made so far, the files
/// left to delete, the upload settings and the clash an upload reported.
pub struct AssignFlow {
    stage: AssignStage,
    id: u32,
    title: String,
    view_body: String,
    params: SubmissionParams,
    author: String,
    types: String,
    attempts: u32,
    pending: Vec<String>,
    settings: UploadSettings,
    clash: FileClash,
}

/// The state as plain values.
pub struct AssignView {
    pub stage: AssignStage,
    pub id: u32,
    pub title: Seq<char>,
    pub view_body: Seq<char>,
    pub params: (Seq<char>, Seq<char>, Seq<char>, Seq<char>),
    pub author: Seq<char>,
    pub types: Seq<char>,
    pub attempts: u32,
    pub pending: Seq<Seq<char>>,
    pub settings: (Seq<char>, Seq<char>, Seq<char>, Seq<char>, Seq<char>, Seq<char>),
    pub clash: (Seq<char>, Seq<char>, Seq<char>),
}

impl AssignFlow {
    /// The state as plain values.
    pub closed spec fn view(&self) -> AssignView {
        AssignView {
            stage: self.stage,
            id: self.id,
            title: self.title@,
            view_body: self.view_body@,
            params: submission_params_view(self.params),
            author: self.author@,
            types: self.types@,
            attempts: self.attempts,
            pending: strings_view(self.pending@),
            settings: upload_settings_view(self.settings),
            clash: file_clash_view(self.clash),
        }
    }

    /// The listings made never exceed the limit, and a listing is only made
    /// while one is left.
    #[verifier::type_invariant]
    closed spec fn inv(&self) -> bool {
        assign_wf(self.view())
    }
}

/// An action as plain values: its kind (in the order of the variants), its
/// address (or message), its fields, its request and its pause.
pub open spec fn assign_action_view(a: AssignAction) -> (nat, Seq<char>, Seq<(Seq<char>, Seq<char>)>, Option<AssignRequest>, u64) {
    match a {
        AssignAction::Get { url, request } => (0, url@, seq![], Some(request), 0),
        AssignAction::Post { url, fields, request } => (1, url@, params_view(fields@), Some(request), 0),
        AssignAction::Upload { url, fields, request } => (2, url@, params_view(fields@), Some(request), 0),
        AssignAction::Submit { url, fields } => (3, url@, params_view(fields@), None, 0),
        AssignAction::Wait { ms } => (4, seq![], seq![], None, ms),
        AssignAction::Abort { message } => (5, message@, seq![], None, 0),
        AssignAction::Done => (6, seq![], seq![], None, 0),
    }
}

pub open spec fn assign_step_view(s: AssignStep) -> (Seq<Seq<char>>, (nat, Seq<char>, Seq<(Seq<char>, Seq<char>)>, Option<AssignRequest>, u64)) {
    (strings_view(s.lines@), assign_action_view(s.action))
}

pub open spec fn get_v(url: Seq<char>, r: AssignRequest) -> (nat, Seq<char>, Seq<(Seq<char>, Seq<char>)>, Option<AssignRequest>, u64) {
    (0, url, seq![], Some(r), 0)
}

pub open spec fn post_v(url: Seq<char>, f: Seq<(Seq<char>, Seq<char>)>, r: AssignRequest) -> (nat, Seq<char>, Seq<(Seq<char>, Seq<char>)>, Option<AssignRequest>, u64) {
    (1, url, f, Some(r), 0)
}

pub open spec fn upload_v(url: Seq<char>, f: Seq<(Seq<char>, Seq<char>)>, r: AssignRequest) -> (nat, Seq<char>, Seq<(Seq<char>, Seq<char>)>, Option<AssignRequest>, u64) {
    (2, url, f, Some(r), 0)
}

pub open spec fn submit_v(url: Seq<char>, f: Seq<(Seq<char>, Seq<char>)>) -> (nat, Seq<char>, Seq<(Seq<char>, Seq<char>)>, Option<AssignRequest>, u64) {
    (3, url, f, None, 0)
}

pub open spec fn wait_v(ms: u64) -> (nat, Seq<char>, Seq<(Seq<char>, Seq<char>)>, Option<AssignRequest>, u64) {
    (4, seq![], seq![], None, ms)
}

pub open spec fn done_v() -> (nat, Seq<char>, Seq<(Seq<char>, Seq<char>)>, Option<AssignRequest>, u64) {
    (6, seq![], seq![], None, 0)
}

/// The edit page of the assignment.
pub open spec fn edit_url(id: u32) -> Seq<char> {
    spec_moodle_url_with("/mod/assign/view.php?id="@, id, "&action=editsubmission"@)
}

/// The address of an action on the draft area.
pub open spec fn draft_action_url(action: Seq<char>) -> Seq<char> {
    spec_moodle_url("/repository/draftfiles_ajax.php?action="@ + action)
}

/// The line that counts a listing (from 1).
pub open spec fn attempt_line(n: nat) -> Seq<char> {
    "  Attempt "@ + decimal(n) + " of "@ + decimal(MAX_DRAFT_ATTEMPTS as nat) + "..."@
}

/// The line that deletes a file of the draft area.
pub open spec fn deleting_line(f: Seq<char>) -> Seq<char> {
    "    Deleting: "@ + f
}

/// The line that shows the outcome of the submission.
pub open spec fn outcome_line(o: SubmitOutcome) -> Seq<char> {
    match o {
        SubmitOutcome::Submitted => "\n[+] ASSIGNMENT SUBMISSION SUCCEEDED!"@,
        SubmitOutcome::LikelySubmitted => "\n[+] Submission may have succeeded!"@,
        SubmitOutcome::LikelyFailed => "\n[!] Submission may have failed."@,
        SubmitOutcome::Unclear => "\n[?] Submission status unclear"@,
    }
}

pub open spec fn refetching_line() -> Seq<char> {
    "\nRe-fetching edit page after upload..."@
}

/// The step that deletes the next file left, or pauses where none is left.
pub open spec fn next_deletion(v: AssignView) -> (AssignView, (Seq<Seq<char>>, (nat, Seq<char>, Seq<(Seq<char>, Seq<char>)>, Option<AssignRequest>, u64))) {
    if v.pending.len() > 0 {
        (
            AssignView { stage: AssignStage::Deleting, pending: v.pending.skip(1), ..v },
            (
                seq![deleting_line(v.pending[0])],
                post_v(
                    draft_action_url("deleteselected"@),
                    spec_delete_fields(v.params.1, ""@, v.params.0, v.pending[0]),
                    AssignRequest::Delete,
                ),
            ),
        )
    } else {
        (AssignView { stage: AssignStage::AfterDeleting, ..v }, (seq![], wait_v(1000)))
    }
}

/// What the page handed back leads to, from the state `v`: the next state,
/// the lines shown and the action. `None` where a selector or pattern is
/// refused, where a slice of the edit page is not possible, and at a stage
/// that awaits no page.
/// - The assignment page: its status is shown; the edit page is fetched.
/// - The edit page: without a form, the submission stops; else its values,
///   the author and the accepted types are shown, and the removal is
///   confirmed.
/// - The confirmation: the submission is removed with its session key.
/// - The reply to the removal: the draft area is listed, after a pause.
/// - A listing: where it reports files, each is deleted and a pause follows;
///   where it is empty, the edit page is fetched for the upload settings.
/// - The edit page for the settings: the file is uploaded.
/// - The reply to the upload: an error stops; a clash is resolved by an
///   overwrite; else the edit page is fetched again.
/// - The reply to the overwrite: success goes on; failure deletes the
///   clashing file, lists the area after a pause and uploads again; an
///   unclear reply stops.
/// - The edit page after the upload: the assignment is submitted with its
///   fresh values.
/// - The reply to the submission: its outcome is shown.
pub open spec fn spec_assign_page(v: AssignView, body: Seq<char>) -> Option<(AssignView, (Seq<Seq<char>>, (nat, Seq<char>, Seq<(Seq<char>, Seq<char>)>, Option<AssignRequest>, u64)))> {
    let over = AssignView { stage: AssignStage::Over, ..v };
    let draft = v.params.0;
    let sesskey = v.params.1;
    let client = v.settings.0;
    match v.stage {
        AssignStage::View => match spec_submission_status(body) {
            None => None,
            Some(st) => Some((
                AssignView { stage: AssignStage::Edit, view_body: body, ..v },
                (seq!["Submission status: "@ + st], get_v(edit_url(v.id), AssignRequest::Edit)),
            )),
        },
        AssignStage::Edit => match spec_submission_form(body) {
            None => None,
            Some(None) => Some((
                over,
                (seq![], (5, "  [!] Could not find submission form on edit page"@, seq![], None, 0)),
            )),
            Some(Some(ps)) => {
                let p = spec_submission_params(ps);
                match (spec_author_name(v.view_body, body), spec_accepted_types(body, ","@)) {
                    (Some(a), Some(t)) => Some((
                        AssignView { stage: AssignStage::Confirm, params: p, author: a, types: t, ..v },
                        (
                            seq![
                                "  sesskey: "@ + p.1,
                                "  file_draft_id: "@ + p.0,
                                "  lastmodified: "@ + p.2,
                                "  userid: "@ + p.3,
                                "  author: "@ + a,
                                "  accepted file types: "@ + t,
                                "\nRemoving existing submission..."@,
                            ],
                            get_v(
                                spec_moodle_url_with("/mod/assign/view.php?id="@, v.id, "&action=removesubmissionconfirm"@),
                                AssignRequest::Confirm,
                            ),
                        ),
                    )),
                    _ => None,
                }
            },
        },
        AssignStage::Confirm => match spec_confirm_sesskey(body, sesskey) {
            None => None,
            Some(k) => Some((
                AssignView { stage: AssignStage::Remove, ..v },
                (
                    seq![],
                    post_v(spec_moodle_url("/mod/assign/view.php"@), spec_remove_fields(v.id, v.params.3, k), AssignRequest::Remove),
                ),
            )),
        },
        AssignStage::Remove => Some((
            AssignView { stage: AssignStage::BeforeList, attempts: 0, ..v },
            (seq!["\nWaiting for draft area to be cleared..."@, attempt_line(1)], wait_v(1000)),
        )),
        AssignStage::List => match spec_draft_action(body) {
            None => None,
            Some((true, count, files)) => Some((
                AssignView { stage: AssignStage::Settings, attempts: (v.attempts + 1) as u32, ..v },
                (
                    seq!["  Server reports filecount: "@ + count, "  Draft area is empty!"@],
                    get_v(edit_url(v.id), AssignRequest::Settings),
                ),
            )),
            Some((false, count, files)) => {
                let next = next_deletion(AssignView { attempts: (v.attempts + 1) as u32, pending: files, ..v });
                Some((
                    next.0,
                    (
                        seq![
                            "  Server reports filecount: "@ + count,
                            "  Draft area still has "@ + count + " files, deleting them..."@,
                        ] + next.1.0,
                        next.1.1,
                    ),
                ))
            },
        },
        AssignStage::Deleting => Some(next_deletion(v)),
        AssignStage::Settings => match spec_upload_settings(body) {
            None => None,
            Some(u) => Some((
                AssignView { stage: AssignStage::Upload, settings: u, ..v },
                (
                    seq![
                        "\n  ctx_id: "@ + u.1,
                        "  course: "@ + u.2,
                        "  client_id: "@ + u.0,
                        "  maxbytes: "@ + u.3,
                        "  areamaxbytes: "@ + u.4,
                        "  repo_id: "@ + u.5,
                    ],
                    upload_v(
                        spec_upload_url(sesskey, draft, u),
                        spec_upload_fields(draft, v.types, v.title, v.author),
                        AssignRequest::Upload,
                    ),
                ),
            )),
        },
        AssignStage::Upload => {
            let echo = seq!["  Upload body: "@ + body];
            match spec_upload_outcome(body) {
                UploadOutcome::Error => Some((over, (echo + seq!["\n[!] Upload returned error!"@], done_v()))),
                UploadOutcome::FileExists => {
                    let exists = echo + seq!["\n[!] File already exists - attempting overwrite..."@];
                    match spec_file_clash(body) {
                        None => None,
                        Some(None) => Some((over, (exists + seq!["\n[!] Could not parse fileexists response"@], done_v()))),
                        Some(Some(c)) => Some((
                            AssignView { stage: AssignStage::Overwrite, clash: c, ..v },
                            (
                                exists + seq!["  Overwriting: "@ + c.1],
                                post_v(
                                    draft_action_url("overwrite"@),
                                    spec_overwrite_fields(sesskey, client, draft, c),
                                    AssignRequest::Overwrite,
                                ),
                            ),
                        )),
                    }
                },
                _ => Some((
                    AssignView { stage: AssignStage::Refresh, ..v },
                    (echo + seq!["\n[+] Upload succeeded!"@, refetching_line()], get_v(edit_url(v.id), AssignRequest::Refresh)),
                )),
            }
        },
        AssignStage::Overwrite => {
            let echo = seq!["  Overwrite response: "@ + body];
            match spec_overwrite_outcome(body) {
                OverwriteOutcome::Overwritten => Some((
                    AssignView { stage: AssignStage::Refresh, ..v },
                    (
                        echo + seq!["\n[+] File overwritten successfully!"@, refetching_line()],
                        get_v(edit_url(v.id), AssignRequest::Refresh),
                    ),
                )),
                OverwriteOutcome::Failed => Some((
                    AssignView { stage: AssignStage::DeleteClash, ..v },
                    (
                        echo + seq!["\n[!] Overwrite failed, trying delete-then-upload..."@],
                        post_v(
                            draft_action_url("deleteselected"@),
                            spec_delete_fields(sesskey, client, draft, spec_file_to_delete(v.clash)),
                            AssignRequest::DeleteClash,
                        ),
                    ),
                )),
                OverwriteOutcome::Unclear => Some((
                    over,
                    (echo + seq!["\n[?] Overwrite response unclear: "@ + body], done_v()),
                )),
            }
        },
        AssignStage::DeleteClash => Some((AssignView { stage: AssignStage::WaitClash, ..v }, (seq![], wait_v(2000)))),
        AssignStage::ListAfterDelete => Some((
            AssignView { stage: AssignStage::Reupload, ..v },
            (
                seq!["  List after delete: "@ + body],
                upload_v(
                    spec_upload_url(sesskey, draft, v.settings),
                    spec_upload_fields(draft, v.types, v.title, v.author),
                    AssignRequest::Reupload,
                ),
            ),
        )),
        AssignStage::Reupload => {
            let echo = seq!["  Retry upload response: "@ + body];
            if spec_retry_succeeded(body) {
                Some((
                    AssignView { stage: AssignStage::Refresh, ..v },
                    (
                        echo + seq!["\n[+] Upload succeeded after delete!"@, refetching_line()],
                        get_v(edit_url(v.id), AssignRequest::Refresh),
                    ),
                ))
            } else {
                Some((over, (echo + seq!["\n[!] Retry upload failed!"@], done_v())))
            }
        },
        AssignStage::Refresh => match spec_fresh_form_values(body, v.params.2, sesskey) {
            None => None,
            Some((lm, sk)) => Some((
                AssignView { stage: AssignStage::Submit, ..v },
                (
                    seq!["  fresh lastmodified: "@ + lm, "  fresh sesskey: "@ + sk, "\nSubmitting assignment..."@],
                    submit_v(spec_moodle_url("/mod/assign/view.php"@), spec_submit_fields(v.id, v.params.3, lm, sk, draft)),
                ),
            )),
        },
        AssignStage::Submit => Some((
            over,
            (
                seq!["  Body length: "@ + decimal(utf8_len(body)) + " bytes"@, outcome_line(spec_submit_outcome(body))],
                done_v(),
            ),
        )),
        _ => None,
    }
}

/// What the end of a pause leads to: the listing after the first pause;
/// after the deletions, the next listing where attempts are left, else a
/// warning and the edit page for the settings; after the deletion of a
/// clashing file, the listing of the area. `None` at a stage that awaits no
/// pause.
pub open spec fn spec_assign_waited(v: AssignView) -> Option<(AssignView, (Seq<Seq<char>>, (nat, Seq<char>, Seq<(Seq<char>, Seq<char>)>, Option<AssignRequest>, u64)))> {
    match v.stage {
        AssignStage::BeforeList => Some((
            AssignView { stage: AssignStage::List, ..v },
            (seq![], post_v(draft_action_url("list"@), spec_draft_fields(v.params.1, ""@, v.params.0), AssignRequest::List)),
        )),
        AssignStage::AfterDeleting => if v.attempts < MAX_DRAFT_ATTEMPTS {
            Some((AssignView { stage: AssignStage::BeforeList, ..v }, (seq![attempt_line((v.attempts + 1) as nat)], wait_v(1000))))
        } else {
            Some((
                AssignView { stage: AssignStage::Settings, ..v },
                (
                    seq!["  WARNING: Could not clear draft area after "@ + decimal(MAX_DRAFT_ATTEMPTS as nat)
                        + " attempts, proceeding anyway..."@],
                    get_v(edit_url(v.id), AssignRequest::Settings),
                ),
            ))
        },
        AssignStage::WaitClash => Some((
            AssignView { stage: AssignStage::ListAfterDelete, ..v },
            (seq![], post_v(draft_action_url("list"@), spec_draft_fields(v.params.1, v.settings.0, v.params.0), AssignRequest::ListAfterDelete)),
        )),
        _ => None,
    }
}

/// The listings made never exceed the limit, and a listing is only made
/// while one is left.
pub open spec fn assign_wf(v: AssignView) -> bool {
    &&& v.attempts <= MAX_DRAFT_ATTEMPTS
    &&& (v.stage == AssignStage::BeforeList || v.stage == AssignStage::List) ==> v.attempts < MAX_DRAFT_ATTEMPTS
}

fn cat(a: &str, b: &str) -> (r: String)
    ensures
        r@ == a@ + b@,
{
    let mut v = chars_of(a);
    let c = chars_of(b);
    append_chars(&mut v, c.as_slice());
    string_of(v.as_slice())
}

fn cat3(a: &str, b: &str, c: &str) -> (r: String)
    ensures
        r@ == a@ + b@ + c@,
{
    let ab = cat(a, b);
    cat(ab.as_str(), c)
}

fn attempt_text(n: u32) -> (r: String)
    ensures
        r@ == attempt_line(n as nat),
{
    let d = decimal_exec(n as u128);
    let ds = string_of(d.as_slice());
    let m = decimal_exec(MAX_DRAFT_ATTEMPTS as u128);
    let ms = string_of(m.as_slice());
    let head = cat3("  Attempt ", ds.as_str(), " of ");
    cat3(head.as_str(), ms.as_str(), "...")
}

fn outcome_text(o: SubmitOutcome) -> (r: String)
    ensures
        r@ == outcome_line(o),
{
    match o {
        SubmitOutcome::Submitted => "\n[+] ASSIGNMENT SUBMISSION SUCCEEDED!".to_owned(),
        SubmitOutcome::LikelySubmitted => "\n[+] Submission may have succeeded!".to_owned(),
        SubmitOutcome::LikelyFailed => "\n[!] Submission may have failed.".to_owned(),
        SubmitOutcome::Unclear => "\n[?] Submission status unclear".to_owned(),
    }
}

fn step(lines: Vec<String>, action: AssignAction) -> (r: AssignStep)
    ensures
        r.lines == lines,
        r.action == action,
{
    AssignStep { lines, action }
}

impl AssignFlow {
    /// The stage reached.
    pub fn stage(&self) -> (r: AssignStage)
        ensures
            r == self.view().stage,
    {
        self.stage
    }

    /// The start of a submission of the file at `file_path`: fetch the
    /// assignment page.
    pub fn begin(id: u32, file_path: &str) -> (r: (AssignFlow, AssignAction))
        ensures
            r.0.view() == (AssignView {
                stage: AssignStage::View,
                id,
                title: spec_upload_title(file_path@),
                view_body: seq![],
                params: (seq![], seq![], seq![], seq![]),
                author: seq![],
                types: seq![],
                attempts: 0,
                pending: seq![],
                settings: (seq![], seq![], seq![], seq![], seq![], seq![]),
                clash: (seq![], seq![], seq![]),
            }),
            assign_action_view(r.1) == get_v(spec_moodle_url_with("/mod/assign/view.php?id="@, id, ""@), AssignRequest::View),
    {
        let flow = AssignFlow {
            stage: AssignStage::View,
            id,
            title: upload_title(file_path),
            view_body: String::new(),
            params: SubmissionParams {
                draft_id: String::new(),
                sesskey: String::new(),
                lastmodified: String::new(),
                userid: String::new(),
            },
            author: String::new(),
            types: String::new(),
            attempts: 0,
            pending: Vec::new(),
            settings: UploadSettings {
                client_id: String::new(),
                ctx_id: String::new(),
                course: String::new(),
                maxbytes: String::new(),
                areamaxbytes: String::new(),
                repo_id: String::new(),
            },
            clash: FileClash { existing_path: String::new(), existing_name: String::new(), new_name: String::new() },
        };
        assert(strings_view(flow.pending@) =~= Seq::<Seq<char>>::empty());
        (flow, AssignAction::Get { url: assign_url(id, ""), request: AssignRequest::View })
    }
}

impl AssignFlow {
    fn on_view(&mut self, body: &str) -> (r: Option<AssignStep>)
        requires
            old(self).view().stage == AssignStage::View,
        ensures
            match r {
                Some(st) => spec_assign_page(old(self).view(), body@) == Some((final(self).view(), assign_step_view(st))),
                None => spec_assign_page(old(self).view(), body@) is None,
            },
    {
        proof {
            use_type_invariant(&*self);
        }
        match submission_status(body) {
            None => None,
            Some(st) => {
                let line = cat("Submission status: ", st.as_str());
                let url = assign_url(self.id, "&action=editsubmission");
                self.view_body = body.to_owned();
                self.stage = AssignStage::Edit;
                let mut lines: Vec<String> = Vec::new();
                lines.push(line);
                assert(strings_view(lines@) =~= seq!["Submission status: "@ + st@]);
                Some(step(lines, AssignAction::Get { url, request: AssignRequest::Edit }))
            },
        }
    }

    fn on_edit(&mut self, body: &str) -> (r: Option<AssignStep>)
        requires
            old(self).view().stage == AssignStage::Edit,
        ensures
            match r {
                Some(st) => spec_assign_page(old(self).view(), body@) == Some((final(self).view(), assign_step_view(st))),
                None => spec_assign_page(old(self).view(), body@) is None,
            },
    {
        proof {
            use_type_invariant(&*self);
        }
        match submission_form(body) {
            None => None,
            Some(None) => {
                self.stage = AssignStage::Over;
                let lines: Vec<String> = Vec::new();
                assert(strings_view(lines@) =~= Seq::<Seq<char>>::empty());
                Some(step(
                    lines,
                    AssignAction::Abort { message: "  [!] Could not find submission form on edit page".to_owned() },
                ))
            },
            Some(Some(ps)) => {
                let p = submission_params(&ps);
                let a = author_name(self.view_body.as_str(), body);
                let t = accepted_types(body, ",");
                match (a, t) {
                    (Some(a), Some(t)) => {
                        let mut lines: Vec<String> = Vec::new();
                        lines.push(cat("  sesskey: ", p.sesskey.as_str()));
                        lines.push(cat("  file_draft_id: ", p.draft_id.as_str()));
                        lines.push(cat("  lastmodified: ", p.lastmodified.as_str()));
                        lines.push(cat("  userid: ", p.userid.as_str()));
                        lines.push(cat("  author: ", a.as_str()));
                        lines.push(cat("  accepted file types: ", t.as_str()));
                        lines.push("\nRemoving existing submission...".to_owned());
                        assert(strings_view(lines@) =~= seq![
                            "  sesskey: "@ + p.sesskey@,
                            "  file_draft_id: "@ + p.draft_id@,
                            "  lastmodified: "@ + p.lastmodified@,
                            "  userid: "@ + p.userid@,
                            "  author: "@ + a@,
                            "  accepted file types: "@ + t@,
                            "\nRemoving existing submission..."@,
                        ]);
                        let url = assign_url(self.id, "&action=removesubmissionconfirm");
                        self.params = p;
                        self.author = a;
                        self.types = t;
                        self.stage = AssignStage::Confirm;
                        Some(step(lines, AssignAction::Get { url, request: AssignRequest::Confirm }))
                    },
                    _ => None,
                }
            },
        }
    }

    fn on_confirm(&mut self, body: &str) -> (r: Option<AssignStep>)
        requires
            old(self).view().stage == AssignStage::Confirm,
        ensures
            match r {
                Some(st) => spec_assign_page(old(self).view(), body@) == Some((final(self).view(), assign_step_view(st))),
                None => spec_assign_page(old(self).view(), body@) is None,
            },
    {
        proof {
            use_type_invariant(&*self);
        }
        match confirm_sesskey(body, self.params.sesskey.as_str()) {
            None => None,
            Some(k) => {
                let fields = remove_fields(self.id, self.params.userid.as_str(), k.as_str());
                self.stage = AssignStage::Remove;
                let lines: Vec<String> = Vec::new();
                assert(strings_view(lines@) =~= Seq::<Seq<char>>::empty());
                Some(step(lines, AssignAction::Post { url: assign_post_url(), fields, request: AssignRequest::Remove }))
            },
        }
    }

    fn on_remove(&mut self) -> (r: AssignStep)
        requires
            old(self).view().stage == AssignStage::Remove,
        ensures
            forall|body: Seq<char>| spec_assign_page(old(self).view(), body) == Some(
                (final(self).view(), assign_step_view(r)),
            ),
    {
        proof {
            use_type_invariant(&*self);
        }
        let mut lines: Vec<String> = Vec::new();
        lines.push("\nWaiting for draft area to be cleared...".to_owned());
        lines.push(attempt_text(1));
        assert(strings_view(lines@) =~= seq!["\nWaiting for draft area to be cleared..."@, attempt_line(1)]);
        self.attempts = 0;
        self.stage = AssignStage::BeforeList;
        step(lines, AssignAction::Wait { ms: 1000 })
    }
}

impl AssignFlow {
    /// Deletes the next file left, or pauses where none is left.
    fn deletion_step(&mut self) -> (r: AssignStep)
        requires
            old(self).view().stage == AssignStage::Deleting,
        ensures
            (final(self).view(), assign_step_view(r)) == next_deletion(old(self).view()),
    {
        proof {
            use_type_invariant(&*self);
        }
        let mut pending: Vec<String> = Vec::new();
        std::mem::swap(&mut pending, &mut self.pending);
        if pending.len() > 0 {
            let ghost before = strings_view(pending@);
            let f = pending.remove(0);
            assert(strings_view(pending@) =~= before.skip(1));
            let line = cat("    Deleting: ", f.as_str());
            let fields = delete_fields(self.params.sesskey.as_str(), "", self.params.draft_id.as_str(), f.as_str());
            self.pending = pending;
            let mut lines: Vec<String> = Vec::new();
            lines.push(line);
            assert(strings_view(lines@) =~= seq![deleting_line(before[0])]);
            step(lines, AssignAction::Post { url: draft_url("deleteselected"), fields, request: AssignRequest::Delete })
        } else {
            self.pending = pending;
            self.stage = AssignStage::AfterDeleting;
            let lines: Vec<String> = Vec::new();
            assert(strings_view(lines@) =~= Seq::<Seq<char>>::empty());
            step(lines, AssignAction::Wait { ms: 1000 })
        }
    }

    fn on_list(&mut self, body: &str) -> (r: Option<AssignStep>)
        requires
            old(self).view().stage == AssignStage::List,
        ensures
            match r {
                Some(st) => spec_assign_page(old(self).view(), body@) == Some((final(self).view(), assign_step_view(st))),
                None => spec_assign_page(old(self).view(), body@) is None,
            },
    {
        proof {
            use_type_invariant(&*self);
        }
        match draft_action(body) {
            None => None,
            Some(DraftAction::Cleared) => {
                let mut lines: Vec<String> = Vec::new();
                lines.push(cat("  Server reports filecount: ", "0"));
                lines.push("  Draft area is empty!".to_owned());
                assert(strings_view(lines@) =~= seq!["  Server reports filecount: "@ + "0"@, "  Draft area is empty!"@]);
                let url = assign_url(self.id, "&action=editsubmission");
                self.stage = AssignStage::Settings;
                self.attempts = self.attempts + 1;
                Some(step(lines, AssignAction::Get { url, request: AssignRequest::Settings }))
            },
            Some(DraftAction::Delete { count, files }) => {
                let mut head: Vec<String> = Vec::new();
                head.push(cat("  Server reports filecount: ", count.as_str()));
                head.push(cat3("  Draft area still has ", count.as_str(), " files, deleting them..."));
                let ghost hv = strings_view(head@);
                assert(hv =~= seq![
                    "  Server reports filecount: "@ + count@,
                    "  Draft area still has "@ + count@ + " files, deleting them..."@,
                ]);
                self.stage = AssignStage::Deleting;
                self.attempts = self.attempts + 1;
                self.pending = files;
                let st = self.deletion_step();
                let AssignStep { lines, action } = st;
                let mut all = head;
                let mut more = lines;
                let ghost mv = strings_view(more@);
                all.append(&mut more);
                assert(strings_view(all@) =~= hv + mv);
                Some(step(all, action))
            },
        }
    }

    fn on_deleting(&mut self) -> (r: AssignStep)
        requires
            old(self).view().stage == AssignStage::Deleting,
        ensures
            forall|body: Seq<char>| spec_assign_page(old(self).view(), body) == Some(
                (final(self).view(), assign_step_view(r)),
            ),
    {
        self.deletion_step()
    }

    fn on_settings(&mut self, body: &str) -> (r: Option<AssignStep>)
        requires
            old(self).view().stage == AssignStage::Settings,
        ensures
            match r {
                Some(st) => spec_assign_page(old(self).view(), body@) == Some((final(self).view(), assign_step_view(st))),
                None => spec_assign_page(old(self).view(), body@) is None,
            },
    {
        proof {
            use_type_invariant(&*self);
        }
        match upload_settings(body) {
            None => None,
            Some(u) => {
                let mut lines: Vec<String> = Vec::new();
                lines.push(cat("\n  ctx_id: ", u.ctx_id.as_str()));
                lines.push(cat("  course: ", u.course.as_str()));
                lines.push(cat("  client_id: ", u.client_id.as_str()));
                lines.push(cat("  maxbytes: ", u.maxbytes.as_str()));
                lines.push(cat("  areamaxbytes: ", u.areamaxbytes.as_str()));
                lines.push(cat("  repo_id: ", u.repo_id.as_str()));
                assert(strings_view(lines@) =~= seq![
                    "\n  ctx_id: "@ + u.ctx_id@,
                    "  course: "@ + u.course@,
                    "  client_id: "@ + u.client_id@,
                    "  maxbytes: "@ + u.maxbytes@,
                    "  areamaxbytes: "@ + u.areamaxbytes@,
                    "  repo_id: "@ + u.repo_id@,
                ]);
                let url = upload_url(self.params.sesskey.as_str(), self.params.draft_id.as_str(), &u);
                let fields = upload_fields(
                    self.params.draft_id.as_str(),
                    self.types.as_str(),
                    self.title.as_str(),
                    self.author.as_str(),
                );
                self.settings = u;
                self.stage = AssignStage::Upload;
                Some(step(lines, AssignAction::Upload { url, fields, request: AssignRequest::Upload }))
            },
        }
    }
}

impl AssignFlow {
    fn on_upload(&mut self, body: &str) -> (r: Option<AssignStep>)
        requires
            old(self).view().stage == AssignStage::Upload,
        ensures
            match r {
                Some(st) => spec_assign_page(old(self).view(), body@) == Some((final(self).view(), assign_step_view(st))),
                None => spec_assign_page(old(self).view(), body@) is None,
            },
    {
        proof {
            use_type_invariant(&*self);
        }
        let echo = cat("  Upload body: ", body);
        match upload_outcome(body) {
            UploadOutcome::Error => {
                let mut lines: Vec<String> = Vec::new();
                lines.push(echo);
                lines.push("\n[!] Upload returned error!".to_owned());
                assert(strings_view(lines@) =~= seq!["  Upload body: "@ + body@] + seq!["\n[!] Upload returned error!"@]);
                self.stage = AssignStage::Over;
                Some(step(lines, AssignAction::Done))
            },
            UploadOutcome::FileExists => {
                match file_clash(body) {
                    None => None,
                    Some(None) => {
                        let mut lines: Vec<String> = Vec::new();
                        lines.push(echo);
                        lines.push("\n[!] File already exists - attempting overwrite...".to_owned());
                        lines.push("\n[!] Could not parse fileexists response".to_owned());
                        assert(strings_view(lines@) =~= seq!["  Upload body: "@ + body@]
                            + seq!["\n[!] File already exists - attempting overwrite..."@]
                            + seq!["\n[!] Could not parse fileexists response"@]);
                        self.stage = AssignStage::Over;
                        Some(step(lines, AssignAction::Done))
                    },
                    Some(Some(c)) => {
                        let mut lines: Vec<String> = Vec::new();
                        lines.push(echo);
                        lines.push("\n[!] File already exists - attempting overwrite...".to_owned());
                        lines.push(cat("  Overwriting: ", c.existing_name.as_str()));
                        assert(strings_view(lines@) =~= seq!["  Upload body: "@ + body@]
                            + seq!["\n[!] File already exists - attempting overwrite..."@]
                            + seq!["  Overwriting: "@ + c.existing_name@]);
                        let fields = overwrite_fields(
                            self.params.sesskey.as_str(),
                            self.settings.client_id.as_str(),
                            self.params.draft_id.as_str(),
                            &c,
                        );
                        self.clash = c;
                        self.stage = AssignStage::Overwrite;
                        Some(step(lines, AssignAction::Post { url: draft_url("overwrite"), fields, request: AssignRequest::Overwrite }))
                    },
                }
            },
            _ => {
                let mut lines: Vec<String> = Vec::new();
                lines.push(echo);
                lines.push("\n[+] Upload succeeded!".to_owned());
                lines.push("\nRe-fetching edit page after upload...".to_owned());
                assert(strings_view(lines@) =~= seq!["  Upload body: "@ + body@] + seq!["\n[+] Upload succeeded!"@, refetching_line()]);
                let url = assign_url(self.id, "&action=editsubmission");
                self.stage = AssignStage::Refresh;
                Some(step(lines, AssignAction::Get { url, request: AssignRequest::Refresh }))
            },
        }
    }

    fn on_overwrite(&mut self, body: &str) -> (r: AssignStep)
        requires
            old(self).view().stage == AssignStage::Overwrite,
        ensures
            spec_assign_page(old(self).view(), body@) == Some((final(self).view(), assign_step_view(r))),
    {
        proof {
            use_type_invariant(&*self);
        }
        let echo = cat("  Overwrite response: ", body);
        match overwrite_outcome(body) {
            OverwriteOutcome::Overwritten => {
                let mut lines: Vec<String> = Vec::new();
                lines.push(echo);
                lines.push("\n[+] File overwritten successfully!".to_owned());
                lines.push("\nRe-fetching edit page after upload...".to_owned());
                assert(strings_view(lines@) =~= seq!["  Overwrite response: "@ + body@] + seq![
                    "\n[+] File overwritten successfully!"@,
                    refetching_line(),
                ]);
                let url = assign_url(self.id, "&action=editsubmission");
                self.stage = AssignStage::Refresh;
                step(lines, AssignAction::Get { url, request: AssignRequest::Refresh })
            },
            OverwriteOutcome::Failed => {
                let mut lines: Vec<String> = Vec::new();
                lines.push(echo);
                lines.push("\n[!] Overwrite failed, trying delete-then-upload...".to_owned());
                assert(strings_view(lines@) =~= seq!["  Overwrite response: "@ + body@] + seq![
                    "\n[!] Overwrite failed, trying delete-then-upload..."@,
                ]);
                let file = file_to_delete(&self.clash);
                let fields = delete_fields(
                    self.params.sesskey.as_str(),
                    self.settings.client_id.as_str(),
                    self.params.draft_id.as_str(),
                    file.as_str(),
                );
                self.stage = AssignStage::DeleteClash;
                step(lines, AssignAction::Post { url: draft_url("deleteselected"), fields, request: AssignRequest::DeleteClash })
            },
            OverwriteOutcome::Unclear => {
                let mut lines: Vec<String> = Vec::new();
                lines.push(echo);
                lines.push(cat("\n[?] Overwrite response unclear: ", body));
                assert(strings_view(lines@) =~= seq!["  Overwrite response: "@ + body@] + seq![
                    "\n[?] Overwrite response unclear: "@ + body@,
                ]);
                self.stage = AssignStage::Over;
                step(lines, AssignAction::Done)
            },
        }
    }

    fn on_list_after(&mut self, body: &str) -> (r: AssignStep)
        requires
            old(self).view().stage == AssignStage::ListAfterDelete,
        ensures
            spec_assign_page(old(self).view(), body@) == Some((final(self).view(), assign_step_view(r))),
    {
        proof {
            use_type_invariant(&*self);
        }
        let mut lines: Vec<String> = Vec::new();
        lines.push(cat("  List after delete: ", body));
        assert(strings_view(lines@) =~= seq!["  List after delete: "@ + body@]);
        let url = upload_url(self.params.sesskey.as_str(), self.params.draft_id.as_str(), &self.settings);
        let fields = upload_fields(
            self.params.draft_id.as_str(),
            self.types.as_str(),
            self.title.as_str(),
            self.author.as_str(),
        );
        self.stage = AssignStage::Reupload;
        step(lines, AssignAction::Upload { url, fields, request: AssignRequest::Reupload })
    }

    fn on_reupload(&mut self, body: &str) -> (r: AssignStep)
        requires
            old(self).view().stage == AssignStage::Reupload,
        ensures
            spec_assign_page(old(self).view(), body@) == Some((final(self).view(), assign_step_view(r))),
    {
        proof {
            use_type_invariant(&*self);
        }
        let echo = cat("  Retry upload response: ", body);
        let mut lines: Vec<String> = Vec::new();
        lines.push(echo);
        if retry_succeeded(body) {
            lines.push("\n[+] Upload succeeded after delete!".to_owned());
            lines.push("\nRe-fetching edit page after upload...".to_owned());
            assert(strings_view(lines@) =~= seq!["  Retry upload response: "@ + body@] + seq![
                "\n[+] Upload succeeded after delete!"@,
                refetching_line(),
            ]);
            let url = assign_url(self.id, "&action=editsubmission");
            self.stage = AssignStage::Refresh;
            step(lines, AssignAction::Get { url, request: AssignRequest::Refresh })
        } else {
            lines.push("\n[!] Retry upload failed!".to_owned());
            assert(strings_view(lines@) =~= seq!["  Retry upload response: "@ + body@] + seq!["\n[!] Retry upload failed!"@]);
            self.stage = AssignStage::Over;
            step(lines, AssignAction::Done)
        }
    }

    fn on_refresh(&mut self, body: &str) -> (r: Option<AssignStep>)
        requires
            old(self).view().stage == AssignStage::Refresh,
        ensures
            match r {
                Some(st) => spec_assign_page(old(self).view(), body@) == Some((final(self).view(), assign_step_view(st))),
                None => spec_assign_page(old(self).view(), body@) is None,
            },
    {
        proof {
            use_type_invariant(&*self);
        }
        match fresh_form_values(body, self.params.lastmodified.as_str(), self.params.sesskey.as_str()) {
            None => None,
            Some((lm, sk)) => {
                let mut lines: Vec<String> = Vec::new();
                lines.push(cat("  fresh lastmodified: ", lm.as_str()));
                lines.push(cat("  fresh sesskey: ", sk.as_str()));
                lines.push("\nSubmitting assignment...".to_owned());
                assert(strings_view(lines@) =~= seq![
                    "  fresh lastmodified: "@ + lm@,
                    "  fresh sesskey: "@ + sk@,
                    "\nSubmitting assignment..."@,
                ]);
                let fields = submit_fields(
                    self.id,
                    self.params.userid.as_str(),
                    lm.as_str(),
                    sk.as_str(),
                    self.params.draft_id.as_str(),
                );
                self.stage = AssignStage::Submit;
                Some(step(lines, AssignAction::Submit { url: assign_post_url(), fields }))
            },
        }
    }

    fn on_submit(&mut self, body: &str) -> (r: AssignStep)
        requires
            old(self).view().stage == AssignStage::Submit,
        ensures
            spec_assign_page(old(self).view(), body@) == Some((final(self).view(), assign_step_view(r))),
    {
        proof {
            use_type_invariant(&*self);
        }
        let bc = chars_of(body);
        let n = utf8_len_prefix(bc.as_slice(), bc.len());
        assert(bc@.take(bc@.len() as int) =~= bc@);
        let d = decimal_exec(n);
        let ds = string_of(d.as_slice());
        let mut lines: Vec<String> = Vec::new();
        lines.push(cat3("  Body length: ", ds.as_str(), " bytes"));
        lines.push(outcome_text(submit_outcome(body)));
        assert(strings_view(lines@) =~= seq![
            "  Body length: "@ + decimal(utf8_len(body@)) + " bytes"@,
            outcome_line(spec_submit_outcome(body@)),
        ]);
        self.stage = AssignStage::Over;
        step(lines, AssignAction::Done)
    }
}

impl AssignFlow {
    /// The step from the page handed back at the current stage (see
    /// [`spec_assign_page`]).
    pub fn on_page(&mut self, body: &str) -> (r: Option<AssignStep>)
        ensures
            match r {
                Some(st) => spec_assign_page(old(self).view(), body@) == Some((final(self).view(), assign_step_view(st))),
                None => spec_assign_page(old(self).view(), body@) is None,
            },
    {
        match self.stage {
            AssignStage::View => self.on_view(body),
            AssignStage::Edit => self.on_edit(body),
            AssignStage::Confirm => self.on_confirm(body),
            AssignStage::Remove => Some(self.on_remove()),
            AssignStage::List => self.on_list(body),
            AssignStage::Deleting => Some(self.on_deleting()),
            AssignStage::Settings => self.on_settings(body),
            AssignStage::Upload => self.on_upload(body),
            AssignStage::Overwrite => Some(self.on_overwrite(body)),
            AssignStage::DeleteClash => {
                proof {
                    use_type_invariant(&*self);
                }
                self.stage = AssignStage::WaitClash;
                let lines: Vec<String> = Vec::new();
                assert(strings_view(lines@) =~= Seq::<Seq<char>>::empty());
                Some(step(lines, AssignAction::Wait { ms: 2000 }))
            },
            AssignStage::ListAfterDelete => Some(self.on_list_after(body)),
            AssignStage::Reupload => Some(self.on_reupload(body)),
            AssignStage::Refresh => self.on_refresh(body),
            AssignStage::Submit => Some(self.on_submit(body)),
            _ => None,
        }
    }

    /// The step at the end of the current pause (see
    /// [`spec_assign_waited`]).
    pub fn on_waited(&mut self) -> (r: Option<AssignStep>)
        ensures
            match r {
                Some(st) => spec_assign_waited(old(self).view()) == Some((final(self).view(), assign_step_view(st))),
                None => spec_assign_waited(old(self).view()) is None,
            },
    {
        proof {
            use_type_invariant(&*self);
        }
        match self.stage {
            AssignStage::BeforeList => {
                let fields = draft_fields(self.params.sesskey.as_str(), "", self.params.draft_id.as_str());
                self.stage = AssignStage::List;
                let lines: Vec<String> = Vec::new();
                assert(strings_view(lines@) =~= Seq::<Seq<char>>::empty());
                Some(step(lines, AssignAction::Post { url: draft_url("list"), fields, request: AssignRequest::List }))
            },
            AssignStage::AfterDeleting => {
                let mut lines: Vec<String> = Vec::new();
                if self.attempts < MAX_DRAFT_ATTEMPTS {
                    lines.push(attempt_text(self.attempts + 1));
                    assert(strings_view(lines@) =~= seq![attempt_line((self.attempts + 1) as nat)]);
                    self.stage = AssignStage::BeforeList;
                    Some(step(lines, AssignAction::Wait { ms: 1000 }))
                } else {
                    let m = decimal_exec(MAX_DRAFT_ATTEMPTS as u128);
                    let ms = string_of(m.as_slice());
                    lines.push(cat3("  WARNING: Could not clear draft area after ", ms.as_str(), " attempts, proceeding anyway..."));
                    assert(strings_view(lines@) =~= seq![
                        "  WARNING: Could not clear draft area after "@ + decimal(MAX_DRAFT_ATTEMPTS as nat)
                            + " attempts, proceeding anyway..."@,
                    ]);
                    let url = assign_url(self.id, "&action=editsubmission");
                    self.stage = AssignStage::Settings;
                    Some(step(lines, AssignAction::Get { url, request: AssignRequest::Settings }))
                }
            },
            AssignStage::WaitClash => {
                let fields = draft_fields(
                    self.params.sesskey.as_str(),
                    self.settings.client_id.as_str(),
                    self.params.draft_id.as_str(),
                );
                self.stage = AssignStage::ListAfterDelete;
                let lines: Vec<String> = Vec::new();
                assert(strings_view(lines@) =~= Seq::<Seq<char>>::empty());
                Some(step(lines, AssignAction::Post { url: draft_url("list"), fields, request: AssignRequest::ListAfterDelete }))
            },
            _ => None,
        }
    }
}

/// Every step keeps the limit on listings of the draft area: it is listed
/// at most five times, and only while a listing is left.
pub proof fn lemma_assign_steps_keep_limit(v: AssignView, body: Seq<char>)
    requires
        assign_wf(v),
    ensures
        spec_assign_page(v, body) matches Some((w, s)) ==> assign_wf(w),
        spec_assign_waited(v) matches Some((w, s)) ==> assign_wf(w),
{
}

/// A submission ends (the stage `Over`) exactly at an action that stops.
pub proof fn lemma_assign_ends_at_stop(v: AssignView, body: Seq<char>)
    ensures
        spec_assign_page(v, body) matches Some((w, s)) ==> (w.stage == AssignStage::Over <==> s.1.0 >= 5),
        spec_assign_waited(v) matches Some((w, s)) ==> (w.stage == AssignStage::Over <==> s.1.0 >= 5),
{
}

/// A clash is resolved with at most one repeated upload: the reply to the
/// repeated upload leads only to the submission or to the end, and an
/// overwrite is asked for only after the first upload.
pub proof fn lemma_single_retry(v: AssignView, body: Seq<char>)
    ensures
        v.stage == AssignStage::Reupload ==> (spec_assign_page(v, body) matches Some((w, s)) ==> (w.stage
            == AssignStage::Refresh || w.stage == AssignStage::Over)),
        spec_assign_page(v, body) matches Some((w, s)) ==> (w.stage == AssignStage::Overwrite ==> v.stage
            == AssignStage::Upload),
        spec_assign_page(v, body) matches Some((w, s)) ==> (w.stage == AssignStage::Reupload ==> v.stage
            == AssignStage::ListAfterDelete),
{
}

/// The order of a submission: the removal of the previous submission comes
/// first, the draft area is cleared before the upload, and the assignment
/// is submitted only after an upload that succeeded (stored, overwritten,
/// or stored again after the clashing file was deleted). Each clause names
/// the stages a step can come from. The draft area is listed only at the
/// end of the pause before a listing, and each listing counts one attempt
/// (see [`lemma_assign_steps_keep_limit`] for the limit).
pub proof fn lemma_assign_order(v: AssignView, body: Seq<char>)
    ensures
        spec_assign_page(v, body) matches Some((w, s)) ==> (w.stage == AssignStage::Remove ==> v.stage
            == AssignStage::Confirm),
        spec_assign_page(v, body) matches Some((w, s)) ==> (w.stage == AssignStage::BeforeList ==> v.stage
            == AssignStage::Remove),
        spec_assign_waited(v) matches Some((w, s)) ==> (w.stage == AssignStage::BeforeList ==> v.stage
            == AssignStage::AfterDeleting),
        spec_assign_page(v, body) matches Some((w, s)) ==> (w.stage == AssignStage::Settings ==> v.stage
            == AssignStage::List),
        spec_assign_waited(v) matches Some((w, s)) ==> (w.stage == AssignStage::Settings ==> v.stage
            == AssignStage::AfterDeleting),
        spec_assign_page(v, body) matches Some((w, s)) ==> (s.1.0 == 2 ==> v.stage == AssignStage::Settings
            || v.stage == AssignStage::ListAfterDelete),
        spec_assign_waited(v) matches Some((w, s)) ==> s.1.0 != 2 && s.1.0 != 3,
        spec_assign_page(v, body) matches Some((w, s)) ==> (s.1.0 == 3 ==> v.stage == AssignStage::Refresh),
        spec_assign_page(v, body) matches Some((w, s)) ==> (w.stage == AssignStage::Refresh ==> (v.stage
            == AssignStage::Upload && (spec_upload_outcome(body) == UploadOutcome::Stored || spec_upload_outcome(
            body,
        ) == UploadOutcome::Unrecognised)) || (v.stage == AssignStage::Overwrite && spec_overwrite_outcome(body)
            == OverwriteOutcome::Overwritten) || (v.stage == AssignStage::Reupload && spec_retry_succeeded(body))),
        spec_assign_page(v, body) matches Some((w, s)) ==> s.1.3 != Some(AssignRequest::List),
        spec_assign_waited(v) matches Some((w, s)) ==> (s.1.3 == Some(AssignRequest::List) ==> v.stage
            == AssignStage::BeforeList && w.attempts == v.attempts),
        spec_assign_page(v, body) matches Some((w, s)) ==> (assign_wf(v) && v.stage == AssignStage::List
            ==> w.attempts == v.attempts + 1),
{
}

} // verus!
