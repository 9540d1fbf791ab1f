use moodle_cli::quiz_flow::{QuizAction, QuizFlow, QuizNote, QuizStage};

fn pairs(v: &[(&str, &str)]) -> Vec<(String, String)> {
    v.iter().map(|(a, b)| (a.to_string(), b.to_string())).collect()
}

const VIEW: &str = "https://joho.g-edu.uec.ac.jp/moodle3/mod/quiz/view.php?id=5";

const QUESTIONS: &str = r#"<form action="https://x/mod/quiz/processattempt.php?cmid=5">
  <div class="que"><div class="qtext">Q</div>
    <div class="r0"><input type="checkbox" name="q1:1_choice0" value="1"><label>A</label></div>
    <div class="r1"><input type="checkbox" name="q1:1_choice1" value="1"><label>B</label></div>
  </div>
  <input type="hidden" name="attempt" value="9">
</form>"#;

const SUMMARY: &str = r#"<form action="https://x/mod/quiz/processattempt.php?finish=1">
  <input type="hidden" name="attempt" value="9">
  <input type="hidden" name="slots" value="1">
</form>"#;

fn kind(a: &QuizAction) -> &'static str {
    match a {
        QuizAction::Get { .. } => "get",
        QuizAction::Post { .. } => "post",
        QuizAction::AskAnswers => "ask",
        QuizAction::SendAnswers { .. } => "send",
        QuizAction::ShowQuestions { .. } => "questions",
        QuizAction::ShowText { .. } => "text",
        QuizAction::Report { .. } => "report",
        QuizAction::Stop { .. } => "stop",
    }
}

#[test]
fn quiz_flow_fetches_the_quiz_page_first() {
    let (flow, action) = QuizFlow::begin(5);
    assert_eq!(flow.stage, QuizStage::View);
    match action {
        QuizAction::Get { url } => assert_eq!(url, VIEW),
        _ => panic!("expected a fetch"),
    }
}

#[test]
fn quiz_flow_shows_a_review_page() {
    let (mut flow, _) = QuizFlow::begin(5);
    let a = flow.on_page("https://x/mod/quiz/review.php?attempt=1", r#"<div class="que"></div>"#).unwrap();
    assert!(matches!(a, QuizAction::ShowQuestions { note: QuizNote::Review }));
    assert_eq!(flow.stage, QuizStage::Over);
    let (mut flow, _) = QuizFlow::begin(5);
    let a = flow.on_page("https://x/mod/quiz/summary.php", "<p>done</p>").unwrap();
    assert!(matches!(a, QuizAction::ShowText { note: QuizNote::Review }));
}

#[test]
fn quiz_flow_without_start_info_shows_the_page() {
    let (mut flow, _) = QuizFlow::begin(5);
    let a = flow.on_page(VIEW, "<p>closed</p>").unwrap();
    assert!(matches!(a, QuizAction::ShowText { note: QuizNote::NoInfo }));
    assert!(flow.on_page(VIEW, "<p>closed</p>").is_none());
}

#[test]
fn quiz_flow_full_attempt() {
    let (mut flow, _) = QuizFlow::begin(5);
    let view = r#"<input name="cmid" value="77"><input name="sesskey" value="sk">"#;
    match flow.on_page(VIEW, view).unwrap() {
        QuizAction::Post { url, fields, note } => {
            assert_eq!(url, "https://joho.g-edu.uec.ac.jp/moodle3/mod/quiz/startattempt.php");
            assert_eq!(fields, pairs(&[("cmid", "77"), ("sesskey", "sk")]));
            assert_eq!(note, QuizNote::Plain);
        }
        other => panic!("expected the start, got {}", kind(&other)),
    }
    assert_eq!(flow.stage, QuizStage::Start);
    let preflight = r#"<form id="mod_quiz_preflight_form" action="https://x/start.php">
        <input type="hidden" name="cmid" value="77"></form>"#;
    match flow.on_page("https://x/mod/quiz/startattempt.php", preflight).unwrap() {
        QuizAction::Post { url, fields, note } => {
            assert_eq!(url, "https://x/start.php");
            assert_eq!(fields, pairs(&[("cmid", "77"), ("submitbutton", "受験を開始する")]));
            assert_eq!(note, QuizNote::Confirm);
        }
        other => panic!("expected the confirmation, got {}", kind(&other)),
    }
    assert_eq!(flow.stage, QuizStage::Attempt);
    let a = flow.on_page("https://x/mod/quiz/attempt.php", QUESTIONS).unwrap();
    assert_eq!(kind(&a), "ask");
    assert_eq!(flow.stage, QuizStage::Answer);
    assert!(flow.on_page("https://x", QUESTIONS).is_none());
    match flow.on_reply("2").unwrap() {
        QuizAction::SendAnswers { url, fields, selected } => {
            assert_eq!(url, "https://x/mod/quiz/processattempt.php?cmid=5");
            assert_eq!(
                fields,
                pairs(&[("attempt", "9"), ("next", "テストを終了する ..."), ("q1:1_choice1", "1")])
            );
            assert_eq!(selected, vec!["q1:1_choice1".to_string()]);
        }
        other => panic!("expected answers, got {}", kind(&other)),
    }
    assert_eq!(flow.stage, QuizStage::Sent);
    assert!(flow.on_reply("1").is_none());
    match flow.on_page("https://x/mod/quiz/summary.php", SUMMARY).unwrap() {
        QuizAction::Post { url, fields, .. } => {
            assert_eq!(url, "https://x/mod/quiz/processattempt.php?finish=1");
            assert_eq!(fields, pairs(&[("attempt", "9")]));
        }
        other => panic!("expected the finish, got {}", kind(&other)),
    }
    assert_eq!(flow.stage, QuizStage::Finish);
    match flow.on_page("https://x/review.php", "<title>Quiz: review</title>").unwrap() {
        QuizAction::Report { title, submitted } => {
            assert_eq!(title, "Quiz: review");
            assert!(submitted);
        }
        other => panic!("expected the report, got {}", kind(&other)),
    }
    assert_eq!(flow.stage, QuizStage::Over);
}

#[test]
fn quiz_flow_completed_and_formless_attempts() {
    let (mut flow, _) = QuizFlow::begin(5);
    let view = r#"<input name="cmid" value="77"><input name="sesskey" value="sk">"#;
    flow.on_page(VIEW, view).unwrap();
    let a = flow.on_page("https://x/mod/quiz/review.php?attempt=3", "<p></p>").unwrap();
    assert!(matches!(a, QuizAction::ShowQuestions { note: QuizNote::Completed }));

    let (mut flow, _) = QuizFlow::begin(5);
    flow.on_page(VIEW, view).unwrap();
    let a = flow.on_page("https://x/mod/quiz/attempt.php", r#"<div class="que"></div>"#).unwrap();
    assert!(matches!(a, QuizAction::Stop { note: QuizNote::NoForm }));

    let (mut flow, _) = QuizFlow::begin(5);
    flow.on_page(VIEW, view).unwrap();
    let a = flow.on_page("https://x/mod/quiz/attempt.php", "<p>nothing</p>").unwrap();
    assert!(matches!(a, QuizAction::ShowText { note: QuizNote::Plain }));
}

#[test]
fn quiz_flow_next_page_of_questions_and_empty_summary() {
    let (mut flow, _) = QuizFlow::begin(5);
    let view = r#"<input name="cmid" value="77"><input name="sesskey" value="sk">"#;
    flow.on_page(VIEW, view).unwrap();
    flow.on_page("https://x/mod/quiz/attempt.php", QUESTIONS).unwrap();
    flow.on_reply("0").unwrap();
    let a = flow.on_page("https://x/mod/quiz/attempt.php?page=1", QUESTIONS).unwrap();
    assert_eq!(kind(&a), "ask");
    flow.on_reply("").unwrap();
    let a = flow.on_page("https://x/mod/quiz/summary.php", "<p>no form</p>").unwrap();
    assert!(matches!(a, QuizAction::Stop { note: QuizNote::Plain }));
}
