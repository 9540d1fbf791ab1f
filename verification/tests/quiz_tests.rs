use moodle_cli::quiz::{
    answer_params, attempt_page, finish_request, has_questions, is_review_title, is_review_url,
    page_title, preflight, questions, quiz_url, selection, start_attempt_url, start_fields,
    start_info, AttemptPage,
};

fn pairs(v: &[(&str, &str)]) -> Vec<(String, String)> {
    v.iter().map(|(a, b)| (a.to_string(), b.to_string())).collect()
}

const QUESTION_PAGE: &str = r#"<html><body>
<form action="https://x/mod/quiz/processattempt.php?cmid=5" method="post">
  <div class="que multichoice">
    <div class="qtext"><p>What   is
       2 + 2 ?</p></div>
    <div class="r0"><input type="checkbox" name="q1:1_choice0" value="1"><label> Three </label></div>
    <div class="r1"><input type="checkbox" name="q1:1_choice1" value="1"><label>Four</label></div>
    <div class="r0"><input type="radio" name="q1:1_choice2" value="0"></div>
  </div>
  <input type="hidden" name="attempt" value="77">
  <input type="hidden" name="sesskey" value="SK">
  <input type="hidden" name="slots" value="1">
  <input type="hidden" name="nextpage" value="-1">
  <input type="text" name="" value="1">
</form>
</body></html>"#;

#[test]
fn questions_with_choices() {
    let qs = questions(QUESTION_PAGE).unwrap();
    assert_eq!(qs.len(), 1);
    assert_eq!(qs[0].text, "What is 2 + 2 ?");
    let choices: Vec<(String, String)> =
        qs[0].choices.iter().map(|c| (c.text.clone(), c.input.clone())).collect();
    assert_eq!(
        choices,
        pairs(&[("Three", "q1:1_choice0"), ("Four", "q1:1_choice1"), ("Choice 3", "q1:1_choice2")])
    );
    assert_eq!(has_questions(QUESTION_PAGE), Some(true));
    assert_eq!(has_questions("<p>none</p>"), Some(false));
}

#[test]
fn attempt_page_and_answers() {
    let form = match attempt_page(QUESTION_PAGE).unwrap() {
        AttemptPage::Questions { form } => form,
        _ => panic!("expected questions"),
    };
    assert_eq!(form.action, "https://x/mod/quiz/processattempt.php?cmid=5");
    assert_eq!(form.choices, vec!["q1:1_choice0".to_string(), "q1:1_choice1".to_string()]);
    assert_eq!(
        form.hidden,
        pairs(&[("attempt", "77"), ("sesskey", "SK"), ("slots", "1"), ("nextpage", "-1")])
    );
    assert_eq!(form.unlabeled, Some("1".to_string()));
    assert!(!form.more_pages);
    assert_eq!(
        answer_params(&form, "2, 9,x"),
        pairs(&[
            ("attempt", "77"),
            ("sesskey", "SK"),
            ("slots", "1"),
            ("nextpage", "-1"),
            ("next", "テストを終了する ..."),
            ("_qf__mod_quiz_attempt_form", "1"),
            ("q1:1_choice1", "1"),
        ])
    );
}

#[test]
fn attempt_page_kinds() {
    match attempt_page("<p>no form</p>").unwrap() {
        AttemptPage::NoForm { has_questions } => assert!(!has_questions),
        _ => panic!("expected no form"),
    }
    match attempt_page(r#"<div class="que"></div>"#).unwrap() {
        AttemptPage::NoForm { has_questions } => assert!(has_questions),
        _ => panic!("expected no form"),
    }
    match attempt_page(r#"<form action="processattempt.php"></form>"#).unwrap() {
        AttemptPage::NoQuestions => {}
        _ => panic!("expected no questions"),
    }
}

#[test]
fn more_pages_and_marker() {
    let page = r#"<form action="/processattempt.php"><div class="que"></div>
        <input type="hidden" name="nextpage" value="1">
        <input name="" value="1"></form>"#;
    let form = match attempt_page(page).unwrap() {
        AttemptPage::Questions { form } => form,
        _ => panic!("expected questions"),
    };
    assert!(form.more_pages);
    assert_eq!(form.unlabeled, Some("1".to_string()));
    assert_eq!(
        answer_params(&form, "0"),
        pairs(&[("nextpage", "1"), ("next", "次のページ"), ("_qf__mod_quiz_attempt_form", "1")])
    );
}

#[test]
fn selections() {
    assert_eq!(selection("1, 3,x,0,9", 4), vec![0, 2]);
    assert_eq!(selection("0", 4), Vec::<usize>::new());
    assert_eq!(selection("", 4), Vec::<usize>::new());
    assert_eq!(selection("2,2", 2), vec![1, 1]);
}

#[test]
fn start_and_preflight() {
    let page = r#"<input name="cmid" value="77"><input name="sesskey" value="sk">"#;
    assert_eq!(start_info(page), Some(Some((77, "sk".to_string()))));
    assert_eq!(start_info(r#"<input name="cmid" value="x"><input name="sesskey" value="sk">"#), Some(None));
    assert_eq!(start_info("<p></p>"), Some(None));
    let pf = r#"<form id="other"><input type="hidden" name="a" value="1"></form>
        <form id="mod_quiz_preflight_form" action="https://x/start.php">
        <input type="hidden" name="cmid" value="77"><input type="hidden" value="nameless">
        <input type="hidden" name="sesskey" value="sk"></form>"#;
    let (action, fields) = preflight(pf).unwrap().unwrap();
    assert_eq!(action, "https://x/start.php");
    assert_eq!(fields, pairs(&[("cmid", "77"), ("sesskey", "sk"), ("submitbutton", "受験を開始する")]));
    let (action2, _) = preflight(r#"<form id="mod_quiz_preflight_form"></form>"#).unwrap().unwrap();
    assert_eq!(action2, "https://joho.g-edu.uec.ac.jp/moodle3/mod/quiz/startattempt.php");
    assert_eq!(preflight("<form></form>"), Some(None));
}

#[test]
fn finishing_the_attempt() {
    let page = r#"<form action="https://x/processattempt.php">
        <input type="hidden" name="attempt" value="77">
        <input type="hidden" name="slots" value="1,2">
        <input type="checkbox" name="q1_choice0" value="1">
        <input type="checkbox" name="q1_choice1" value="0">
        <input type="submit" name="finish" value="Submit">
    </form>"#;
    let (action, fields) = finish_request(page).unwrap().unwrap();
    assert_eq!(action, "https://x/processattempt.php");
    assert_eq!(fields, pairs(&[("attempt", "77"), ("q1_choice0", "1")]));
    assert_eq!(finish_request("<p></p>"), Some(None));
}

#[test]
fn titles_and_addresses() {
    assert_eq!(page_title("<html><head><title>Quiz: review</title></head></html>"), Some("Quiz: review".to_string()));
    assert_eq!(page_title("<p></p>"), Some(String::new()));
    assert!(is_review_title("小テスト: レビュー"));
    assert!(!is_review_title("Summary"));
    assert!(is_review_url("https://x/mod/quiz/review.php?attempt=1"));
    assert!(is_review_url("https://x/mod/quiz/summary.php?attempt=1"));
    assert!(!is_review_url("https://x/mod/quiz/attempt.php"));
    assert_eq!(quiz_url(3), "https://joho.g-edu.uec.ac.jp/moodle3/mod/quiz/view.php?id=3");
    assert_eq!(start_attempt_url(), "https://joho.g-edu.uec.ac.jp/moodle3/mod/quiz/startattempt.php");
    assert_eq!(start_fields(77, "sk"), pairs(&[("cmid", "77"), ("sesskey", "sk")]));
}
