//! The course of taking a quiz, as a state machine: each page that comes
//! back decides the next request, what is shown, or the end.
use vstd::prelude::*;
use crate::api::{spec_moodle_url, spec_moodle_url_with};
use crate::assignment::params_view;
use crate::pattern::strings_view;
use crate::quiz::{
    answer_params, attempt_form_view, attempt_page, finish_request, has_questions, is_review_title,
    is_review_url, page_title, preflight, quiz_url, selection, spec_answer_params, spec_attempt_page,
    spec_finish_request, spec_has_questions, spec_is_review_title, spec_is_review_url, spec_page_title,
    spec_preflight, spec_selection, spec_start_fields, spec_start_info, start_attempt_url, start_fields,
    start_info, lemma_selection_in_range, AttemptForm, AttemptPage,
};

verus! {

/// Where taking a quiz stands.
#[derive(PartialEq, Eq, Structural, Clone, Copy, Debug)]
pub enum QuizStage {
    /// The quiz page was asked for.
    View,
    /// An attempt was asked to start.
    Start,
    /// The confirmation of a timed quiz was sent.
    Attempt,
    /// A page of questions was shown; the reply picking choices comes next.
    Answer,
    /// A page of answers was sent.
    Sent,
    /// The request that finishes the attempt was sent.
    Finish,
    /// Nothing is left to do.
    Over,
}

/// What the client tells the user along with an action.
#[derive(PartialEq, Eq, Structural, Clone, Copy, Debug)]
pub enum QuizNote {
    /// Nothing.
    Plain,
    /// The quiz page is a review page.
    Review,
    /// The quiz page does not show how to start an attempt.
    NoInfo,
    /// The attempt was already completed.
    Completed,
    /// The quiz asks for a confirmation before the attempt.
    Confirm,
    /// The page shows questions but no form to answer them.
    NoForm,
}

/// The next thing the client does. Every page it fetches or posts is handed
/// back to [`QuizFlow::on_page`]; "the page" below is the last one handed
/// back.
pub enum QuizAction {
    /// Fetch this address.
    Get { url: String },
    /// Post these fields to this address.
    Post { url: String, fields: Vec<(String, String)>, note: QuizNote },
    /// Show the questions of the page and hand the user's reply to
    /// [`QuizFlow::on_reply`].
    AskAnswers,
    /// Post the answers; `selected` names the choices the reply picked.
    SendAnswers { url: String, fields: Vec<(String, String)>, selected: Vec<String> },
    /// Show the questions of the page; the quiz is over.
    ShowQuestions { note: QuizNote },
    /// Show the page as text; the quiz is over.
    ShowText { note: QuizNote },
    /// Show the title of the result page and whether it is a review; the
    /// quiz is over.
    Report { title: String, submitted: bool },
    /// The quiz is over.
    Stop { note: QuizNote },
}

/// The state of taking a quiz: where it stands, and the answer form of the
/// page whose questions were shown last.
pub struct QuizFlow {
    pub stage: QuizStage,
    pub form: Option<AttemptForm>,
}

/// An action as plain values: its kind (in the order of the variants), its
/// note, its address or title, its fields, the choices picked, and whether
/// the result is a review.
pub open spec fn action_view(a: QuizAction) -> (nat, QuizNote, Seq<char>, Seq<(Seq<char>, Seq<char>)>, Seq<Seq<char>>, bool) {
    match a {
        QuizAction::Get { url } => (0, QuizNote::Plain, url@, seq![], seq![], false),
        QuizAction::Post { url, fields, note } => (1, note, url@, params_view(fields@), seq![], false),
        QuizAction::AskAnswers => (2, QuizNote::Plain, seq![], seq![], seq![], false),
        QuizAction::SendAnswers { url, fields, selected } => (
            3,
            QuizNote::Plain,
            url@,
            params_view(fields@),
            strings_view(selected@),
            false,
        ),
        QuizAction::ShowQuestions { note } => (4, note, seq![], seq![], seq![], false),
        QuizAction::ShowText { note } => (5, note, seq![], seq![], seq![], false),
        QuizAction::Report { title, submitted } => (6, QuizNote::Plain, title@, seq![], seq![], submitted),
        QuizAction::Stop { note } => (7, note, seq![], seq![], seq![], false),
    }
}

pub open spec fn post_view(url: Seq<char>, fields: Seq<(Seq<char>, Seq<char>)>, note: QuizNote) -> (nat, QuizNote, Seq<char>, Seq<(Seq<char>, Seq<char>)>, Seq<Seq<char>>, bool) {
    (1, note, url, fields, seq![], false)
}

pub open spec fn bare_view(kind: nat, note: QuizNote) -> (nat, QuizNote, Seq<char>, Seq<(Seq<char>, Seq<char>)>, Seq<Seq<char>>, bool) {
    (kind, note, seq![], seq![], seq![], false)
}

/// What an attempt page leads to: the questions and their answers where the
/// page has both; else the page as text, or a note where questions have no
/// form. `None` where a selector is refused.
pub open spec fn attempt_next(body: Seq<char>) -> Option<(QuizStage, (nat, QuizNote, Seq<char>, Seq<(Seq<char>, Seq<char>)>, Seq<Seq<char>>, bool))> {
    match spec_attempt_page(body) {
        None => None,
        Some(p) => if p.0 == 0 {
            if p.1 {
                Some((QuizStage::Over, bare_view(7, QuizNote::NoForm)))
            } else {
                Some((QuizStage::Over, bare_view(5, QuizNote::Plain)))
            }
        } else if p.0 == 1 {
            Some((QuizStage::Over, bare_view(5, QuizNote::Plain)))
        } else {
            Some((QuizStage::Answer, bare_view(2, QuizNote::Plain)))
        },
    }
}

/// What the page handed back at `stage` (reached at address `url`) leads to:
/// the next stage and action. `None` where a selector is refused, and at a
/// stage that awaits no page (the reply to the questions, or the end).
/// - The quiz page: a review page is shown (its questions where it has
///   some); else an attempt is started where the page gives the module
///   number and session key, and the page is shown as text where not.
/// - The reply to the start: a review means the attempt was completed; a
///   confirmation form is sent; else the reply is an attempt page.
/// - The reply to the confirmation: an attempt page.
/// - The reply to the answers: an attempt page where it shows questions;
///   else the summary page, whose answer form finishes the attempt.
/// - The reply to the finish: its title is reported.
pub open spec fn spec_quiz_page(stage: QuizStage, url: Seq<char>, body: Seq<char>) -> Option<(QuizStage, (nat, QuizNote, Seq<char>, Seq<(Seq<char>, Seq<char>)>, Seq<Seq<char>>, bool))> {
    match stage {
        QuizStage::View => if spec_is_review_url(url) {
            match spec_has_questions(body) {
                None => None,
                Some(q) => Some((QuizStage::Over, bare_view(if q { 4 } else { 5 }, QuizNote::Review))),
            }
        } else {
            match spec_start_info(body) {
                None => None,
                Some(None) => Some((QuizStage::Over, bare_view(5, QuizNote::NoInfo))),
                Some(Some((cmid, key))) => Some((
                    QuizStage::Start,
                    post_view(spec_moodle_url("/mod/quiz/startattempt.php"@), spec_start_fields(cmid, key), QuizNote::Plain),
                )),
            }
        },
        QuizStage::Start => if spec_is_review_url(url) {
            Some((QuizStage::Over, bare_view(4, QuizNote::Completed)))
        } else {
            match spec_preflight(body) {
                None => None,
                Some(Some((a, f))) => Some((QuizStage::Attempt, post_view(a, f, QuizNote::Confirm))),
                Some(None) => attempt_next(body),
            }
        },
        QuizStage::Attempt => attempt_next(body),
        QuizStage::Sent => match spec_has_questions(body) {
            None => None,
            Some(true) => attempt_next(body),
            Some(false) => match spec_finish_request(body) {
                None => None,
                Some(None) => Some((QuizStage::Over, bare_view(7, QuizNote::Plain))),
                Some(Some((a, f))) => Some((QuizStage::Finish, post_view(a, f, QuizNote::Plain))),
            },
        },
        QuizStage::Finish => match spec_page_title(body) {
            None => None,
            Some(t) => Some((QuizStage::Over, (6, QuizNote::Plain, t, seq![], seq![], spec_is_review_title(t)))),
        },
        _ => None,
    }
}

/// A quiz ends (the stage `Over`) exactly at an action that shows, reports
/// or stops; every other action leads to a further page or reply.
pub proof fn lemma_quiz_ends_at_final_actions(stage: QuizStage, url: Seq<char>, body: Seq<char>)
    ensures
        spec_quiz_page(stage, url, body) matches Some((next, a)) ==> (next == QuizStage::Over <==> a.0 >= 4),
{
}

impl QuizFlow {
    /// The start of a quiz: fetch its page.
    pub fn begin(quiz_id: u32) -> (r: (QuizFlow, QuizAction))
        ensures
            r.0.stage == QuizStage::View,
            r.0.form is None,
            action_view(r.1) == (
                0nat,
                QuizNote::Plain,
                spec_moodle_url_with("/mod/quiz/view.php?id="@, quiz_id, ""@),
                Seq::<(Seq<char>, Seq<char>)>::empty(),
                Seq::<Seq<char>>::empty(),
                false,
            ),
    {
        (QuizFlow { stage: QuizStage::View, form: None }, QuizAction::Get { url: quiz_url(quiz_id) })
    }

    /// The step from an attempt page.
    fn attempt(&mut self, body: &str) -> (r: Option<QuizAction>)
        requires
            old(self).stage != QuizStage::Answer,
        ensures
            match r {
                Some(a) => attempt_next(body@) == Some((final(self).stage, action_view(a))),
                None => attempt_next(body@) is None,
            },
            final(self).stage == QuizStage::Answer ==> (final(self).form matches Some(f)
                && spec_attempt_page(body@) == Some((2nat, true, Some(attempt_form_view(f))))),
    {
        match attempt_page(body) {
            None => None,
            Some(AttemptPage::NoForm { has_questions }) => {
                self.stage = QuizStage::Over;
                if has_questions {
                    Some(QuizAction::Stop { note: QuizNote::NoForm })
                } else {
                    Some(QuizAction::ShowText { note: QuizNote::Plain })
                }
            },
            Some(AttemptPage::NoQuestions) => {
                self.stage = QuizStage::Over;
                Some(QuizAction::ShowText { note: QuizNote::Plain })
            },
            Some(AttemptPage::Questions { form }) => {
                self.stage = QuizStage::Answer;
                self.form = Some(form);
                Some(QuizAction::AskAnswers)
            },
        }
    }

    /// The step from the page handed back at the current stage (see
    /// [`spec_quiz_page`]).
    pub fn on_page(&mut self, url: &str, body: &str) -> (r: Option<QuizAction>)
        ensures
            match r {
                Some(a) => spec_quiz_page(old(self).stage, url@, body@) == Some((final(self).stage, action_view(a)))
                    && (final(self).stage == QuizStage::Answer ==> (final(self).form matches Some(f)
                    && spec_attempt_page(body@) == Some((2nat, true, Some(attempt_form_view(f)))))),
                None => spec_quiz_page(old(self).stage, url@, body@) is None,
            },
    {
        match self.stage {
            QuizStage::View => {
                if is_review_url(url) {
                    match has_questions(body) {
                        None => None,
                        Some(q) => {
                            self.stage = QuizStage::Over;
                            if q {
                                Some(QuizAction::ShowQuestions { note: QuizNote::Review })
                            } else {
                                Some(QuizAction::ShowText { note: QuizNote::Review })
                            }
                        },
                    }
                } else {
                    match start_info(body) {
                        None => None,
                        Some(None) => {
                            self.stage = QuizStage::Over;
                            Some(QuizAction::ShowText { note: QuizNote::NoInfo })
                        },
                        Some(Some((cmid, key))) => {
                            self.stage = QuizStage::Start;
                            Some(QuizAction::Post {
                                url: start_attempt_url(),
                                fields: start_fields(cmid, key.as_str()),
                                note: QuizNote::Plain,
                            })
                        },
                    }
                }
            },
            QuizStage::Start => {
                if is_review_url(url) {
                    self.stage = QuizStage::Over;
                    Some(QuizAction::ShowQuestions { note: QuizNote::Completed })
                } else {
                    match preflight(body) {
                        None => None,
                        Some(Some((a, f))) => {
                            self.stage = QuizStage::Attempt;
                            Some(QuizAction::Post { url: a, fields: f, note: QuizNote::Confirm })
                        },
                        Some(None) => self.attempt(body),
                    }
                }
            },
            QuizStage::Attempt => self.attempt(body),
            QuizStage::Sent => {
                match has_questions(body) {
                    None => None,
                    Some(true) => self.attempt(body),
                    Some(false) => match finish_request(body) {
                        None => None,
                        Some(None) => {
                            self.stage = QuizStage::Over;
                            Some(QuizAction::Stop { note: QuizNote::Plain })
                        },
                        Some(Some((a, f))) => {
                            self.stage = QuizStage::Finish;
                            Some(QuizAction::Post { url: a, fields: f, note: QuizNote::Plain })
                        },
                    },
                }
            },
            QuizStage::Finish => {
                match page_title(body) {
                    None => None,
                    Some(t) => {
                        let submitted = is_review_title(t.as_str());
                        self.stage = QuizStage::Over;
                        Some(QuizAction::Report { title: t, submitted })
                    },
                }
            },
            _ => None,
        }
    }

    /// The answers to the questions shown last, given the user's reply:
    /// posted to the answer form's address, with the choices the reply
    /// picks (see [`spec_answer_params`]). `None`, with nothing changed,
    /// where no questions await answers.
    pub fn on_reply(&mut self, reply: &str) -> (r: Option<QuizAction>)
        ensures
            r is Some <==> (old(self).stage == QuizStage::Answer && old(self).form is Some),
            r is None ==> *final(self) == *old(self),
            r matches Some(a) ==> ({
                let f = attempt_form_view(old(self).form->0);
                let picks = spec_selection(reply@, f.2.len());
                &&& final(self).stage == QuizStage::Sent
                &&& final(self).form == old(self).form
                &&& action_view(a) == (
                    3nat,
                    QuizNote::Plain,
                    f.0,
                    spec_answer_params(f, picks),
                    Seq::new(picks.len(), |i: int| f.2[picks[i] as int]),
                    false,
                )
            }),
    {
        if self.stage != QuizStage::Answer {
            return None;
        }
        match &self.form {
            Some(form) => {
                let fields = answer_params(form, reply);
                let picks = selection(reply, form.choices.len());
                proof {
                    lemma_selection_in_range(reply@, form.choices@.len() as nat);
                }
                let ghost pv = picks@.map_values(|i: usize| i as nat);
                let ghost choices = form.choices@.map_values(|c: String| c@);
                let mut selected: Vec<String> = Vec::new();
                let mut j: usize = 0;
                while j < picks.len()
                    invariant
                        j <= picks@.len(),
                        pv == picks@.map_values(|i: usize| i as nat),
                        forall|i: int| 0 <= i < pv.len() ==> pv[i] < form.choices@.len(),
                        choices == form.choices@.map_values(|c: String| c@),
                        strings_view(selected@) == Seq::new(j as nat, |i: int| choices[pv[i] as int]),
                    decreases picks.len() - j,
                {
                    let idx = picks[j];
                    assert(pv[j as int] == idx as nat);
                    let ghost before = strings_view(selected@);
                    let name = form.choices[idx].clone();
                    selected.push(name);
                    proof {
                        assert(strings_view(selected@) =~= before.push(choices[pv[j as int] as int]));
                        assert(strings_view(selected@) =~= Seq::new((j + 1) as nat, |i: int| choices[pv[i] as int]));
                    }
                    j = j + 1;
                }
                let act = QuizAction::SendAnswers { url: form.action.clone(), fields, selected };
                self.stage = QuizStage::Sent;
                Some(act)
            },
            None => None,
        }
    }
}

} // verus!
