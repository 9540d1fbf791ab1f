//! The course of signing in, as a state machine: each page that comes back,
//! each answer of the user, decides the next request or the end.
use vstd::prelude::*;
use crate::assignment::params_view;
use crate::auth::{
    code_refused, credential_fields, dashboard_url, first_form_fields, first_post_url, generate_totp,
    idp_url, login_form, try_saml_step, second_factor_fields, second_factors, signed_in, spec_credential_fields,
    spec_dashboard_url, spec_first_form_fields, spec_first_post_url, spec_generate_totp, spec_idp_url,
    spec_login_form, spec_saml_step, spec_second_factor_fields, spec_second_factors, spec_signed_in,
    SamlStep, TotpError,
};
use crate::quiz::{page_title, spec_page_title};

verus! {

/// Where signing in stands: what it waits for.
#[derive(PartialEq, Eq, Structural, Clone, Copy, Debug)]
pub enum LoginStage {
    /// The sign-in page.
    LoginPage,
    /// The reply to the first form: the identity provider's page.
    FirstForm,
    /// The reply to the credentials.
    Credentials,
    /// The code sent by mail, typed by the user.
    MailCode,
    /// The authenticator secret, where one is configured.
    TotpSecret,
    /// The authenticator code, typed by the user.
    TotpCode,
    /// The reply to the second factor.
    SecondFactor,
    /// The reply to the sign-in assertion.
    Saml,
    /// The dashboard.
    Dashboard,
    /// Nothing.
    Over,
}

/// A request of the sign-in.
#[derive(PartialEq, Eq, Structural, Clone, Copy, Debug)]
pub enum LoginRequest {
    LoginPage,
    FirstForm,
    Credentials,
    SecondFactor,
    /// The post of the sign-in assertion, after a second factor or not.
    Saml { after_factor: bool },
    Dashboard,
}

/// Why signing in failed.
#[derive(PartialEq, Eq, Structural, Clone, Copy, Debug)]
pub enum LoginFailure {
    EmptyLoginPage,
    NoLoginPageForm,
    EmptyIdpPage,
    NoIdpForm,
    NoFactorForm,
    CodeRejected,
    /// No form carries the sign-in assertion.
    NoSamlForm { after_factor: bool },
    /// The form lacks the relay state or the assertion.
    SamlIncomplete { after_factor: bool },
    /// No authenticator code can be made from the secret.
    Totp(TotpError),
    /// The dashboard request did not end on a signed-in Moodle page.
    StillOnLogin,
}

/// The next thing the client does.
pub enum LoginAction {
    /// Fetch this address; hand the page back to [`LoginFlow::on_page`].
    Get { url: String, request: LoginRequest },
    /// Post these fields; hand the page back to [`LoginFlow::on_page`].
    Post { url: String, fields: Vec<(String, String)>, request: LoginRequest },
    /// Ask for the mail code; hand it to [`LoginFlow::on_code`].
    AskMailCode,
    /// Read the configured authenticator secret and the clock; hand them to
    /// [`LoginFlow::on_totp_secret`].
    ReadTotpSecret,
    /// Ask for the authenticator code; hand it to [`LoginFlow::on_code`].
    AskTotpCode,
    /// Signing in failed.
    Fail(LoginFailure),
    /// Signed in.
    Done,
}

/// The state of signing in: the stage, the credentials, the page that
/// asked for a second factor, and whether the mail code is used.
pub struct LoginFlow {
    pub stage: LoginStage,
    pub username: String,
    pub password: String,
    pub factor_page: String,
    pub use_mail: bool,
}

pub open spec fn login_view(f: LoginFlow) -> (LoginStage, Seq<char>, Seq<char>, Seq<char>, bool) {
    (f.stage, f.username@, f.password@, f.factor_page@, f.use_mail)
}

/// An action as plain values: its kind (in the order of the variants), its
/// address, its fields, its request and its failure.
pub open spec fn login_action_view(a: LoginAction) -> (nat, Seq<char>, Seq<(Seq<char>, Seq<char>)>, Option<LoginRequest>, Option<LoginFailure>) {
    match a {
        LoginAction::Get { url, request } => (0, url@, seq![], Some(request), None),
        LoginAction::Post { url, fields, request } => (1, url@, params_view(fields@), Some(request), None),
        LoginAction::AskMailCode => (2, seq![], seq![], None, None),
        LoginAction::ReadTotpSecret => (3, seq![], seq![], None, None),
        LoginAction::AskTotpCode => (4, seq![], seq![], None, None),
        LoginAction::Fail(e) => (5, seq![], seq![], None, Some(e)),
        LoginAction::Done => (6, seq![], seq![], None, None),
    }
}

pub open spec fn get_view(url: Seq<char>, request: LoginRequest) -> (nat, Seq<char>, Seq<(Seq<char>, Seq<char>)>, Option<LoginRequest>, Option<LoginFailure>) {
    (0, url, seq![], Some(request), None)
}

pub open spec fn post_view(url: Seq<char>, fields: Seq<(Seq<char>, Seq<char>)>, request: LoginRequest) -> (nat, Seq<char>, Seq<(Seq<char>, Seq<char>)>, Option<LoginRequest>, Option<LoginFailure>) {
    (1, url, fields, Some(request), None)
}

pub open spec fn ask_view(kind: nat) -> (nat, Seq<char>, Seq<(Seq<char>, Seq<char>)>, Option<LoginRequest>, Option<LoginFailure>) {
    (kind, seq![], seq![], None, None)
}

pub open spec fn fail_view(e: LoginFailure) -> (nat, Seq<char>, Seq<(Seq<char>, Seq<char>)>, Option<LoginRequest>, Option<LoginFailure>) {
    (5, seq![], seq![], None, Some(e))
}

/// The fields that carry the sign-in assertion.
pub open spec fn spec_saml_fields(relay: Seq<char>, response: Seq<char>) -> Seq<(Seq<char>, Seq<char>)> {
    seq![("RelayState"@, relay), ("SAMLResponse"@, response)]
}

/// The step from a page that should carry the sign-in assertion: its post,
/// or the failure where the page has no such form or an incomplete one.
pub open spec fn saml_next(
    v: (LoginStage, Seq<char>, Seq<char>, Seq<char>, bool),
    body: Seq<char>,
    after_factor: bool,
) -> Option<((LoginStage, Seq<char>, Seq<char>, Seq<char>, bool), (nat, Seq<char>, Seq<(Seq<char>, Seq<char>)>, Option<LoginRequest>, Option<LoginFailure>))> {
    match spec_saml_step(body) {
        None => None,
        Some(s) => if s.0 == 0 {
            Some(((LoginStage::Over, v.1, v.2, v.3, v.4), fail_view(LoginFailure::NoSamlForm { after_factor })))
        } else if s.0 == 1 {
            Some(((LoginStage::Over, v.1, v.2, v.3, v.4), fail_view(LoginFailure::SamlIncomplete { after_factor })))
        } else {
            Some((
                (LoginStage::Saml, v.1, v.2, v.3, v.4),
                post_view(s.1, spec_saml_fields(s.2, s.3), LoginRequest::Saml { after_factor }),
            ))
        },
    }
}

/// The step once the second-factor code is known: it is posted through the
/// form of the page that asked for it.
pub open spec fn send_code(
    v: (LoginStage, Seq<char>, Seq<char>, Seq<char>, bool),
    code: Seq<char>,
) -> Option<((LoginStage, Seq<char>, Seq<char>, Seq<char>, bool), (nat, Seq<char>, Seq<(Seq<char>, Seq<char>)>, Option<LoginRequest>, Option<LoginFailure>))> {
    match spec_login_form(v.3) {
        None => None,
        Some(None) => Some(((LoginStage::Over, v.1, v.2, v.3, v.4), fail_view(LoginFailure::NoFactorForm))),
        Some(Some(f)) => Some((
            (LoginStage::SecondFactor, v.1, v.2, v.3, v.4),
            post_view(spec_idp_url(f.0), spec_second_factor_fields(f.1, v.4, code), LoginRequest::SecondFactor),
        )),
    }
}

/// The step once it is known whether the mail code is used.
pub open spec fn factor_chosen(
    v: (LoginStage, Seq<char>, Seq<char>, Seq<char>, bool),
    mail: bool,
) -> ((LoginStage, Seq<char>, Seq<char>, Seq<char>, bool), (nat, Seq<char>, Seq<(Seq<char>, Seq<char>)>, Option<LoginRequest>, Option<LoginFailure>)) {
    if mail {
        ((LoginStage::MailCode, v.1, v.2, v.3, true), ask_view(2))
    } else {
        ((LoginStage::TotpSecret, v.1, v.2, v.3, false), ask_view(3))
    }
}

/// What the page handed back (reached at address `url`) leads to, from the
/// state `v`. `None` where a selector is refused, where the address of the
/// sign-in page has no origin, and at a stage that awaits no page.
/// - The sign-in page: its first form is posted to the page's origin.
/// - The identity provider's page: its form carries the credentials.
/// - The reply to the credentials: where it asks for a second factor, the
///   authenticator code is used where it is offered (it takes precedence
///   over the mail code), else the mail code; without a second factor the
///   reply carries the assertion.
/// - The reply to the second factor: refused where it still asks for a
///   code; else it carries the assertion.
/// - The reply to the assertion: the dashboard is fetched.
/// - The dashboard: signed in where it is a Moodle page whose title names
///   no sign-in page.
pub open spec fn spec_login_page(
    v: (LoginStage, Seq<char>, Seq<char>, Seq<char>, bool),
    url: Seq<char>,
    body: Seq<char>,
) -> Option<((LoginStage, Seq<char>, Seq<char>, Seq<char>, bool), (nat, Seq<char>, Seq<(Seq<char>, Seq<char>)>, Option<LoginRequest>, Option<LoginFailure>))> {
    let over = (LoginStage::Over, v.1, v.2, v.3, v.4);
    match v.0 {
        LoginStage::LoginPage => if body.len() == 0 {
            Some((over, fail_view(LoginFailure::EmptyLoginPage)))
        } else {
            match spec_login_form(body) {
                None => None,
                Some(None) => Some((over, fail_view(LoginFailure::NoLoginPageForm))),
                Some(Some(f)) => match spec_first_post_url(url, f.0) {
                    None => None,
                    Some(u) => Some((
                        (LoginStage::FirstForm, v.1, v.2, v.3, v.4),
                        post_view(u, spec_first_form_fields(f.1), LoginRequest::FirstForm),
                    )),
                },
            }
        },
        LoginStage::FirstForm => if body.len() == 0 {
            Some((over, fail_view(LoginFailure::EmptyIdpPage)))
        } else {
            match spec_login_form(body) {
                None => None,
                Some(None) => Some((over, fail_view(LoginFailure::NoIdpForm))),
                Some(Some(f)) => Some((
                    (LoginStage::Credentials, v.1, v.2, v.3, v.4),
                    post_view(spec_idp_url(f.0), spec_credential_fields(v.1, v.2, f.1), LoginRequest::Credentials),
                )),
            }
        },
        LoginStage::Credentials => match spec_second_factors(body) {
            None => None,
            Some((totp, mail)) => if totp || mail {
                Some(factor_chosen((v.0, v.1, v.2, body, v.4), !totp))
            } else {
                saml_next(v, body, false)
            },
        },
        LoginStage::SecondFactor => match spec_second_factors(body) {
            None => None,
            Some((totp, mail)) => if totp || mail {
                Some((over, fail_view(LoginFailure::CodeRejected)))
            } else {
                saml_next(v, body, true)
            },
        },
        LoginStage::Saml => Some((
            (LoginStage::Dashboard, v.1, v.2, v.3, v.4),
            get_view(spec_dashboard_url(), LoginRequest::Dashboard),
        )),
        LoginStage::Dashboard => match spec_page_title(body) {
            None => None,
            Some(t) => if spec_signed_in(url, t) {
                Some((over, ask_view(6)))
            } else {
                Some((over, fail_view(LoginFailure::StillOnLogin)))
            },
        },
        _ => None,
    }
}

/// Every step keeps the user name and password, and ends signing in (the
/// stage `Over`) exactly when it reports success or a failure.
pub proof fn lemma_login_steps(
    v: (LoginStage, Seq<char>, Seq<char>, Seq<char>, bool),
    url: Seq<char>,
    body: Seq<char>,
    code: Seq<char>,
    mail: bool,
)
    ensures
        spec_login_page(v, url, body) matches Some((w, a)) ==> w.1 == v.1 && w.2 == v.2 && (w.0
            == LoginStage::Over <==> (a.0 == 5 || a.0 == 6)),
        send_code(v, code) matches Some((w, a)) ==> w.1 == v.1 && w.2 == v.2 && (w.0 == LoginStage::Over
            <==> (a.0 == 5 || a.0 == 6)),
        factor_chosen(v, mail).0.1 == v.1 && factor_chosen(v, mail).0.2 == v.2,
{
}

/// The authenticator code takes precedence: where the reply to the
/// credentials offers it, it is used, whether or not the mail code is
/// offered too; the mail code is used only where it alone is offered.
pub proof fn lemma_totp_preferred(v: (LoginStage, Seq<char>, Seq<char>, Seq<char>, bool), url: Seq<char>, body: Seq<char>)
    requires
        v.0 == LoginStage::Credentials,
    ensures
        spec_second_factors(body) matches Some((totp, mail)) ==> (totp ==> spec_login_page(v, url, body)
            == Some(((LoginStage::TotpSecret, v.1, v.2, body, false), ask_view(3)))),
        spec_second_factors(body) matches Some((totp, mail)) ==> (!totp && mail ==> spec_login_page(v, url, body)
            == Some(((LoginStage::MailCode, v.1, v.2, body, true), ask_view(2)))),
{
}

/// The order of the stages: each step moves to a later one.
pub open spec fn login_rank(s: LoginStage) -> nat {
    match s {
        LoginStage::LoginPage => 0,
        LoginStage::FirstForm => 1,
        LoginStage::Credentials => 2,
        LoginStage::MailCode => 3,
        LoginStage::TotpSecret => 3,
        LoginStage::TotpCode => 4,
        LoginStage::SecondFactor => 5,
        LoginStage::Saml => 6,
        LoginStage::Dashboard => 7,
        LoginStage::Over => 8,
    }
}

/// Signing in only moves forward, and succeeds exactly at the dashboard
/// check: every step leads to a later stage; success is reported only by
/// the dashboard, and exactly where it is a Moodle page whose title names no
/// sign-in page; the second factor never reports success.
pub proof fn lemma_login_succeeds_at_dashboard(
    v: (LoginStage, Seq<char>, Seq<char>, Seq<char>, bool),
    url: Seq<char>,
    body: Seq<char>,
    code: Seq<char>,
)
    ensures
        spec_login_page(v, url, body) matches Some((w, a)) ==> login_rank(w.0) > login_rank(v.0),
        spec_login_page(v, url, body) matches Some((w, a)) ==> (a.0 == 6 <==> (v.0 == LoginStage::Dashboard && (
        spec_page_title(body) matches Some(t) && spec_signed_in(url, t)))),
        send_code(v, code) matches Some((w, a)) ==> a.0 != 6 && (w.0 == LoginStage::SecondFactor || w.0
            == LoginStage::Over),
{
}

/// Whether two outcomes of a step take the same action.
pub open spec fn same_action(
    x: Option<((LoginStage, Seq<char>, Seq<char>, Seq<char>, bool), (nat, Seq<char>, Seq<(Seq<char>, Seq<char>)>, Option<LoginRequest>, Option<LoginFailure>))>,
    y: Option<((LoginStage, Seq<char>, Seq<char>, Seq<char>, bool), (nat, Seq<char>, Seq<(Seq<char>, Seq<char>)>, Option<LoginRequest>, Option<LoginFailure>))>,
) -> bool {
    match (x, y) {
        (Some(a), Some(b)) => a.1 == b.1 && a.0.0 == b.0.0,
        (None, None) => true,
        _ => false,
    }
}

/// The password goes into one request only, the post of the credentials:
/// every other step takes the same action whatever the password is.
pub proof fn lemma_password_sent_once(
    v: (LoginStage, Seq<char>, Seq<char>, Seq<char>, bool),
    password: Seq<char>,
    url: Seq<char>,
    body: Seq<char>,
    code: Seq<char>,
)
    ensures
        v.0 != LoginStage::FirstForm ==> same_action(
            spec_login_page(v, url, body),
            spec_login_page((v.0, v.1, password, v.3, v.4), url, body),
        ),
        same_action(send_code(v, code), send_code((v.0, v.1, password, v.3, v.4), code)),
{
}

impl LoginFlow {
    fn with_stage(&mut self, stage: LoginStage)
        ensures
            login_view(*final(self)) == (stage, old(self).username@, old(self).password@, old(self).factor_page@, old(self).use_mail),
    {
        self.stage = stage;
    }

    /// The start of signing in: fetch the sign-in page.
    pub fn begin(username: &str, password: &str) -> (r: (LoginFlow, LoginAction))
        ensures
            login_view(r.0) == (LoginStage::LoginPage, username@, password@, Seq::<char>::empty(), false),
            login_action_view(r.1) == get_view(crate::types::LOGIN_URL@, LoginRequest::LoginPage),
    {
        let flow = LoginFlow {
            stage: LoginStage::LoginPage,
            username: username.to_owned(),
            password: password.to_owned(),
            factor_page: String::new(),
            use_mail: false,
        };
        (flow, LoginAction::Get { url: crate::types::LOGIN_URL.to_owned(), request: LoginRequest::LoginPage })
    }

    /// The step from a page that should carry the sign-in assertion.
    fn saml(&mut self, body: &str, after_factor: bool) -> (r: Option<LoginAction>)
        ensures
            match r {
                Some(a) => saml_next(login_view(*old(self)), body@, after_factor) == Some(
                    (login_view(*final(self)), login_action_view(a)),
                ),
                None => saml_next(login_view(*old(self)), body@, after_factor) is None,
            },
    {
        match try_saml_step(body) {
            None => None,
            Some(SamlStep::NoForm) => {
                self.with_stage(LoginStage::Over);
                Some(LoginAction::Fail(LoginFailure::NoSamlForm { after_factor }))
            },
            Some(SamlStep::Incomplete) => {
                self.with_stage(LoginStage::Over);
                Some(LoginAction::Fail(LoginFailure::SamlIncomplete { after_factor }))
            },
            Some(SamlStep::Post { url, relay_state, response }) => {
                let mut fields: Vec<(String, String)> = Vec::new();
                fields.push(("RelayState".to_owned(), relay_state));
                fields.push(("SAMLResponse".to_owned(), response));
                proof {
                    assert(params_view(fields@) =~= spec_saml_fields(fields@[0].1@, fields@[1].1@));
                }
                self.with_stage(LoginStage::Saml);
                Some(LoginAction::Post { url, fields, request: LoginRequest::Saml { after_factor } })
            },
        }
    }

    /// The step once the code is known.
    fn send(&mut self, code: &str) -> (r: Option<LoginAction>)
        ensures
            match r {
                Some(a) => send_code(login_view(*old(self)), code@) == Some((login_view(*final(self)), login_action_view(a))),
                None => send_code(login_view(*old(self)), code@) is None,
            },
    {
        match login_form(self.factor_page.as_str()) {
            None => None,
            Some(None) => {
                self.with_stage(LoginStage::Over);
                Some(LoginAction::Fail(LoginFailure::NoFactorForm))
            },
            Some(Some(f)) => {
                let url = idp_url(f.action.as_str());
                let fields = second_factor_fields(f.csrf.as_str(), self.use_mail, code);
                self.with_stage(LoginStage::SecondFactor);
                Some(LoginAction::Post { url, fields, request: LoginRequest::SecondFactor })
            },
        }
    }

    /// The step once it is known whether the mail code is used.
    fn pick_factor(&mut self, mail: bool) -> (r: LoginAction)
        ensures
            factor_chosen(login_view(*old(self)), mail) == (login_view(*final(self)), login_action_view(r)),
    {
        self.use_mail = mail;
        if mail {
            self.stage = LoginStage::MailCode;
            LoginAction::AskMailCode
        } else {
            self.stage = LoginStage::TotpSecret;
            LoginAction::ReadTotpSecret
        }
    }

    /// The step from the page handed back at the current stage (see
    /// [`spec_login_page`]).
    pub fn on_page(&mut self, url: &str, body: &str) -> (r: Option<LoginAction>)
        ensures
            match r {
                Some(a) => spec_login_page(login_view(*old(self)), url@, body@) == Some(
                    (login_view(*final(self)), login_action_view(a)),
                ),
                None => spec_login_page(login_view(*old(self)), url@, body@) is None,
            },
    {
        match self.stage {
            LoginStage::LoginPage => {
                if body.is_empty() {
                    self.with_stage(LoginStage::Over);
                    return Some(LoginAction::Fail(LoginFailure::EmptyLoginPage));
                }
                match login_form(body) {
                    None => None,
                    Some(None) => {
                        self.with_stage(LoginStage::Over);
                        Some(LoginAction::Fail(LoginFailure::NoLoginPageForm))
                    },
                    Some(Some(f)) => match first_post_url(url, f.action.as_str()) {
                        None => None,
                        Some(u) => {
                            let fields = first_form_fields(f.csrf.as_str());
                            self.with_stage(LoginStage::FirstForm);
                            Some(LoginAction::Post { url: u, fields, request: LoginRequest::FirstForm })
                        },
                    },
                }
            },
            LoginStage::FirstForm => {
                if body.is_empty() {
                    self.with_stage(LoginStage::Over);
                    return Some(LoginAction::Fail(LoginFailure::EmptyIdpPage));
                }
                match login_form(body) {
                    None => None,
                    Some(None) => {
                        self.with_stage(LoginStage::Over);
                        Some(LoginAction::Fail(LoginFailure::NoIdpForm))
                    },
                    Some(Some(f)) => {
                        let u = idp_url(f.action.as_str());
                        let fields = credential_fields(self.username.as_str(), self.password.as_str(), f.csrf.as_str());
                        self.with_stage(LoginStage::Credentials);
                        Some(LoginAction::Post { url: u, fields, request: LoginRequest::Credentials })
                    },
                }
            },
            LoginStage::Credentials => {
                match second_factors(body) {
                    None => None,
                    Some((totp, mail)) => {
                        if totp || mail {
                            self.factor_page = body.to_owned();
                            Some(self.pick_factor(!totp))
                        } else {
                            self.saml(body, false)
                        }
                    },
                }
            },
            LoginStage::SecondFactor => {
                match code_refused(body) {
                    None => None,
                    Some(true) => {
                        self.with_stage(LoginStage::Over);
                        Some(LoginAction::Fail(LoginFailure::CodeRejected))
                    },
                    Some(false) => self.saml(body, true),
                }
            },
            LoginStage::Saml => {
                self.with_stage(LoginStage::Dashboard);
                Some(LoginAction::Get { url: dashboard_url(), request: LoginRequest::Dashboard })
            },
            LoginStage::Dashboard => {
                match page_title(body) {
                    None => None,
                    Some(t) => {
                        self.with_stage(LoginStage::Over);
                        if signed_in(url, t.as_str()) {
                            Some(LoginAction::Done)
                        } else {
                            Some(LoginAction::Fail(LoginFailure::StillOnLogin))
                        }
                    },
                }
            },
            _ => None,
        }
    }

    /// The configured authenticator secret, if any, and the Unix time: the
    /// code made from the secret is sent (or the failure to make one
    /// reported); without a secret the user is asked for the code. `None`,
    /// with nothing changed, where no secret is awaited, or where the page
    /// that asked for the code cannot be read.
    pub fn on_totp_secret(&mut self, secret: Option<&str>, now: u64) -> (r: Option<LoginAction>)
        ensures
            old(self).stage != LoginStage::TotpSecret ==> r is None && *final(self) == *old(self),
            old(self).stage == LoginStage::TotpSecret ==> match secret {
                None => r matches Some(a) && login_action_view(a) == ask_view(4) && login_view(*final(self)) == (
                    LoginStage::TotpCode,
                    old(self).username@,
                    old(self).password@,
                    old(self).factor_page@,
                    old(self).use_mail,
                ),
                Some(s) => match spec_generate_totp(s@, now) {
                    Err(e) => r matches Some(a) && login_action_view(a) == fail_view(LoginFailure::Totp(e))
                        && login_view(*final(self)) == (
                        LoginStage::Over,
                        old(self).username@,
                        old(self).password@,
                        old(self).factor_page@,
                        old(self).use_mail,
                    ),
                    Ok(code) => match r {
                        Some(a) => send_code(login_view(*old(self)), code) == Some(
                            (login_view(*final(self)), login_action_view(a)),
                        ),
                        None => send_code(login_view(*old(self)), code) is None,
                    },
                },
            },
    {
        if self.stage != LoginStage::TotpSecret {
            return None;
        }
        match secret {
            None => {
                self.with_stage(LoginStage::TotpCode);
                Some(LoginAction::AskTotpCode)
            },
            Some(s) => match generate_totp(s, now) {
                Err(e) => {
                    self.with_stage(LoginStage::Over);
                    Some(LoginAction::Fail(LoginFailure::Totp(e)))
                },
                Ok(code) => self.send(code.as_str()),
            },
        }
    }

    /// The code the user typed: it is sent. `None`, with nothing changed,
    /// where no typed code is awaited; `None` too where the page that asked
    /// for the code cannot be read.
    pub fn on_code(&mut self, code: &str) -> (r: Option<LoginAction>)
        ensures
            !(old(self).stage == LoginStage::MailCode || old(self).stage == LoginStage::TotpCode) ==> r is None
                && *final(self) == *old(self),
            (old(self).stage == LoginStage::MailCode || old(self).stage == LoginStage::TotpCode) ==> match r {
                Some(a) => send_code(login_view(*old(self)), code@) == Some((login_view(*final(self)), login_action_view(a))),
                None => send_code(login_view(*old(self)), code@) is None,
            },
    {
        if !(self.stage == LoginStage::MailCode || self.stage == LoginStage::TotpCode) {
            return None;
        }
        self.send(code)
    }
}

} // verus!
