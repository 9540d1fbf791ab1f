//! Signing in through the university's single sign-on: what each page of
//! the sign-in is read for, and what is sent back.
use vstd::prelude::*;
use crate::api::{attr_or_empty, attr_or_empty_exec};
use crate::assignment::params_view;
use crate::dom::{groups_view, names_view, nodes_view, select, select_nested, spec_select, spec_select_nested, NodeView};
use crate::pattern::opt_str_view;
use crate::quiz::{attr_opt, attr_opt_exec};
use crate::text::{append_chars, chars_of, contains, is_digit, replace, starts_with, starts_with_exec, str_contains, str_replace, string_of};

verus! {

/// The form of a sign-in page: where it posts, and its CSRF token (empty
/// where it has none).
pub struct LoginForm {
    pub action: String,
    pub csrf: String,
}

pub open spec fn login_form_view(f: LoginForm) -> (Seq<char>, Seq<char>) {
    (f.action@, f.csrf@)
}

/// The first form of a sign-in page: its action (empty where absent) and the
/// value of its first `csrf_token` input (empty where absent); `Some(None)`
/// where the page has no form; `None` where a selector is refused.
pub open spec fn spec_login_form(body: Seq<char>) -> Option<Option<(Seq<char>, Seq<char>)>> {
    match spec_select_nested(body, "form"@, "input[name=csrf_token]"@, seq!["action"@, "value"@]) {
        None => None,
        Some(forms) => if forms.len() == 0 {
            Some(None)
        } else {
            Some(Some((
                attr_or_empty(forms[0].0, 0),
                if forms[0].1.len() > 0 { attr_or_empty(forms[0].1[0], 1) } else { seq![] },
            )))
        },
    }
}

/// See [`spec_login_form`].
pub fn login_form(body: &str) -> (r: Option<Option<LoginForm>>)
    ensures
        match r {
            Some(Some(f)) => spec_login_form(body@) == Some(Some(login_form_view(f))),
            Some(None) => spec_login_form(body@) == Some(None::<(Seq<char>, Seq<char>)>),
            None => spec_login_form(body@) is None,
        },
{
    let mut names: Vec<&'static str> = Vec::new();
    names.push("action");
    names.push("value");
    assert(names_view(names@) =~= seq!["action"@, "value"@]);
    match select_nested(body, "form", "input[name=csrf_token]", names.as_slice()) {
        None => None,
        Some(forms) => {
            if forms.len() == 0 {
                return Some(None);
            }
            let action = attr_or_empty_exec(&forms[0].0, 0);
            let csrf = if forms[0].1.len() > 0 {
                attr_or_empty_exec(&forms[0].1[0], 1)
            } else {
                String::new()
            };
            assert(groups_view(forms@)[0].1 == nodes_view(forms@[0].1@));
            Some(Some(LoginForm { action, csrf }))
        },
    }
}

/// The address the identity provider's forms post to: its host followed by
/// the form's action.
pub open spec fn spec_idp_url(action: Seq<char>) -> Seq<char> {
    "https://shibboleth.cc.uec.ac.jp"@ + action
}

/// See [`spec_idp_url`].
pub fn idp_url(action: &str) -> (r: String)
    ensures
        r@ == spec_idp_url(action@),
{
    let mut v = chars_of("https://shibboleth.cc.uec.ac.jp");
    let a = chars_of(action);
    append_chars(&mut v, a.as_slice());
    string_of(v.as_slice())
}

/// The origin of an address (scheme, host and port), as the `url` crate
/// serializes it.
pub uninterp spec fn spec_url_origin(url: Seq<char>) -> Option<Seq<char>>;

/// Parses `url` with `url::Url::parse` and gives
/// `origin().ascii_serialization()`. The contract names the result; `None`
/// stands for an address the crate refuses.
#[verifier::external_body]
pub(crate) fn url_origin(url: &str) -> (r: Option<String>)
    ensures
        opt_str_view(r) == spec_url_origin(url@),
{
    url::Url::parse(url).ok().map(|u| u.origin().ascii_serialization())
}

/// The address the first sign-in form posts to: the origin of the page it
/// came from followed by its action.
pub open spec fn spec_first_post_url(page_url: Seq<char>, action: Seq<char>) -> Option<Seq<char>> {
    match spec_url_origin(page_url) {
        Some(o) => Some(o + action),
        None => None,
    }
}

/// See [`spec_first_post_url`].
pub fn first_post_url(page_url: &str, action: &str) -> (r: Option<String>)
    ensures
        opt_str_view(r) == spec_first_post_url(page_url@, action@),
{
    match url_origin(page_url) {
        Some(o) => {
            let mut v = chars_of(o.as_str());
            let a = chars_of(action);
            append_chars(&mut v, a.as_slice());
            Some(string_of(v.as_slice()))
        },
        None => None,
    }
}

/// The fields of the first sign-in form.
pub open spec fn spec_first_form_fields(csrf: Seq<char>) -> Seq<(Seq<char>, Seq<char>)> {
    seq![("csrf_token"@, csrf), ("shib_idp_ls_supported"@, "false"@), ("_eventId_proceed"@, ""@)]
}

fn pair(a: &str, b: &str) -> (r: (String, String))
    ensures
        r.0@ == a@,
        r.1@ == b@,
{
    (a.to_owned(), b.to_owned())
}

/// See [`spec_first_form_fields`].
pub fn first_form_fields(csrf: &str) -> (r: Vec<(String, String)>)
    ensures
        params_view(r@) == spec_first_form_fields(csrf@),
{
    let mut v: Vec<(String, String)> = Vec::new();
    v.push(pair("csrf_token", csrf));
    v.push(pair("shib_idp_ls_supported", "false"));
    v.push(pair("_eventId_proceed", ""));
    assert(params_view(v@) =~= spec_first_form_fields(csrf@));
    v
}

/// The fields that carry the credentials.
pub open spec fn spec_credential_fields(user: Seq<char>, password: Seq<char>, csrf: Seq<char>) -> Seq<(Seq<char>, Seq<char>)> {
    seq![
        ("j_username"@, user),
        ("j_password"@, password),
        ("csrf_token"@, csrf),
        ("_eventId_proceed"@, ""@),
        ("donotcache"@, "1"@),
    ]
}

/// See [`spec_credential_fields`].
pub fn credential_fields(user: &str, password: &str, csrf: &str) -> (r: Vec<(String, String)>)
    ensures
        params_view(r@) == spec_credential_fields(user@, password@, csrf@),
{
    let mut v: Vec<(String, String)> = Vec::new();
    v.push(pair("j_username", user));
    v.push(pair("j_password", password));
    v.push(pair("csrf_token", csrf));
    v.push(pair("_eventId_proceed", ""));
    v.push(pair("donotcache", "1"));
    assert(params_view(v@) =~= spec_credential_fields(user@, password@, csrf@));
    v
}

/// Which second factors the page after the credentials asks for: a one-time
/// code from an authenticator (`authcode` input) and a code sent by mail
/// (`mailotp` input). `None` where a selector is refused.
pub open spec fn spec_second_factors(body: Seq<char>) -> Option<(bool, bool)> {
    match (spec_select(body, "input[name=authcode]"@, seq![]), spec_select(body, "input[name=mailotp]"@, seq![])) {
        (Some(a), Some(m)) => Some((a.len() > 0, m.len() > 0)),
        _ => None,
    }
}

/// See [`spec_second_factors`].
pub fn second_factors(body: &str) -> (r: Option<(bool, bool)>)
    ensures
        r == spec_second_factors(body@),
{
    let names: Vec<&'static str> = Vec::new();
    assert(names_view(names@) =~= Seq::<Seq<char>>::empty());
    let a = select(body, "input[name=authcode]", names.as_slice());
    let m = select(body, "input[name=mailotp]", names.as_slice());
    match (a, m) {
        (Some(a), Some(m)) => Some((a.len() > 0, m.len() > 0)),
        _ => None,
    }
}

/// The fields that carry the second factor.
pub open spec fn spec_second_factor_fields(csrf: Seq<char>, mail: bool, code: Seq<char>) -> Seq<(Seq<char>, Seq<char>)> {
    seq![
        ("csrf_token"@, csrf),
        ("mfa_type"@, if mail { "mailotp"@ } else { "totp"@ }),
        (if mail { "mailotp"@ } else { "authcode"@ }, code),
        ("login"@, "\u{30ed}\u{30b0}\u{30a4}\u{30f3}"@),
    ]
}

/// See [`spec_second_factor_fields`].
pub fn second_factor_fields(csrf: &str, mail: bool, code: &str) -> (r: Vec<(String, String)>)
    ensures
        params_view(r@) == spec_second_factor_fields(csrf@, mail, code@),
{
    let mut v: Vec<(String, String)> = Vec::new();
    v.push(pair("csrf_token", csrf));
    if mail {
        v.push(pair("mfa_type", "mailotp"));
        v.push(pair("mailotp", code));
    } else {
        v.push(pair("mfa_type", "totp"));
        v.push(pair("authcode", code));
    }
    v.push(pair("login", "\u{30ed}\u{30b0}\u{30a4}\u{30f3}"));
    assert(params_view(v@) =~= spec_second_factor_fields(csrf@, mail, code@));
    v
}

/// The bytes a base32 secret (RFC 4648 alphabet, no padding) stands for, as
/// `totp_rs::Secret::Encoded(..).to_bytes()` decodes it.
pub uninterp spec fn spec_secret_bytes(secret: Seq<char>) -> Option<Seq<u8>>;

/// Decodes a base32 secret with `totp_rs::Secret::Encoded(..).to_bytes()`.
/// The contract names the result; `None` stands for text that is not base32.
#[verifier::external_body]
fn secret_bytes(secret: &str) -> (r: Option<Vec<u8>>)
    ensures
        match r {
            Some(b) => spec_secret_bytes(secret@) == Some(b@),
            None => spec_secret_bytes(secret@) is None,
        },
{
    totp_rs::Secret::Encoded(secret.to_string()).to_bytes().ok()
}

/// The six-digit code of RFC 6238 (SHA-1, 30-second steps) for `secret` at
/// the Unix time `now`.
pub uninterp spec fn spec_totp_code(secret: Seq<u8>, now: u64) -> Seq<char>;

/// Builds `totp_rs::TOTP::new(SHA1, 6, 1, 30, secret, None, "uec")` and calls
/// `generate(now)`. The crate refuses a secret under 16 bytes, and formats the
/// code as six decimal digits; the contract claims those two facts and names
/// the code.
#[verifier::external_body]
fn totp_code(secret: Vec<u8>, now: u64) -> (r: Option<String>)
    ensures
        r is Some <==> secret@.len() >= 16,
        r matches Some(c) ==> c@ == spec_totp_code(secret@, now) && c@.len() == 6 && forall|i: int|
            0 <= i < 6 ==> is_digit(#[trigger] c@[i]),
{
    let totp = totp_rs::TOTP::new(totp_rs::Algorithm::SHA1, 6, 1, 30, secret, None, "uec".to_string());
    totp.ok().map(|t| t.generate(now))
}

/// Why no one-time code could be made.
#[derive(PartialEq, Eq, Structural, Clone, Copy, Debug)]
pub enum TotpError {
    /// The secret is not base32.
    BadSecret,
    /// The secret is shorter than 128 bits.
    ShortSecret,
}

/// The one-time code for the base32 `secret` at Unix time `now`.
pub open spec fn spec_generate_totp(secret: Seq<char>, now: u64) -> Result<Seq<char>, TotpError> {
    match spec_secret_bytes(secret) {
        None => Err(TotpError::BadSecret),
        Some(b) => if b.len() >= 16 { Ok(spec_totp_code(b, now)) } else { Err(TotpError::ShortSecret) },
    }
}

/// The one-time code for the base32 `secret` at Unix time `now`: six ASCII
/// digits.
pub fn generate_totp(secret: &str, now: u64) -> (r: Result<String, TotpError>)
    ensures
        match r {
            Ok(c) => spec_generate_totp(secret@, now) == Ok::<Seq<char>, TotpError>(c@) && c@.len() == 6
                && forall|i: int| 0 <= i < 6 ==> is_digit(#[trigger] c@[i]),
            Err(e) => spec_generate_totp(secret@, now) == Err::<Seq<char>, TotpError>(e),
        },
{
    let bytes = match secret_bytes(secret) {
        Some(b) => b,
        None => return Err(TotpError::BadSecret),
    };
    match totp_code(bytes, now) {
        Some(c) => Ok(c),
        None => Err(TotpError::ShortSecret),
    }
}

/// Whether the page after the code still asks for a code (it was refused);
/// `None` where a selector is refused.
pub fn code_refused(body: &str) -> (r: Option<bool>)
    ensures
        r == match spec_second_factors(body@) {
            Some(f) => Some(f.0 || f.1),
            None => None::<bool>,
        },
{
    match second_factors(body) {
        Some((a, m)) => Some(a || m),
        None => None,
    }
}

/// What the page that carries the sign-in assertion allows.
pub enum SamlStep {
    /// The page has no form.
    NoForm,
    /// The form lacks the relay state or the response.
    Incomplete,
    /// Post the relay state and the response to this address.
    Post { url: String, relay_state: String, response: String },
}

pub open spec fn saml_step_view(s: SamlStep) -> (nat, Seq<char>, Seq<char>, Seq<char>) {
    match s {
        SamlStep::NoForm => (0, seq![], seq![], seq![]),
        SamlStep::Incomplete => (1, seq![], seq![], seq![]),
        SamlStep::Post { url, relay_state, response } => (2, url@, relay_state@, response@),
    }
}

/// An action with its encoded colon and slashes decoded.
pub open spec fn decode_action(a: Seq<char>) -> Seq<char> {
    replace(replace(a, "&#x3a;"@, ":"@), "&#x2f;"@, "/"@)
}

/// The value of the first input of a group, read as `Some(value)`; `None`
/// without input; `Some(None)` for an input without value.
pub open spec fn first_input_value(inputs: Seq<NodeView>) -> Option<Option<Seq<char>>> {
    if inputs.len() > 0 {
        Some(attr_opt(inputs[0], 0))
    } else {
        None
    }
}

/// What the assertion page allows: no form; a form without relay state or
/// response; or the post of both to the form's decoded action. `None` where
/// a selector is refused, or the form lacks its action, or an input that is
/// there lacks its value.
pub open spec fn spec_saml_step(body: Seq<char>) -> Option<(nat, Seq<char>, Seq<char>, Seq<char>)> {
    match (
        spec_select_nested(body, "form"@, "input[name=RelayState]"@, seq!["value"@]),
        spec_select_nested(body, "form"@, "input[name=SAMLResponse]"@, seq!["value"@]),
        spec_select(body, "form"@, seq!["action"@]),
    ) {
        (Some(relay), Some(resp), Some(forms)) => if forms.len() == 0 || relay.len() == 0 || resp.len() == 0 {
            if forms.len() == 0 { Some((0, seq![], seq![], seq![])) } else { None }
        } else {
            match (attr_opt(forms[0], 0), first_input_value(relay[0].1), first_input_value(resp[0].1)) {
                (None, _, _) => None,
                (_, Some(None), _) => None,
                (_, _, Some(None)) => None,
                (Some(action), Some(Some(r)), Some(Some(s))) => Some((2, decode_action(action), r, s)),
                (Some(_), _, _) => Some((1, seq![], seq![], seq![])),
            }
        },
        _ => None,
    }
}

/// The scan of the assertion page (see [`spec_saml_step`]).
fn saml_scan(body: &str) -> (r: Option<SamlStep>)
    ensures
        match r {
            Some(s) => spec_saml_step(body@) == Some(saml_step_view(s)),
            None => spec_saml_step(body@) is None,
        },
{
    let mut vnames: Vec<&'static str> = Vec::new();
    vnames.push("value");
    assert(names_view(vnames@) =~= seq!["value"@]);
    let mut anames: Vec<&'static str> = Vec::new();
    anames.push("action");
    assert(names_view(anames@) =~= seq!["action"@]);
    let relay = select_nested(body, "form", "input[name=RelayState]", vnames.as_slice());
    let resp = select_nested(body, "form", "input[name=SAMLResponse]", vnames.as_slice());
    let forms = select(body, "form", anames.as_slice());
    let (relay, resp, forms) = match (relay, resp, forms) {
        (Some(a), Some(b), Some(c)) => (a, b, c),
        _ => return None,
    };
    if forms.len() == 0 || relay.len() == 0 || resp.len() == 0 {
        if forms.len() == 0 {
            return Some(SamlStep::NoForm);
        } else {
            return None;
        }
    }
    assert(nodes_view(forms@)[0] == forms@[0]@);
    assert(groups_view(relay@)[0].1 == nodes_view(relay@[0].1@));
    assert(groups_view(resp@)[0].1 == nodes_view(resp@[0].1@));
    let action = attr_opt_exec(&forms[0], 0);
    let r = if relay[0].1.len() > 0 {
        assert(nodes_view(relay@[0].1@)[0] == relay@[0].1@[0]@);
        Some(attr_opt_exec(&relay[0].1[0], 0))
    } else {
        None
    };
    let s = if resp[0].1.len() > 0 {
        assert(nodes_view(resp@[0].1@)[0] == resp@[0].1@[0]@);
        Some(attr_opt_exec(&resp[0].1[0], 0))
    } else {
        None
    };
    match (action, r, s) {
        (None, _, _) => None,
        (_, Some(None), _) => None,
        (_, _, Some(None)) => None,
        (Some(a), Some(Some(r)), Some(Some(s))) => {
            proof {
                reveal_strlit("&#x3a;");
                reveal_strlit("&#x2f;");
            }
            let a1 = str_replace(a.as_str(), "&#x3a;", ":");
            let a2 = str_replace(a1.as_str(), "&#x2f;", "/");
            Some(SamlStep::Post { url: a2, relay_state: r, response: s })
        },
        (Some(_), _, _) => Some(SamlStep::Incomplete),
    }
}

/// What the assertion page allows (see [`spec_saml_step`]), for a page on
/// which it can be read: its form has an action, and each of the two inputs
/// it holds has a value.
pub fn saml_step(body: &str) -> (r: SamlStep)
    requires
        spec_saml_step(body@) is Some,
    ensures
        spec_saml_step(body@) == Some(saml_step_view(r)),
{
    match saml_scan(body) {
        Some(st) => st,
        None => SamlStep::NoForm,
    }
}

/// [`saml_step`] where the page can be read; `None` exactly where it cannot
/// (a selector refused, a form without an action, an input without a
/// value).
pub fn try_saml_step(body: &str) -> (r: Option<SamlStep>)
    ensures
        match r {
            Some(s) => spec_saml_step(body@) == Some(saml_step_view(s)),
            None => spec_saml_step(body@) is None,
        },
{
    match saml_scan(body) {
        Some(_) => Some(saml_step(body)),
        None => None,
    }
}

/// The address of the dashboard, used to test the session.
pub open spec fn spec_dashboard_url() -> Seq<char> {
    crate::types::MOODLE_BASE@ + "/my/"@
}

/// See [`spec_dashboard_url`].
pub fn dashboard_url() -> (r: String)
    ensures
        r@ == spec_dashboard_url(),
{
    let mut v = chars_of(crate::types::MOODLE_BASE);
    let t = chars_of("/my/");
    append_chars(&mut v, t.as_slice());
    string_of(v.as_slice())
}

/// The sign-in worked: the dashboard request ended on the Moodle site, on a
/// page whose title names no sign-in page.
pub open spec fn spec_signed_in(final_url: Seq<char>, title: Seq<char>) -> bool {
    starts_with(final_url, crate::types::MOODLE_BASE@) && !(contains(title, "\u{30ed}\u{30b0}\u{30a4}\u{30f3}"@)
        || contains(title, "Login"@))
}

/// See [`spec_signed_in`].
pub fn signed_in(final_url: &str, title: &str) -> (b: bool)
    ensures
        b == spec_signed_in(final_url@, title@),
{
    let u = chars_of(final_url);
    let base = chars_of(crate::types::MOODLE_BASE);
    starts_with_exec(u.as_slice(), base.as_slice()) && !(str_contains(title, "\u{30ed}\u{30b0}\u{30a4}\u{30f3}")
        || str_contains(title, "Login"))
}

} // verus!
