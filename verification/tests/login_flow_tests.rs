use moodle_cli::auth::TotpError;
use moodle_cli::login_flow::{LoginAction, LoginFailure, LoginFlow, LoginRequest, LoginStage};

fn pairs(v: &[(&str, &str)]) -> Vec<(String, String)> {
    v.iter().map(|(a, b)| (a.to_string(), b.to_string())).collect()
}

const IDP: &str = "https://shibboleth.cc.uec.ac.jp/idp/profile/SAML2/Redirect/SSO?execution=e1s1";
const FORM: &str = r#"<form action="/idp/profile/SAML2/Redirect/SSO?execution=e1s2">
    <input name="csrf_token" value="tok"></form>"#;
const SAML: &str = r#"<form action="https&#x3a;&#x2f;&#x2f;h&#x2f;acs">
    <input name="RelayState" value="r"><input name="SAMLResponse" value="s"></form>"#;

fn post_of(a: LoginAction) -> (String, Vec<(String, String)>, LoginRequest) {
    match a {
        LoginAction::Post { url, fields, request } => (url, fields, request),
        _ => panic!("expected a post"),
    }
}

fn failure_of(a: LoginAction) -> LoginFailure {
    match a {
        LoginAction::Fail(f) => f,
        _ => panic!("expected a failure"),
    }
}

fn to_credentials(flow: &mut LoginFlow) {
    post_of(flow.on_page(IDP, FORM).unwrap());
    post_of(flow.on_page(IDP, FORM).unwrap());
    assert_eq!(flow.stage, LoginStage::Credentials);
}

#[test]
fn login_flow_starts_at_the_sign_in_page() {
    let (flow, action) = LoginFlow::begin("u", "p");
    assert_eq!(flow.stage, LoginStage::LoginPage);
    match action {
        LoginAction::Get { url, request } => {
            assert_eq!(url, "https://joho.g-edu.uec.ac.jp/moodle3/auth/shibboleth/index.php");
            assert_eq!(request, LoginRequest::LoginPage);
        }
        _ => panic!("expected a fetch"),
    }
}

#[test]
fn login_flow_refuses_empty_and_formless_pages() {
    let (mut flow, _) = LoginFlow::begin("u", "p");
    assert_eq!(failure_of(flow.on_page(IDP, "").unwrap()), LoginFailure::EmptyLoginPage);
    let (mut flow, _) = LoginFlow::begin("u", "p");
    assert_eq!(failure_of(flow.on_page(IDP, "<p>x</p>").unwrap()), LoginFailure::NoLoginPageForm);
    let (mut flow, _) = LoginFlow::begin("u", "p");
    post_of(flow.on_page(IDP, FORM).unwrap());
    assert_eq!(failure_of(flow.on_page(IDP, "").unwrap()), LoginFailure::EmptyIdpPage);
    let (mut flow, _) = LoginFlow::begin("u", "p");
    post_of(flow.on_page(IDP, FORM).unwrap());
    assert_eq!(failure_of(flow.on_page(IDP, "<p>x</p>").unwrap()), LoginFailure::NoIdpForm);
}

#[test]
fn login_flow_posts_forms_and_credentials() {
    let (mut flow, _) = LoginFlow::begin("user", "secret");
    let (url, fields, request) = post_of(flow.on_page(IDP, FORM).unwrap());
    assert_eq!(url, "https://shibboleth.cc.uec.ac.jp/idp/profile/SAML2/Redirect/SSO?execution=e1s2");
    assert_eq!(fields, pairs(&[("csrf_token", "tok"), ("shib_idp_ls_supported", "false"), ("_eventId_proceed", "")]));
    assert_eq!(request, LoginRequest::FirstForm);
    let (url, fields, request) = post_of(flow.on_page(IDP, FORM).unwrap());
    assert_eq!(url, "https://shibboleth.cc.uec.ac.jp/idp/profile/SAML2/Redirect/SSO?execution=e1s2");
    assert_eq!(
        fields,
        pairs(&[("j_username", "user"), ("j_password", "secret"), ("csrf_token", "tok"), ("_eventId_proceed", ""), ("donotcache", "1")])
    );
    assert_eq!(request, LoginRequest::Credentials);
}

#[test]
fn login_flow_without_second_factor() {
    let (mut flow, _) = LoginFlow::begin("u", "p");
    to_credentials(&mut flow);
    let (url, fields, request) = post_of(flow.on_page(IDP, SAML).unwrap());
    assert_eq!(url, "https://h/acs");
    assert_eq!(fields, pairs(&[("RelayState", "r"), ("SAMLResponse", "s")]));
    assert_eq!(request, LoginRequest::Saml { after_factor: false });
    match flow.on_page("https://h/acs", "").unwrap() {
        LoginAction::Get { url, request } => {
            assert_eq!(url, "https://joho.g-edu.uec.ac.jp/moodle3/my/");
            assert_eq!(request, LoginRequest::Dashboard);
        }
        _ => panic!("expected the dashboard"),
    }
    let done = flow.on_page("https://joho.g-edu.uec.ac.jp/moodle3/my/", "<title>Dashboard</title>").unwrap();
    assert!(matches!(done, LoginAction::Done));
    assert_eq!(flow.stage, LoginStage::Over);
}

#[test]
fn login_flow_reports_missing_assertion_and_login_page() {
    let (mut flow, _) = LoginFlow::begin("u", "p");
    to_credentials(&mut flow);
    assert_eq!(failure_of(flow.on_page(IDP, "<p>x</p>").unwrap()), LoginFailure::NoSamlForm { after_factor: false });
    let (mut flow, _) = LoginFlow::begin("u", "p");
    to_credentials(&mut flow);
    let incomplete = r#"<form action="a"><input name="RelayState" value="r"></form>"#;
    assert_eq!(failure_of(flow.on_page(IDP, incomplete).unwrap()), LoginFailure::SamlIncomplete { after_factor: false });
    let (mut flow, _) = LoginFlow::begin("u", "p");
    to_credentials(&mut flow);
    post_of(flow.on_page(IDP, SAML).unwrap());
    flow.on_page("https://h/acs", "").unwrap();
    let f = flow.on_page("https://joho.g-edu.uec.ac.jp/moodle3/login/index.php", "<title>ログイン</title>").unwrap();
    assert_eq!(failure_of(f), LoginFailure::StillOnLogin);
}

#[test]
fn login_flow_with_generated_totp() {
    let (mut flow, _) = LoginFlow::begin("u", "p");
    to_credentials(&mut flow);
    let factors = r#"<form action="/idp/otp"><input name="csrf_token" value="t2">
        <input name="authcode"><input name="mailotp"></form>"#;
    assert!(matches!(flow.on_page(IDP, factors).unwrap(), LoginAction::ReadTotpSecret));
    assert_eq!(flow.stage, LoginStage::TotpSecret);
    assert!(flow.on_code("1").is_none());
    let (url, fields, request) =
        post_of(flow.on_totp_secret(Some("GEZDGNBVGY3TQOJQGEZDGNBVGY3TQOJQ"), 59).unwrap());
    assert_eq!(url, "https://shibboleth.cc.uec.ac.jp/idp/otp");
    assert_eq!(fields, pairs(&[("csrf_token", "t2"), ("mfa_type", "totp"), ("authcode", "287082"), ("login", "ログイン")]));
    assert_eq!(request, LoginRequest::SecondFactor);
    assert_eq!(failure_of(flow.on_page(IDP, factors).unwrap()), LoginFailure::CodeRejected);
}

#[test]
fn login_flow_with_mail_code_and_typed_totp() {
    let mail_only = r#"<form action="/idp/otp"><input name="csrf_token" value="t2"><input name="mailotp"></form>"#;
    let (mut flow, _) = LoginFlow::begin("u", "p");
    to_credentials(&mut flow);
    assert!(matches!(flow.on_page(IDP, mail_only).unwrap(), LoginAction::AskMailCode));
    let (_, fields, _) = post_of(flow.on_code("4321").unwrap());
    assert_eq!(fields, pairs(&[("csrf_token", "t2"), ("mfa_type", "mailotp"), ("mailotp", "4321"), ("login", "ログイン")]));
    let (url, _, request) = post_of(flow.on_page(IDP, SAML).unwrap());
    assert_eq!(url, "https://h/acs");
    assert_eq!(request, LoginRequest::Saml { after_factor: true });

    let totp_only = r#"<form action="/idp/otp"><input name="authcode"></form>"#;
    let (mut flow, _) = LoginFlow::begin("u", "p");
    to_credentials(&mut flow);
    assert!(matches!(flow.on_page(IDP, totp_only).unwrap(), LoginAction::ReadTotpSecret));
    assert!(matches!(flow.on_totp_secret(None, 0).unwrap(), LoginAction::AskTotpCode));
    let (_, fields, _) = post_of(flow.on_code("000111").unwrap());
    assert_eq!(fields, pairs(&[("csrf_token", ""), ("mfa_type", "totp"), ("authcode", "000111"), ("login", "ログイン")]));
    assert_eq!(failure_of(flow.on_page(IDP, "<p>x</p>").unwrap()), LoginFailure::NoSamlForm { after_factor: true });
}

#[test]
fn login_flow_refuses_bad_secret() {
    let (mut flow, _) = LoginFlow::begin("u", "p");
    to_credentials(&mut flow);
    flow.on_page(IDP, r#"<input name="authcode">"#).unwrap();
    assert_eq!(failure_of(flow.on_totp_secret(Some("!!!!"), 59).unwrap()), LoginFailure::Totp(TotpError::BadSecret));
    assert!(flow.on_totp_secret(None, 0).is_none());
}

#[test]
fn login_flow_factor_page_without_form() {
    let (mut flow, _) = LoginFlow::begin("u", "p");
    to_credentials(&mut flow);
    flow.on_page(IDP, r#"<input name="mailotp">"#).unwrap();
    assert_eq!(failure_of(flow.on_code("1").unwrap()), LoginFailure::NoFactorForm);
}
