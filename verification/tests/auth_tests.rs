use moodle_cli::auth::{
    code_refused, credential_fields, dashboard_url, first_form_fields, first_post_url,
    generate_totp, idp_url, login_form, saml_step, try_saml_step, second_factor_fields,
    second_factors, signed_in, SamlStep, TotpError,
};

fn pairs(v: &[(&str, &str)]) -> Vec<(String, String)> {
    v.iter().map(|(a, b)| (a.to_string(), b.to_string())).collect()
}

#[test]
fn login_form_action_and_token() {
    let page = r#"<form action="/idp/profile/SAML2/Redirect/SSO?execution=e1s1">
        <input name="csrf_token" value="tok"></form>"#;
    let f = login_form(page).unwrap().unwrap();
    assert_eq!(f.action, "/idp/profile/SAML2/Redirect/SSO?execution=e1s1");
    assert_eq!(f.csrf, "tok");
    let g = login_form("<form></form>").unwrap().unwrap();
    assert_eq!(g.action, "");
    assert_eq!(g.csrf, "");
    assert!(login_form("<p></p>").unwrap().is_none());
}

#[test]
fn addresses_of_the_sign_in() {
    assert_eq!(
        first_post_url("https://idp.example.com:8443/path?x=1", "/post"),
        Some("https://idp.example.com:8443/post".to_string())
    );
    assert_eq!(first_post_url("not a url", "/post"), None);
    assert_eq!(idp_url("/idp/x"), "https://shibboleth.cc.uec.ac.jp/idp/x");
    assert_eq!(dashboard_url(), "https://joho.g-edu.uec.ac.jp/moodle3/my/");
}

#[test]
fn sign_in_fields() {
    assert_eq!(
        first_form_fields("t"),
        pairs(&[("csrf_token", "t"), ("shib_idp_ls_supported", "false"), ("_eventId_proceed", "")])
    );
    assert_eq!(
        credential_fields("u", "p", "t"),
        pairs(&[("j_username", "u"), ("j_password", "p"), ("csrf_token", "t"), ("_eventId_proceed", ""), ("donotcache", "1")])
    );
    assert_eq!(
        second_factor_fields("t", false, "123456"),
        pairs(&[("csrf_token", "t"), ("mfa_type", "totp"), ("authcode", "123456"), ("login", "ログイン")])
    );
    assert_eq!(
        second_factor_fields("t", true, "999"),
        pairs(&[("csrf_token", "t"), ("mfa_type", "mailotp"), ("mailotp", "999"), ("login", "ログイン")])
    );
}

#[test]
fn second_factor_choice() {
    assert_eq!(second_factors(r#"<input name="authcode"><input name="mailotp">"#), Some((true, true)));
    assert_eq!(second_factors(r#"<input name="mailotp">"#), Some((false, true)));
    assert_eq!(second_factors("<p></p>"), Some((false, false)));
    assert_eq!(code_refused(r#"<input name="authcode">"#), Some(true));
    assert_eq!(code_refused("<form></form>"), Some(false));
}

#[test]
fn totp_matches_rfc_6238_vectors() {
    let secret = "GEZDGNBVGY3TQOJQGEZDGNBVGY3TQOJQ";
    assert_eq!(generate_totp(secret, 59), Ok("287082".to_string()));
    assert_eq!(generate_totp(secret, 1111111109), Ok("081804".to_string()));
    assert_eq!(generate_totp(secret, 1234567890), Ok("005924".to_string()));
}

#[test]
fn totp_refuses_bad_secrets() {
    assert_eq!(generate_totp("!!!!", 59), Err(TotpError::BadSecret));
    assert_eq!(generate_totp("GEZDGNBV", 59), Err(TotpError::ShortSecret));
}

#[test]
fn saml_assertion_page() {
    let page = r#"<form action="https://joho.g-edu.uec.ac.jp/Shibboleth.sso/SAML2/POST" method="post">
        <input type="hidden" name="RelayState" value="cookie:1">
        <input type="hidden" name="SAMLResponse" value="PHNhbWw+"></form>"#;
    match try_saml_step(page).unwrap() {
        SamlStep::Post { url, relay_state, response } => {
            assert_eq!(url, "https://joho.g-edu.uec.ac.jp/Shibboleth.sso/SAML2/POST");
            assert_eq!(relay_state, "cookie:1");
            assert_eq!(response, "PHNhbWw+");
        }
        _ => panic!("expected post"),
    }
    let encoded = r#"<form action="https&amp;#x3a;&amp;#x2f;&amp;#x2f;h&amp;#x2f;acs">
        <input name="RelayState" value="r"><input name="SAMLResponse" value="s"></form>"#;
    match try_saml_step(encoded).unwrap() {
        SamlStep::Post { url, .. } => assert_eq!(url, "https://h/acs"),
        _ => panic!("expected post"),
    }
    match try_saml_step(r#"<form action="a"><input name="RelayState" value="r"></form>"#).unwrap() {
        SamlStep::Incomplete => {}
        _ => panic!("expected incomplete"),
    }
    match try_saml_step("<p></p>").unwrap() {
        SamlStep::NoForm => {}
        _ => panic!("expected no form"),
    }
    assert!(try_saml_step(r#"<form><input name="RelayState" value="r"></form>"#).is_none());
    assert!(try_saml_step(r#"<form action="a"><input name="RelayState"><input name="SAMLResponse" value="s"></form>"#).is_none());
}

#[test]
fn signed_in_checks_site_and_title() {
    assert!(signed_in("https://joho.g-edu.uec.ac.jp/moodle3/my/", "Dashboard"));
    assert!(!signed_in("https://joho.g-edu.uec.ac.jp/moodle3/login/index.php", "ログイン"));
    assert!(!signed_in("https://joho.g-edu.uec.ac.jp/moodle3/my/", "Login page"));
    assert!(!signed_in("https://shibboleth.cc.uec.ac.jp/idp", "Dashboard"));
}

#[test]
fn saml_step_on_a_readable_page() {
    let page = r#"<form action="https://h/acs"><input name="RelayState" value="r">
        <input name="SAMLResponse" value="s"></form>"#;
    match saml_step(page) {
        SamlStep::Post { url, relay_state, response } => {
            assert_eq!((url.as_str(), relay_state.as_str(), response.as_str()), ("https://h/acs", "r", "s"));
        }
        _ => panic!("expected post"),
    }
    assert!(matches!(saml_step("<p></p>"), SamlStep::NoForm));
}

#[test]
fn totp_codes_are_six_ascii_digits() {
    for t in [0u64, 59, 1_000_000_007, 4_000_000_000] {
        let code = generate_totp("GEZDGNBVGY3TQOJQGEZDGNBVGY3TQOJQ", t).unwrap();
        assert_eq!(code.len(), 6);
        assert!(code.chars().all(|c| c.is_ascii_digit()));
    }
}
