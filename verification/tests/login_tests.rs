use saml2aws_auto::cookies::CookieJar;
use saml2aws_auto::keycloak::KeycloakErrorKind;
use saml2aws_auto::keycloak::form::{extract_saml_response, FormInfo, FormMethod};
use saml2aws_auto::keycloak::login::{get_intermediate_response, get_login_form, get_login_page,
    handle_credentials_response, handle_mfa_response, login_page_request, plan_credentials,
    submit_form, CredentialsStep, HttpResponse, MfaOutcome};
use saml2aws_auto::keycloak::mfa::get_totp_form;

const LOGIN_PAGE: &str = "<html><body>\
<form id=\"form-login\" method=\"post\" action=\"https://idp.example.com/login\">\
<input name=\"username\"/><input name=\"password\"/></form></body></html>";

const TOTP_PAGE: &str = "<html><body>\
<form id=\"kc-totp-login-form\" method=\"post\" action=\"https://idp.example.com/totp\">\
<select name=\"selectedCredentialId\">\
<option value=\"id-phone\">Phone</option>\
<option value=\"id-old\" disabled>Old</option>\
<option value=\"id-token\">Token</option>\
</select></form></body></html>";

const SAML_PAGE: &str = "<html><body>\
<form method=\"post\" action=\"https://signin.aws.amazon.com/saml\">\
<input type=\"hidden\" name=\"SAMLResponse\" value=\"ZmFrZQ==\"/>\
</form></body></html>";

fn resp(body: &str) -> HttpResponse {
    HttpResponse { body: body.to_string(), set_cookies: Vec::new() }
}

#[test]
fn invalid_credentials_marker_is_classified_anywhere_in_markup() {
    let mut jar = CookieJar::new();
    let body = "<html><div class=\"x\"><b>Invalid username or password</b></div></html>";
    let e = submit_form(&mut jar, resp(body)).unwrap_err();
    assert_eq!(e.kind, KeycloakErrorKind::InvalidCredentials);
}

#[test]
fn terms_marker_is_classified() {
    let mut jar = CookieJar::new();
    let e = submit_form(&mut jar, resp("<div id=\"kc-terms-text\">...</div>")).unwrap_err();
    assert_eq!(e.kind, KeycloakErrorKind::TermsAndConditionsNotAccepted);
}

#[test]
fn password_update_marker_is_classified() {
    let mut jar = CookieJar::new();
    let e = submit_form(&mut jar, resp("<h1>Update password</h1>")).unwrap_err();
    assert_eq!(e.kind, KeycloakErrorKind::PasswordUpdateRequired);
}

#[test]
fn mfa_device_marker_is_classified() {
    let mut jar = CookieJar::new();
    let body =
        "Unexpected error when handling authentication request to identity provider.";
    let e = submit_form(&mut jar, resp(body)).unwrap_err();
    assert_eq!(e.kind, KeycloakErrorKind::InvalidMFADevice);
}

#[test]
fn unclassified_body_passes_through() {
    let mut jar = CookieJar::new();
    let body = submit_form(&mut jar, resp("<html>all good</html>")).unwrap();
    assert_eq!(body, "<html>all good</html>");
}

#[test]
fn set_cookies_are_merged_in_order() {
    let mut jar = CookieJar::new();
    let r = HttpResponse {
        body: String::new(),
        set_cookies: vec![
            "SESSION=abc; Path=/; HttpOnly".to_string(),
            "KC_RESTART=xyz".to_string(),
            "SESSION=def".to_string(),
        ],
    };
    let _ = get_login_page(&mut jar, r);
    assert_eq!(jar.header(), "KC_RESTART=xyz; SESSION=def");
}

#[test]
fn login_page_request_carries_cookies() {
    let mut jar = CookieJar::new();
    jar.add("a".to_string(), "1".to_string());
    let q = login_page_request("https://idp.example.com/saml", &jar);
    assert_eq!(q.url, "https://idp.example.com/saml");
    assert!(matches!(q.method, FormMethod::GET));
    assert_eq!(q.cookie_header, "a=1");
    assert!(q.form_params.is_empty());
}

#[test]
fn login_form_is_discovered() {
    let f = get_login_form(LOGIN_PAGE).unwrap();
    assert!(matches!(f.method, FormMethod::POST));
    assert_eq!(f.action, "https://idp.example.com/login");
}

#[test]
fn missing_login_form_means_authenticated() {
    let e = get_login_form("<html><body>welcome back</body></html>").unwrap_err();
    assert_eq!(e.kind, KeycloakErrorKind::FormNotFound);
    let jar = CookieJar::new();
    let step = plan_credentials("<html/>", "user", "pw", &jar);
    assert!(matches!(step, CredentialsStep::AlreadyAuthenticated));
}

#[test]
fn plan_credentials_posts_to_form_action() {
    let jar = CookieJar::new();
    match plan_credentials(LOGIN_PAGE, "user", "pw", &jar) {
        CredentialsStep::Submit(q) => {
            assert_eq!(q.url, "https://idp.example.com/login");
            assert_eq!(q.form_params[0], ("username".to_string(), "user".to_string()));
            assert_eq!(q.form_params[1], ("password".to_string(), "pw".to_string()));
        },
        CredentialsStep::AlreadyAuthenticated => panic!("expected a submission"),
    }
}

#[test]
fn totp_form_lists_enabled_devices() {
    let f = get_totp_form(TOTP_PAGE).unwrap();
    assert_eq!(f.action, "https://idp.example.com/totp");
    assert_eq!(f.mfa_devices.len(), 2);
    assert_eq!(f.mfa_devices[0].name, "Phone");
    assert_eq!(f.mfa_devices[0].id, "id-phone");
    assert_eq!(f.mfa_devices[1].name, "Token");
    assert_eq!(f.mfa_devices[1].id, "id-token");
}

#[test]
fn missing_totp_form_is_an_error() {
    let e = get_totp_form("<html/>").unwrap_err();
    assert_eq!(e.kind, KeycloakErrorKind::FormNotFound);
}

#[test]
fn credentials_response_builds_totp_submission_with_device() {
    let mut jar = CookieJar::new();
    let q = handle_credentials_response(&mut jar, resp(TOTP_PAGE), Some("Token"), "123456")
        .unwrap();
    assert_eq!(q.url, "https://idp.example.com/totp");
    assert_eq!(q.form_params[0], ("otp".to_string(), "123456".to_string()));
    assert_eq!(q.form_params[1], ("totp".to_string(), "123456".to_string()));
    assert_eq!(
        q.form_params[2],
        ("selectedCredentialId".to_string(), "id-token".to_string())
    );
}

#[test]
fn unknown_device_name_is_omitted() {
    let mut jar = CookieJar::new();
    let q = handle_credentials_response(&mut jar, resp(TOTP_PAGE), Some("Missing"), "123456")
        .unwrap();
    assert_eq!(q.form_params.len(), 2);
}

#[test]
fn credentials_response_detects_bad_password() {
    let mut jar = CookieJar::new();
    let e = handle_credentials_response(
        &mut jar,
        resp("<p>Invalid username or password</p>"),
        None,
        "123456",
    )
    .unwrap_err();
    assert_eq!(e.kind, KeycloakErrorKind::InvalidCredentials);
}

#[test]
fn intermediate_response_extracts_assertion() {
    let (saml, form) = get_intermediate_response(SAML_PAGE).unwrap();
    assert_eq!(saml, "ZmFrZQ==");
    assert_eq!(form.action, "https://signin.aws.amazon.com/saml");
}

#[test]
fn intermediate_response_detects_invalid_token() {
    let e = get_intermediate_response("<span>Invalid authenticator code</span>").unwrap_err();
    assert_eq!(e.kind, KeycloakErrorKind::InvalidToken);
}

#[test]
fn intermediate_response_requires_a_form() {
    let e = get_intermediate_response("<html><body>nothing here</body></html>").unwrap_err();
    assert_eq!(e.kind, KeycloakErrorKind::FormNotFound);
}

#[test]
fn mfa_response_yields_assertion() {
    let mut jar = CookieJar::new();
    match handle_mfa_response(&mut jar, resp(SAML_PAGE), false).unwrap() {
        MfaOutcome::Assertion { saml_response } => assert_eq!(saml_response, "ZmFrZQ=="),
        MfaOutcome::SubmitAwsPage { .. } => panic!("no AWS page was requested"),
    }
}

#[test]
fn mfa_response_builds_aws_submission_when_requested() {
    let mut jar = CookieJar::new();
    match handle_mfa_response(&mut jar, resp(SAML_PAGE), true).unwrap() {
        MfaOutcome::SubmitAwsPage { request, saml_response } => {
            assert_eq!(saml_response, "ZmFrZQ==");
            assert_eq!(request.url, "https://signin.aws.amazon.com/saml");
            assert_eq!(
                request.form_params[0],
                ("SAMLResponse".to_string(), "ZmFrZQ==".to_string())
            );
        },
        MfaOutcome::Assertion { .. } => panic!("expected the AWS submission"),
    }
}

#[test]
fn form_from_html_rejects_odd_method() {
    let page = "<form id=\"form-login\" method=\"PUT\" action=\"/x\"></form>";
    assert!(FormInfo::from_html(page, "form#form-login").is_none());
}

#[test]
fn saml_response_input_is_extracted() {
    assert_eq!(extract_saml_response(SAML_PAGE).unwrap(), "ZmFrZQ==");
    assert!(extract_saml_response("<html/>").is_none());
}

#[test]
fn replaced_cookie_moves_to_the_end() {
    let mut jar = CookieJar::new();
    jar.add("a".to_string(), "1".to_string());
    jar.add("b".to_string(), "2".to_string());
    jar.add("a".to_string(), "3".to_string());
    assert_eq!(jar.header(), "b=2; a=3");
}
