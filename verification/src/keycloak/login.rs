//! The login state machine, response side.
//!
//! The provider answers every request with status 200 and an HTML
//! page, so classification works on body content alone: a table of
//! marker substrings maps each known error page to its error kind.
//! The functions here consume one HTTP response at a time — merging
//! its `Set-Cookie` headers into the jar, classifying the body, and
//! computing the next request — while the I/O itself stays outside
//! the library.

use vstd::prelude::*;
use crate::cookies::{CookieJar, jar_view, str_views, spec_merge_cookies, spec_cookie_header};
use crate::keycloak::form::{FormInfo, FormMethod, MFADevice, form_view, spec_from_html,
    spec_input_value};
use crate::keycloak::form::extract_saml_response;
use crate::keycloak::mfa::get_totp_form;
use crate::keycloak::{KeycloakError, KeycloakErrorKind};
use crate::text::{contains_seq, contains_sub, chars_of, str_eq};

verus! {

/// A request for the driver to perform.
#[derive(Debug)]
pub struct HttpRequest {
    pub method: FormMethod,
    pub url: String,
    pub form_params: Vec<(String, String)>,
    pub cookie_header: String,
}

/// What the driver hands back: the body and the `Set-Cookie` headers,
/// in response order.
pub struct HttpResponse {
    pub body: String,
    pub set_cookies: Vec<String>,
}

/// The views of a parameter list.
pub open spec fn param_views(params: Seq<(String, String)>) -> Seq<(Seq<char>, Seq<char>)> {
    params.map_values(|p: (String, String)| (p.0@, p.1@))
}

/// The view of an optional string slice.
pub open spec fn opt_str_view(o: Option<&str>) -> Option<Seq<char>> {
    match o {
        Some(s) => Some(s@),
        None => None,
    }
}

/// The marker table: each known error page is recognized by a
/// substring of its body, checked in this order.
pub open spec fn spec_classify(body: Seq<char>) -> Option<KeycloakErrorKind> {
    if contains_seq(body, ("Invalid username or password")@) {
        Some(KeycloakErrorKind::InvalidCredentials)
    } else if contains_seq(body, ("kc-terms-text")@) {
        Some(KeycloakErrorKind::TermsAndConditionsNotAccepted)
    } else if contains_seq(body, ("Update password")@) {
        Some(KeycloakErrorKind::PasswordUpdateRequired)
    } else if contains_seq(
        body,
        ("Unexpected error when handling authentication request to identity provider.")@,
    ) {
        Some(KeycloakErrorKind::InvalidMFADevice)
    } else {
        None
    }
}

/// The message reported for each classified error kind.
pub open spec fn spec_classify_message(kind: KeycloakErrorKind) -> Seq<char> {
    match kind {
        KeycloakErrorKind::InvalidCredentials => (
        "Invalid username or password. If you changed your password recently, please run saml2aws-auto configure")@,
        KeycloakErrorKind::TermsAndConditionsNotAccepted => (
        "Terms and Conditions not accepted. Please log in via your web browser to accept them")@,
        KeycloakErrorKind::PasswordUpdateRequired => (
        "You need to update your password in Keycloak before you can login. Please visit the website to change your password.")@,
        KeycloakErrorKind::InvalidMFADevice => (
        "A MFA device is configured, but the name could not be found. Double check your config with `saml2aws-auto configure`")@,
        _ => Seq::empty(),
    }
}

/// Law: a response body containing `Invalid username or password`
/// anywhere is classified as `InvalidCredentials`, whatever markup
/// surrounds it — that marker is checked first.
pub proof fn lemma_invalid_credentials_classified(body: Seq<char>)
    ensures
        contains_seq(body, ("Invalid username or password")@) ==> spec_classify(body) == Some(
            KeycloakErrorKind::InvalidCredentials,
        ),
{
}

/// Classifies a response body against the marker table.
fn classify_body(body: &str) -> (r: Option<KeycloakError>)
    ensures
        match r {
            Some(e) => spec_classify(body@) == Some(e.kind) && e.description@
                == spec_classify_message(e.kind),
            None => spec_classify(body@) is None,
        },
{
    let cs = chars_of(body);
    if contains_sub(&cs, &chars_of("Invalid username or password")) {
        Some(
            KeycloakError::new(
                KeycloakErrorKind::InvalidCredentials,
                "Invalid username or password. If you changed your password recently, please run saml2aws-auto configure",
            ),
        )
    } else if contains_sub(&cs, &chars_of("kc-terms-text")) {
        Some(
            KeycloakError::new(
                KeycloakErrorKind::TermsAndConditionsNotAccepted,
                "Terms and Conditions not accepted. Please log in via your web browser to accept them",
            ),
        )
    } else if contains_sub(&cs, &chars_of("Update password")) {
        Some(
            KeycloakError::new(
                KeycloakErrorKind::PasswordUpdateRequired,
                "You need to update your password in Keycloak before you can login. Please visit the website to change your password.",
            ),
        )
    } else if contains_sub(
        &cs,
        &chars_of("Unexpected error when handling authentication request to identity provider."),
    ) {
        Some(
            KeycloakError::new(
                KeycloakErrorKind::InvalidMFADevice,
                "A MFA device is configured, but the name could not be found. Double check your config with `saml2aws-auto configure`",
            ),
        )
    } else {
        None
    }
}

/// Processes the response to a form submission: merges its cookies
/// into the jar, then classifies the body.  A body containing
/// `Invalid username or password` anywhere yields
/// `InvalidCredentials`, and likewise for the other markers of the
/// table; an unclassified body is returned unchanged.
pub fn submit_form(jar: &mut CookieJar, resp: HttpResponse) -> (r: Result<String, KeycloakError>)
    ensures
        jar_view(*final(jar)) == spec_merge_cookies(
            jar_view(*old(jar)),
            str_views(resp.set_cookies@),
            0,
        ),
        match spec_classify(resp.body@) {
            Some(k) => match r {
                Err(e) => e.kind == k && e.description@ == spec_classify_message(k),
                Ok(_) => false,
            },
            None => match r {
                Ok(b) => b@ == resp.body@,
                Err(_) => false,
            },
        },
{
    jar.merge_set_cookies(&resp.set_cookies);
    match classify_body(resp.body.as_str()) {
        Some(e) => Err(e),
        None => Ok(resp.body),
    }
}

/// Processes the response to the initial page fetch: merges its
/// cookies into the jar and hands the body on.  Transport failures
/// never reach this function, so no classification happens here.
pub fn get_login_page(jar: &mut CookieJar, resp: HttpResponse) -> (r: String)
    ensures
        jar_view(*final(jar)) == spec_merge_cookies(
            jar_view(*old(jar)),
            str_views(resp.set_cookies@),
            0,
        ),
        r@ == resp.body@,
{
    jar.merge_set_cookies(&resp.set_cookies);
    resp.body
}

/// Processes the response to the SAML auto-submit post toward AWS:
/// merges its cookies into the jar and hands the body on.
pub fn submit_saml_response_form(jar: &mut CookieJar, resp: HttpResponse) -> (r: String)
    ensures
        jar_view(*final(jar)) == spec_merge_cookies(
            jar_view(*old(jar)),
            str_views(resp.set_cookies@),
            0,
        ),
        r@ == resp.body@,
{
    jar.merge_set_cookies(&resp.set_cookies);
    resp.body
}

/// Locates the login form on the fetched page; its absence means the
/// session is already authenticated.
pub fn get_login_form(document: &str) -> (r: Result<FormInfo, KeycloakError>)
    ensures
        match r {
            Ok(f) => spec_from_html(document@, ("form#form-login")@) == Some(form_view(f)),
            Err(e) => spec_from_html(document@, ("form#form-login")@) is None && e.kind
                == KeycloakErrorKind::FormNotFound && e.description@ == (
            "Could not find login form")@,
        },
{
    match FormInfo::from_html(document, "form#form-login") {
        Some(f) => Ok(f),
        None => Err(
            KeycloakError::new(KeycloakErrorKind::FormNotFound, "Could not find login form"),
        ),
    }
}

/// Reads the identity provider's auto-submit page: the value of the
/// hidden `SAMLResponse` input and the form carrying it.  A body
/// containing `Invalid authenticator code` yields `InvalidToken`.
pub fn get_intermediate_response(document: &str) -> (r: Result<(String, FormInfo), KeycloakError>)
    ensures
        ({
            if contains_seq(document@, ("Invalid authenticator code")@) {
                match r {
                    Err(e) => e.kind == KeycloakErrorKind::InvalidToken && e.description@ == (
                    "Invalid MFA token. Check if you are using the correct MFA device. If you have multiple MFA devices set up in Keycloak, update your config with `saml2aws-auto configure`")@,
                    Ok(_) => false,
                }
            } else {
                match spec_from_html(document@, ("form")@) {
                    None => match r {
                        Err(e) => e.kind == KeycloakErrorKind::FormNotFound && e.description@ == (
                        "Could not find saml submit form")@,
                        Ok(_) => false,
                    },
                    Some(fv) => match spec_input_value(
                        document@,
                        ("input[name=\"SAMLResponse\"]")@,
                    ) {
                        Some(v) => match (v, r) {
                            (Some(s), Ok(t)) => t.0@ == s && form_view(t.1) == fv,
                            (None, Err(e)) => e.kind == KeycloakErrorKind::Io && e.description@
                                == ("Could not find saml response")@,
                            _ => false,
                        },
                        None => match r {
                            Err(e) => e.kind == KeycloakErrorKind::Io && e.description@ == (
                            "Could not find saml response")@,
                            Ok(_) => false,
                        },
                    },
                }
            }
        }),
{
    let cs = chars_of(document);
    if contains_sub(&cs, &chars_of("Invalid authenticator code")) {
        return Err(
            KeycloakError::new(
                KeycloakErrorKind::InvalidToken,
                "Invalid MFA token. Check if you are using the correct MFA device. If you have multiple MFA devices set up in Keycloak, update your config with `saml2aws-auto configure`",
            ),
        );
    }
    let form = match FormInfo::from_html(document, "form") {
        Some(f) => f,
        None => {
            return Err(
                KeycloakError::new(
                    KeycloakErrorKind::FormNotFound,
                    "Could not find saml submit form",
                ),
            );
        },
    };
    match extract_saml_response(document) {
        Some(saml) => Ok((saml, form)),
        None => Err(KeycloakError::new(KeycloakErrorKind::Io, "Could not find saml response")),
    }
}

/// The request that starts a login pass: a GET of the provider URL
/// with the jar's cookies attached.
pub fn login_page_request(url: &str, jar: &CookieJar) -> (r: HttpRequest)
    ensures
        r.method is GET,
        r.url@ == url@,
        param_views(r.form_params@) == Seq::<(Seq<char>, Seq<char>)>::empty(),
        r.cookie_header@ == spec_cookie_header(jar_view(*jar)),
{
    let params: Vec<(String, String)> = Vec::new();
    proof {
        assert(param_views(params@) =~= Seq::<(Seq<char>, Seq<char>)>::empty());
    }
    HttpRequest {
        method: FormMethod::GET,
        url: url.to_owned(),
        form_params: params,
        cookie_header: jar.header(),
    }
}

/// What to do after the login page arrived.
pub enum CredentialsStep {
    /// Post the username and password to the login form's action.
    Submit(HttpRequest),
    /// No login form: the session cookies already authenticate us,
    /// and the page is the auto-submit document.
    AlreadyAuthenticated,
}

/// Decides the step after the login page: if the page holds the
/// login form, the credentials are posted to its action with the
/// current cookies; if not, the pass skips straight to reading the
/// assertion from this page.
pub fn plan_credentials(document: &str, username: &str, password: &str, jar: &CookieJar) -> (r:
    CredentialsStep)
    ensures
        match spec_from_html(document@, ("form#form-login")@) {
            Some(fv) => match r {
                CredentialsStep::Submit(q) => q.method is POST && q.url@ == fv.1 && param_views(
                    q.form_params@,
                ) == seq![(("username")@, username@), (("password")@, password@)]
                    && q.cookie_header@ == spec_cookie_header(jar_view(*jar)),
                CredentialsStep::AlreadyAuthenticated => false,
            },
            None => r is AlreadyAuthenticated,
        },
{
    match FormInfo::from_html(document, "form#form-login") {
        None => CredentialsStep::AlreadyAuthenticated,
        Some(f) => {
            let mut params: Vec<(String, String)> = Vec::new();
            params.push(("username".to_owned(), username.to_owned()));
            params.push(("password".to_owned(), password.to_owned()));
            proof {
                assert(param_views(params@) =~= seq![
                    (("username")@, username@),
                    (("password")@, password@),
                ]);
            }
            CredentialsStep::Submit(
                HttpRequest {
                    method: FormMethod::POST,
                    url: f.action,
                    form_params: params,
                    cookie_header: jar.header(),
                },
            )
        },
    }
}

/// The device id selected for a configured MFA device name: the id of
/// the first offered device with that name, from index `i` on.
pub open spec fn spec_find_device(
    devices: Seq<(Seq<char>, Seq<char>)>,
    name: Seq<char>,
    i: int,
) -> Option<Seq<char>>
    decreases devices.len() - i when 0 <= i
{
    if i >= devices.len() {
        None
    } else if devices[i].0 == name {
        Some(devices[i].1)
    } else {
        spec_find_device(devices, name, i + 1)
    }
}

/// The parameters of the one-time-code submission: the code under
/// both `otp` and `totp`, plus the selected device id when a
/// configured device name is found among the offered devices.  A
/// configured name that is not offered is omitted, and the provider
/// rejects the submission itself.
pub open spec fn spec_mfa_params(
    devices: Seq<(Seq<char>, Seq<char>)>,
    mfa_device: Option<Seq<char>>,
    token: Seq<char>,
) -> Seq<(Seq<char>, Seq<char>)> {
    let base = seq![(("otp")@, token), (("totp")@, token)];
    match mfa_device {
        None => base,
        Some(name) => match spec_find_device(devices, name, 0) {
            None => base,
            Some(id) => base + seq![(("selectedCredentialId")@, id)],
        },
    }
}

/// Consumes the response to the credentials post: merges cookies,
/// classifies the body, locates the TOTP form, and builds the
/// one-time-code submission.
#[verifier::loop_isolation(false)]
pub fn handle_credentials_response(
    jar: &mut CookieJar,
    resp: HttpResponse,
    mfa_device: Option<&str>,
    token: &str,
) -> (r: Result<HttpRequest, KeycloakError>)
    ensures
        jar_view(*final(jar)) == spec_merge_cookies(
            jar_view(*old(jar)),
            str_views(resp.set_cookies@),
            0,
        ),
        match spec_classify(resp.body@) {
            Some(k) => match r {
                Err(e) => e.kind == k && e.description@ == spec_classify_message(k),
                Ok(_) => false,
            },
            None => match spec_from_html(resp.body@, ("form#kc-totp-login-form")@) {
                None => match r {
                    Err(e) => e.kind == KeycloakErrorKind::FormNotFound && e.description@ == (
                    "Could not find TOTP form")@,
                    Ok(_) => false,
                },
                Some(fv) => match r {
                    Ok(q) => q.method is POST && q.url@ == fv.1 && param_views(q.form_params@)
                        == spec_mfa_params(fv.2, opt_str_view(mfa_device), token@)
                        && q.cookie_header@ == spec_cookie_header(jar_view(*final(jar))),
                    Err(_) => false,
                },
            },
        },
{
    let body = match submit_form(jar, resp) {
        Err(e) => {
            return Err(e);
        },
        Ok(b) => b,
    };
    let totp = match get_totp_form(body.as_str()) {
        Err(e) => {
            return Err(e);
        },
        Ok(f) => f,
    };
    let mut params: Vec<(String, String)> = Vec::new();
    params.push(("otp".to_owned(), token.to_owned()));
    params.push(("totp".to_owned(), token.to_owned()));
    proof {
        assert(param_views(params@) =~= seq![(("otp")@, token@), (("totp")@, token@)]);
    }
    if let Some(name) = mfa_device {
        match find_device(&totp.mfa_devices, name) {
            Some(id) => {
                let ghost idv = id@;
                params.push(("selectedCredentialId".to_owned(), id));
                proof {
                    assert(param_views(params@) =~= param_views(params@.drop_last()) + seq![
                        (("selectedCredentialId")@, idv),
                    ]);
                }
            },
            None => {},
        }
    }
    Ok(
        HttpRequest {
            method: FormMethod::POST,
            url: totp.action,
            form_params: params,
            cookie_header: jar.header(),
        },
    )
}

/// The id of the first offered device with the configured name.
fn find_device(devices: &Vec<MFADevice>, name: &str) -> (r: Option<String>)
    ensures
        match r {
            Some(id) => spec_find_device(
                crate::keycloak::form::device_views(devices@),
                name@,
                0,
            ) == Some(id@),
            None => spec_find_device(
                crate::keycloak::form::device_views(devices@),
                name@,
                0,
            ) is None,
        },
{
    let ghost dv = crate::keycloak::form::device_views(devices@);
    let mut i: usize = 0;
    while i < devices.len()
        invariant
            i <= devices@.len(),
            dv == crate::keycloak::form::device_views(devices@),
            spec_find_device(dv, name@, 0) == spec_find_device(dv, name@, i as int),
        decreases devices@.len() - i,
    {
        proof {
            assert(dv[i as int] == (devices@[i as int].name@, devices@[i as int].id@));
        }
        if str_eq(devices[i].name.as_str(), name) {
            return Some(devices[i].id.clone());
        }
        i += 1;
    }
    None
}

/// What a finished MFA exchange produced.
pub enum MfaOutcome {
    /// The base64 SAML response; no AWS page was requested.
    Assertion { saml_response: String },
    /// The post of the SAML response toward AWS, and the response
    /// value itself.
    SubmitAwsPage { request: HttpRequest, saml_response: String },
}

/// Consumes the response to the one-time-code post: merges cookies,
/// classifies the body, and extracts the SAML response from the
/// auto-submit page.  When `fetch_aws_page` is set, the follow-up
/// post toward AWS is built with the current cookies.
pub fn handle_mfa_response(jar: &mut CookieJar, resp: HttpResponse, fetch_aws_page: bool) -> (r:
    Result<MfaOutcome, KeycloakError>)
    ensures
        jar_view(*final(jar)) == spec_merge_cookies(
            jar_view(*old(jar)),
            str_views(resp.set_cookies@),
            0,
        ),
        match spec_classify(resp.body@) {
            Some(k) => match r {
                Err(e) => e.kind == k && e.description@ == spec_classify_message(k),
                Ok(_) => false,
            },
            None => if contains_seq(resp.body@, ("Invalid authenticator code")@) {
                match r {
                    Err(e) => e.kind == KeycloakErrorKind::InvalidToken,
                    Ok(_) => false,
                }
            } else {
                match (spec_from_html(resp.body@, ("form")@), spec_input_value(
                    resp.body@,
                    ("input[name=\"SAMLResponse\"]")@,
                )) {
                    (Some(fv), Some(Some(s))) => match r {
                        Ok(MfaOutcome::Assertion { saml_response }) => !fetch_aws_page
                            && saml_response@ == s,
                        Ok(MfaOutcome::SubmitAwsPage { request, saml_response }) => fetch_aws_page
                            && saml_response@ == s && request.method is POST && request.url@
                            == fv.1 && param_views(request.form_params@) == seq![
                            (("SAMLResponse")@, s),
                        ] && request.cookie_header@ == spec_cookie_header(jar_view(*final(jar))),
                        Err(_) => false,
                    },
                    (None, _) => match r {
                        Err(e) => e.kind == KeycloakErrorKind::FormNotFound,
                        Ok(_) => false,
                    },
                    (Some(_), _) => match r {
                        Err(e) => e.kind == KeycloakErrorKind::Io,
                        Ok(_) => false,
                    },
                }
            },
        },
{
    let body = match submit_form(jar, resp) {
        Err(e) => {
            return Err(e);
        },
        Ok(b) => b,
    };
    let (saml_response, aws_form) = match get_intermediate_response(body.as_str()) {
        Err(e) => {
            return Err(e);
        },
        Ok(t) => t,
    };
    if fetch_aws_page {
        let mut params: Vec<(String, String)> = Vec::new();
        params.push(("SAMLResponse".to_owned(), saml_response.clone()));
        proof {
            assert(param_views(params@) =~= seq![(("SAMLResponse")@, saml_response@)]);
        }
        let request = HttpRequest {
            method: FormMethod::POST,
            url: aws_form.action,
            form_params: params,
            cookie_header: jar.header(),
        };
        Ok(MfaOutcome::SubmitAwsPage { request, saml_response })
    } else {
        Ok(MfaOutcome::Assertion { saml_response })
    }
}

} // verus!
