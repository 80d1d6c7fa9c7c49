//! Discovery of the one-time-code form.

use vstd::prelude::*;
use crate::keycloak::form::{FormInfo, form_view, spec_from_html};
use crate::keycloak::{KeycloakError, KeycloakErrorKind};

verus! {

/// Locates the TOTP form on the page returned after submitting
/// credentials; its absence is a `FormNotFound` error.
pub fn get_totp_form(document: &str) -> (r: Result<FormInfo, KeycloakError>)
    ensures
        match r {
            Ok(f) => spec_from_html(document@, ("form#kc-totp-login-form")@) == Some(form_view(f)),
            Err(e) => spec_from_html(document@, ("form#kc-totp-login-form")@) is None && e.kind
                == KeycloakErrorKind::FormNotFound && e.description@ == (
            "Could not find TOTP form")@,
        },
{
    match FormInfo::from_html(document, "form#kc-totp-login-form") {
        Some(f) => Ok(f),
        None => Err(
            KeycloakError::new(KeycloakErrorKind::FormNotFound, "Could not find TOTP form"),
        ),
    }
}

} // verus!
