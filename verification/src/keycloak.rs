//! Keycloak login: error classification, form discovery, and the
//! stepwise login state machine.

pub mod form;
pub mod login;
pub mod mfa;

use vstd::prelude::*;

verus! {

/// What went wrong during a login pass.
#[derive(Clone, Copy, Debug, PartialEq, Eq, Structural)]
pub enum KeycloakErrorKind {
    Io,
    Http,
    InvalidCredentials,
    InvalidToken,
    InvalidMFADevice,
    InvalidForm,
    FormNotFound,
    PasswordUpdateRequired,
    TermsAndConditionsNotAccepted,
}

/// A login failure: a machine-checkable kind plus a human message.
#[derive(Clone, Debug)]
pub struct KeycloakError {
    pub kind: KeycloakErrorKind,
    pub description: String,
}

impl KeycloakError {
    /// A new error of the given kind carrying `message`.
    pub fn new(kind: KeycloakErrorKind, message: &str) -> (r: Self)
        ensures
            r.kind == kind,
            r.description@ == message@,
    {
        KeycloakError { kind, description: message.to_owned() }
    }

    /// The human-readable message.
    pub fn message(&self) -> (r: String)
        ensures
            r@ == self.description@,
    {
        self.description.clone()
    }
}

} // verus!
