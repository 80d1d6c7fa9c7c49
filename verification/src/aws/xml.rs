//! The STS `AssumeRoleWithSAML` response model, and extraction of its
//! fields from the response XML.

use vstd::prelude::*;
use crate::saml::xml::{spec_find_open_tag, find_open_tag};
use crate::text::{spec_find_char, find_char_from, subvec};

verus! {

/// The temporary credentials of one successful assume-role call.
#[derive(Debug, Clone)]
pub struct Credentials {
    pub access_key_id: String,
    pub secret_access_key: String,
    pub session_token: String,
    pub expiration: String,
}

/// The assumed-role-user element of the response.
#[derive(Debug)]
pub struct AssumedRoleUser {
    pub arn: String,
}

/// The response metadata element.
#[derive(Debug)]
pub struct ResponseMetadata {
    pub request_id: String,
}

/// One element of the assume-role result.
#[derive(Debug)]
pub enum AssumeRoleResult {
    Audience(String),
    AssumedRoleUser(Vec<AssumedRoleUser>),
    Subject(String),
    NameQualifier(String),
    SubjectType(String),
    Issuer(String),
    Credentials(Credentials),
    ResponseMetadata(Vec<ResponseMetadata>),
    RequestId(String),
}

/// The text of the first element with local name `name`: the
/// characters between the `>` of its opening tag and the next `<`.
pub open spec fn spec_tag_text(s: Seq<char>, name: Seq<char>) -> Option<Seq<char>> {
    match spec_find_open_tag(s, name, 0) {
        None => None,
        Some(a) => match spec_find_char(s, '>', a) {
            None => None,
            Some(gt) => match spec_find_char(s, '<', gt + 1) {
                None => None,
                Some(lt) => Some(s.subrange(gt + 1, lt)),
            },
        },
    }
}

/// Extracts the text of the first element with local name `name`.
pub fn extract_tag_text(s: &Vec<char>, name: &Vec<char>) -> (r: Option<Vec<char>>)
    ensures
        match r {
            Some(t) => spec_tag_text(s@, name@) == Some(t@),
            None => spec_tag_text(s@, name@) is None,
        },
{
    let n = s.len();
    let a = match find_open_tag(s, name, 0) {
        None => {
            return None;
        },
        Some(a) => a,
    };
    let gt = match find_char_from(s, '>', a) {
        None => {
            return None;
        },
        Some(g) => g,
    };
    let lt = match find_char_from(s, '<', gt + 1) {
        None => {
            return None;
        },
        Some(l) => l,
    };
    Some(subvec(s, gt + 1, lt))
}

} // verus!
