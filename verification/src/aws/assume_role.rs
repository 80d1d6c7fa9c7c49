//! The assume-role client: builds the STS `AssumeRoleWithSAML` call
//! and reads the credentials out of its XML response.

use vstd::prelude::*;
use crate::aws::AwsError;
use crate::aws::xml::{Credentials, extract_tag_text, spec_tag_text};
use crate::keycloak::login::param_views;
use crate::text::{chars_of, string_from_chars, push_dec, spec_dec, spec_i64_str, i64_string};

verus! {

/// A prepared STS request: the endpoint, the query parameters, and
/// the form body.
pub struct StsRequest {
    pub url: String,
    pub query: Vec<(String, String)>,
    pub form: Vec<(String, String)>,
}

/// The effective session duration of a call: the caller's duration if
/// given, else 3600 seconds.
pub open spec fn spec_duration(session_duration: Option<i64>) -> int {
    match session_duration {
        Some(d) => d as int,
        None => 3600,
    }
}

/// The endpoint view: the configured one, or the public STS endpoint.
pub open spec fn spec_endpoint(sts_endpoint: Option<Seq<char>>) -> Seq<char> {
    match sts_endpoint {
        Some(e) => e,
        None => ("https://sts.amazonaws.com/")@,
    }
}

/// The view of an optional endpoint argument.
pub open spec fn opt_endpoint_view(o: Option<&str>) -> Option<Seq<char>> {
    match o {
        Some(s) => Some(s@),
        None => None,
    }
}

/// Builds the `AssumeRoleWithSAML` request for one role: version and
/// action as query parameters, and the principal ARN, role ARN, raw
/// assertion and duration as the form body.
pub fn build_assume_role_request(
    arn: &str,
    principal: &str,
    saml_assertion: &str,
    session_duration: Option<i64>,
    sts_endpoint: Option<&str>,
) -> (r: StsRequest)
    ensures
        r.url@ == spec_endpoint(opt_endpoint_view(sts_endpoint)),
        param_views(r.query@) == seq![
            (("Version")@, ("2011-06-15")@),
            (("Action")@, ("AssumeRoleWithSAML")@),
        ],
        param_views(r.form@) == seq![
            (("PrincipalArn")@, principal@),
            (("RoleArn")@, arn@),
            (("SAMLAssertion")@, saml_assertion@),
            (("DurationSeconds")@, spec_i64_str(spec_duration(session_duration))),
        ],
{
    let url = match sts_endpoint {
        Some(e) => e.to_owned(),
        None => "https://sts.amazonaws.com/".to_owned(),
    };
    let mut query: Vec<(String, String)> = Vec::new();
    query.push(("Version".to_owned(), "2011-06-15".to_owned()));
    query.push(("Action".to_owned(), "AssumeRoleWithSAML".to_owned()));
    proof {
        assert(param_views(query@) =~= seq![
            (("Version")@, ("2011-06-15")@),
            (("Action")@, ("AssumeRoleWithSAML")@),
        ]);
    }
    let duration: i64 = match session_duration {
        Some(d) => d,
        None => 3600,
    };
    let mut form: Vec<(String, String)> = Vec::new();
    form.push(("PrincipalArn".to_owned(), principal.to_owned()));
    form.push(("RoleArn".to_owned(), arn.to_owned()));
    form.push(("SAMLAssertion".to_owned(), saml_assertion.to_owned()));
    form.push(("DurationSeconds".to_owned(), i64_string(duration)));
    proof {
        assert(param_views(form@) =~= seq![
            (("PrincipalArn")@, principal@),
            (("RoleArn")@, arn@),
            (("SAMLAssertion")@, saml_assertion@),
            (("DurationSeconds")@, spec_i64_str(spec_duration(session_duration))),
        ]);
    }
    StsRequest { url, query, form }
}

/// Reads the credentials out of an STS response: a non-200 status or
/// a response missing any credential field is an error for this one
/// account only.
pub fn assume_role_response(status: u16, body: &str) -> (r: Result<Credentials, AwsError>)
    ensures
        ({
            if status != 200 {
                match r {
                    Err(e) => e.description@ == ("sts assume role returned ")@ + spec_dec(
                        status as nat,
                    ),
                    Ok(_) => false,
                }
            } else {
                match (
                    spec_tag_text(body@, ("AccessKeyId")@),
                    spec_tag_text(body@, ("SecretAccessKey")@),
                    spec_tag_text(body@, ("SessionToken")@),
                    spec_tag_text(body@, ("Expiration")@),
                ) {
                    (Some(ak), Some(sk), Some(st), Some(ex)) => match r {
                        Ok(c) => c.access_key_id@ == ak && c.secret_access_key@ == sk
                            && c.session_token@ == st && c.expiration@ == ex,
                        Err(_) => false,
                    },
                    _ => match r {
                        Err(e) => e.description@ == (
                        "Could not parse credentials from the STS response")@,
                        Ok(_) => false,
                    },
                }
            }
        }),
{
    if status != 200 {
        let mut msg = chars_of("sts assume role returned ");
        push_dec(&mut msg, status as u64);
        let text = string_from_chars(&msg);
        return Err(AwsError::new(text.as_str()));
    }
    let cs = chars_of(body);
    let ak = extract_tag_text(&cs, &chars_of("AccessKeyId"));
    let sk = extract_tag_text(&cs, &chars_of("SecretAccessKey"));
    let st = extract_tag_text(&cs, &chars_of("SessionToken"));
    let ex = extract_tag_text(&cs, &chars_of("Expiration"));
    match (ak, sk, st, ex) {
        (Some(ak), Some(sk), Some(st), Some(ex)) => Ok(
            Credentials {
                access_key_id: string_from_chars(&ak),
                secret_access_key: string_from_chars(&sk),
                session_token: string_from_chars(&st),
                expiration: string_from_chars(&ex),
            },
        ),
        _ => Err(AwsError::new("Could not parse credentials from the STS response")),
    }
}

} // verus!
