//! SAML assertion decoding.
//!
//! A base64 response from the identity provider is decoded into an
//! [`Assertion`]: the role session name, the session duration (3600
//! seconds when the attribute is absent), and the ordered list of
//! `Role` entries, each holding the role ARN, the principal ARN, and
//! the account id / role name derived by splitting the ARN on `:`.

pub mod xml;

use vstd::prelude::*;
use base64::Engine;
use crate::text::{
    match_at, spec_split, spec_num_val, all_digits, chars_of, string_from_chars, split_char,
    subvec, starts_with_chars, parse_decimal,
};
use crate::saml::xml::{spec_find_close_tag, spec_find_open_tag, spec_attributes, attr_views,
    find_open_tag, find_close_tag, collect_attributes};
use crate::text::{spec_find_char, find_char_from, chars_eq};

verus! {

/// One AWS role granted by an assertion.
#[derive(Debug)]
pub struct Role {
    pub arn: String,
    pub principal_arn: String,
    pub account_id: String,
    pub role_name: String,
}

/// A decoded SAML assertion, stripped to the fields the tool uses.
#[derive(Debug)]
pub struct Assertion {
    pub role_session_name: String,
    pub session_duration: i64,
    pub roles: Vec<Role>,
}

/// Why an assertion could not be decoded.
#[derive(Clone, Copy, Debug, PartialEq, Eq, Structural)]
pub enum SamlError {
    /// The input is not valid standard-alphabet base64.
    InvalidBase64,
    /// The decoded bytes are not UTF-8.
    InvalidUtf8,
    /// The document holds no complete `AttributeStatement` element.
    MissingAttributeStatement,
    /// A recognized attribute is malformed: a missing value, a
    /// non-numeric session duration, a role value without a comma, or
    /// a role ARN with fewer than six `:`-separated fields.
    MalformedAttribute,
}

/// Decoded bytes of a standard-alphabet base64 string, if valid.
pub uninterp spec fn spec_base64_decode(s: Seq<char>) -> Option<Seq<u8>>;

/// Relies on base64's `Engine::decode` with the standard engine: the
/// result is a function of the input characters alone, and decoding
/// fails exactly when the input is not valid base64.
#[verifier::external_body]
fn base64_decode(s: &str) -> (r: Option<Vec<u8>>)
    ensures
        match r {
            Some(b) => spec_base64_decode(s@) == Some(b@),
            None => spec_base64_decode(s@) is None,
        },
{
    base64::engine::general_purpose::STANDARD.decode(s).ok()
}

/// Relies on `String::from_utf8`: it succeeds exactly on valid UTF-8
/// and yields the characters that vstd's `decode_utf8` describes.
#[verifier::external_body]
fn utf8_to_string(b: Vec<u8>) -> (r: Option<String>)
    ensures
        match r {
            Some(t) => vstd::utf8::valid_utf8(b@) && t@ == vstd::utf8::decode_utf8(b@),
            None => !vstd::utf8::valid_utf8(b@),
        },
{
    String::from_utf8(b).ok()
}

/// The `role/` prefix stripped from the last ARN field, if present.
pub open spec fn spec_role_name_of(field: Seq<char>) -> Seq<char> {
    if match_at(field, ("role/")@, 0) {
        field.skip(("role/")@.len() as int)
    } else {
        field
    }
}

/// Account id and role name of a role ARN: the 5th and 6th
/// `:`-separated fields, with `role/` stripped from the 6th.
pub open spec fn spec_arn_info(arn: Seq<char>) -> Option<(Seq<char>, Seq<char>)> {
    let fields = spec_split(arn, ':');
    if fields.len() < 6 {
        None
    } else {
        Some((fields[4], spec_role_name_of(fields[5])))
    }
}

/// Splits a role ARN into account id and role name; `None` exactly
/// when the ARN has fewer than six `:`-separated fields.
pub fn arn_to_role_info(arn: &str) -> (r: Option<(String, String)>)
    ensures
        match r {
            Some(info) => spec_arn_info(arn@) == Some((info.0@, info.1@)),
            None => spec_arn_info(arn@) is None,
        },
{
    let cs = chars_of(arn);
    let fields = split_char(&cs, ':');
    if fields.len() < 6 {
        return None;
    }
    proof {
        assert(fields@.map_values(|v: Vec<char>| v@)[4] == fields@[4]@);
        assert(fields@.map_values(|v: Vec<char>| v@)[5] == fields@[5]@);
    }
    let account = string_from_chars(&fields[4]);
    let role_field = &fields[5];
    let prefix = chars_of("role/");
    let name_chars = if starts_with_chars(role_field, &prefix) {
        let r = subvec(role_field, prefix.len(), role_field.len());
        proof {
            assert(r@ =~= role_field@.skip(("role/")@.len() as int));
        }
        r
    } else {
        subvec(role_field, 0, role_field.len())
    };
    proof {
        assert(name_chars@ =~= spec_role_name_of(fields@[5]@));
    }
    let name = string_from_chars(&name_chars);
    Some((account, name))
}

/// The (role ARN, principal ARN) pair of one `Role` attribute value:
/// the first two comma-separated fields.
pub open spec fn spec_role_of_value(v: Seq<char>) -> Option<(Seq<char>, Seq<char>)> {
    let fields = spec_split(v, ',');
    if fields.len() < 2 {
        None
    } else {
        Some((fields[0], fields[1]))
    }
}

/// The (arn, principal) pairs decoded from the values of a `Role`
/// attribute, in order; `None` if any value is malformed.
pub open spec fn spec_decode_roles(vals: Seq<Seq<char>>, i: int) -> Option<
    Seq<(Seq<char>, Seq<char>)>,
>
    decreases vals.len() - i when 0 <= i
{
    if i >= vals.len() {
        Some(seq![])
    } else {
        match spec_role_of_value(vals[i]) {
            None => None,
            Some(rp) => if spec_arn_info(rp.0) is None {
                None
            } else {
                match spec_decode_roles(vals, i + 1) {
                    None => None,
                    Some(rest) => Some(seq![rp] + rest),
                }
            },
        }
    }
}

/// State-passing decode of an attribute list, starting from attribute
/// `i` with the session name, duration, and roles collected so far.
/// Later occurrences of `RoleSessionName` and `SessionDuration`
/// overwrite earlier ones; every `Role` attribute appends its values
/// in order; unrecognized attributes are ignored.
pub open spec fn spec_decode_attrs(
    attrs: Seq<(Seq<char>, Seq<Seq<char>>)>,
    i: int,
    rsn: Seq<char>,
    dur: int,
    roles: Seq<(Seq<char>, Seq<char>)>,
) -> Option<(Seq<char>, int, Seq<(Seq<char>, Seq<char>)>)>
    decreases attrs.len() - i when 0 <= i
{
    if i >= attrs.len() {
        Some((rsn, dur, roles))
    } else {
        let name = attrs[i].0;
        let vals = attrs[i].1;
        if name == ("RoleSessionName")@ {
            if vals.len() == 0 {
                None
            } else {
                spec_decode_attrs(attrs, i + 1, vals[0], dur, roles)
            }
        } else if name == ("SessionDuration")@ {
            if vals.len() == 0 {
                None
            } else if !(all_digits(vals[0]) && spec_num_val(vals[0]) <= i64::MAX) {
                None
            } else {
                spec_decode_attrs(attrs, i + 1, rsn, spec_num_val(vals[0]), roles)
            }
        } else if name == ("Role")@ {
            match spec_decode_roles(vals, 0) {
                None => None,
                Some(rs) => spec_decode_attrs(attrs, i + 1, rsn, dur, roles + rs),
            }
        } else {
            spec_decode_attrs(attrs, i + 1, rsn, dur, roles)
        }
    }
}

/// Decode of a whole attribute list: empty session name and a default
/// duration of 3600 seconds unless the attributes say otherwise.
pub open spec fn spec_decode(attrs: Seq<(Seq<char>, Seq<Seq<char>>)>) -> Option<(
    Seq<char>,
    int,
    Seq<(Seq<char>, Seq<char>)>,
)> {
    spec_decode_attrs(attrs, 0, Seq::empty(), 3600, Seq::empty())
}

/// The (arn, principal) views of decoded roles.
pub open spec fn role_views(roles: Seq<Role>) -> Seq<(Seq<char>, Seq<char>)> {
    roles.map_values(|r: Role| (r.arn@, r.principal_arn@))
}

/// Every role's account id and role name are derived from its ARN.
pub open spec fn roles_wf(roles: Seq<Role>) -> bool {
    forall|k: int| 0 <= k < roles.len() ==> spec_arn_info(#[trigger] roles[k].arn@) == Some(
        (roles[k].account_id@, roles[k].role_name@),
    )
}

/// `pre` prepended to the content of `o`, if any.
pub open spec fn opt_prepend(
    pre: Seq<(Seq<char>, Seq<char>)>,
    o: Option<Seq<(Seq<char>, Seq<char>)>>,
) -> Option<Seq<(Seq<char>, Seq<char>)>> {
    match o {
        None => None,
        Some(r) => Some(pre + r),
    }
}

/// Decodes a scanned attribute list into an assertion.
///
/// The decode is exactly [`spec_decode`]: an empty session name and a
/// duration of 3600 seconds unless attributes override them, with the
/// roles of every `Role` attribute in order of appearance, and an
/// error exactly when a recognized attribute is malformed.
#[verifier::loop_isolation(false)]
pub fn decode_attributes(attrs: &Vec<xml::Attribute>) -> (r: Result<Assertion, SamlError>)
    ensures
        match r {
            Ok(a) => spec_decode(attr_views(attrs@)) == Some(
                (a.role_session_name@, a.session_duration as int, role_views(a.roles@)),
            ) && roles_wf(a.roles@),
            Err(e) => spec_decode(attr_views(attrs@)) is None && e
                == SamlError::MalformedAttribute,
        },
{
    let name_rsn = chars_of("RoleSessionName");
    let name_dur = chars_of("SessionDuration");
    let name_role = chars_of("Role");
    let mut rsn: String = String::new();
    let mut dur: i64 = 3600;
    let mut roles: Vec<Role> = Vec::new();
    let ghost av = attr_views(attrs@);
    proof {
        assert(role_views(roles@) =~= Seq::<(Seq<char>, Seq<char>)>::empty());
    }
    let mut i: usize = 0;
    while i < attrs.len()
        invariant
            i <= attrs@.len(),
            av == attr_views(attrs@),
            name_rsn@ == ("RoleSessionName")@,
            name_dur@ == ("SessionDuration")@,
            name_role@ == ("Role")@,
            roles_wf(roles@),
            spec_decode(av) == spec_decode_attrs(av, i as int, rsn@, dur as int, role_views(
                roles@,
            )),
        decreases attrs@.len() - i,
    {
        proof {
            assert(av[i as int] == (attrs@[i as int].friendly_name@, crate::text::seq_views(
                attrs@[i as int].values@,
            )));
        }
        let a = &attrs[i];
        if chars_eq(&a.friendly_name, &name_rsn) {
            if a.values.len() == 0 {
                return Err(SamlError::MalformedAttribute);
            }
            proof {
                assert(crate::text::seq_views(attrs@[i as int].values@)[0] == attrs@[
                    i as int].values@[0]@);
            }
            rsn = string_from_chars(&a.values[0]);
        } else if chars_eq(&a.friendly_name, &name_dur) {
            if a.values.len() == 0 {
                return Err(SamlError::MalformedAttribute);
            }
            proof {
                assert(crate::text::seq_views(attrs@[i as int].values@)[0] == attrs@[
                    i as int].values@[0]@);
            }
            match parse_decimal(&a.values[0]) {
                None => {
                    return Err(SamlError::MalformedAttribute);
                },
                Some(d) => {
                    dur = d;
                },
            }
        } else if chars_eq(&a.friendly_name, &name_role) {
            let ghost sv = crate::text::seq_views(attrs@[i as int].values@);
            let mut new_roles: Vec<Role> = Vec::new();
            proof {
                assert(role_views(new_roles@) =~= Seq::<(Seq<char>, Seq<char>)>::empty());
                match spec_decode_roles(sv, 0) {
                    Some(x) => {
                        assert(Seq::<(Seq<char>, Seq<char>)>::empty() + x =~= x);
                    },
                    None => {},
                }
            }
            let mut j: usize = 0;
            while j < a.values.len()
                invariant
                    j <= a.values@.len(),
                    sv == crate::text::seq_views(a.values@),
                    roles_wf(new_roles@),
                    spec_decode_roles(sv, 0) == opt_prepend(role_views(new_roles@),
                        spec_decode_roles(sv, j as int)),
                decreases a.values@.len() - j,
            {
                proof {
                    assert(sv[j as int] == a.values@[j as int]@);
                }
                let fields = split_char(&a.values[j], ',');
                if fields.len() < 2 {
                    proof {
                        assert(spec_role_of_value(sv[j as int]) is None);
                        assert(spec_decode_roles(sv, j as int) is None);
                        assert(spec_decode_roles(sv, 0) is None);
                        assert(spec_decode_attrs(av, i as int, rsn@, dur as int, role_views(
                            roles@,
                        )) is None);
                        assert(spec_decode(av) is None);
                    }
                    return Err(SamlError::MalformedAttribute);
                }
                proof {
                    assert(crate::text::seq_views(fields@)[0] == fields@[0]@);
                    assert(crate::text::seq_views(fields@)[1] == fields@[1]@);
                }
                let arn = string_from_chars(&fields[0]);
                let principal = string_from_chars(&fields[1]);
                proof {
                    assert(spec_role_of_value(sv[j as int]) == Some((arn@, principal@)));
                }
                match arn_to_role_info(arn.as_str()) {
                    None => {
                        proof {
                            assert(spec_decode_roles(sv, j as int) is None);
                            assert(spec_decode_roles(sv, 0) is None);
                            assert(spec_decode_attrs(av, i as int, rsn@, dur as int, role_views(
                                roles@,
                            )) is None);
                            assert(spec_decode(av) is None);
                        }
                        return Err(SamlError::MalformedAttribute);
                    },
                    Some(info) => {
                        let ghost rv = (arn@, principal@);
                        new_roles.push(
                            Role {
                                arn,
                                principal_arn: principal,
                                account_id: info.0,
                                role_name: info.1,
                            },
                        );
                        proof {
                            let pre = role_views(new_roles@.drop_last());
                            assert(role_views(new_roles@) =~= pre + seq![rv]);
                            match spec_decode_roles(sv, j + 1) {
                                Some(rest) => {
                                    assert(spec_decode_roles(sv, j as int) == Some(
                                        seq![rv] + rest,
                                    ));
                                    assert((pre + seq![rv]) + rest =~= pre + (seq![rv] + rest));
                                },
                                None => {
                                    assert(spec_decode_roles(sv, j as int) is None);
                                },
                            }
                        }
                    },
                }
                j += 1;
            }
            proof {
                assert(spec_decode_roles(sv, sv.len() as int) == Some(Seq::<(
                    Seq<char>,
                    Seq<char>,
                )>::empty()));
                assert(role_views(new_roles@) + Seq::<(Seq<char>, Seq<char>)>::empty()
                    =~= role_views(new_roles@));
            }
            let ghost old_roles = roles@;
            let ghost nr = new_roles@;
            roles.append(&mut new_roles);
            proof {
                assert(roles@ == old_roles + nr);
                assert(role_views(roles@) =~= role_views(old_roles) + role_views(nr));
            }
        }
        i += 1;
    }
    Ok(Assertion { role_session_name: rsn, session_duration: dur, roles })
}

/// The attribute-statement region of a document: the positions just
/// after the `>` of the first `AttributeStatement` opening tag and of
/// its closing tag.
pub open spec fn spec_statement_region(doc: Seq<char>) -> Option<(int, int)> {
    match spec_find_open_tag(doc, ("AttributeStatement")@, 0) {
        None => None,
        Some(a) => match spec_find_char(doc, '>', a) {
            None => None,
            Some(gt) => match spec_find_close_tag(doc, ("AttributeStatement")@, gt) {
                None => None,
                Some(cl) => Some((gt + 1, cl)),
            },
        },
    }
}

/// The full decode pipeline over the views: base64, UTF-8, the
/// attribute-statement region, the attribute scan, and the decode.
pub open spec fn spec_parse_assertion(s: Seq<char>) -> Result<
    (Seq<char>, int, Seq<(Seq<char>, Seq<char>)>),
    SamlError,
> {
    match spec_base64_decode(s) {
        None => Err(SamlError::InvalidBase64),
        Some(bytes) => if !vstd::utf8::valid_utf8(bytes) {
            Err(SamlError::InvalidUtf8)
        } else {
            match spec_statement_region(vstd::utf8::decode_utf8(bytes)) {
                None => Err(SamlError::MissingAttributeStatement),
                Some(rg) => match spec_decode(
                    spec_attributes(vstd::utf8::decode_utf8(bytes), rg.0, rg.1),
                ) {
                    None => Err(SamlError::MalformedAttribute),
                    Some(t) => Ok(t),
                },
            }
        },
    }
}

/// Decodes a base64 SAML response into an [`Assertion`].
pub fn parse_assertion(assertion_b64: &str) -> (r: Result<Assertion, SamlError>)
    ensures
        match r {
            Ok(a) => spec_parse_assertion(assertion_b64@) == Ok::<_, SamlError>(
                (a.role_session_name@, a.session_duration as int, role_views(a.roles@)),
            ) && roles_wf(a.roles@),
            Err(e) => spec_parse_assertion(assertion_b64@) == Err::<
                (Seq<char>, int, Seq<(Seq<char>, Seq<char>)>),
                SamlError,
            >(e),
        },
{
    let bytes = match base64_decode(assertion_b64) {
        None => {
            return Err(SamlError::InvalidBase64);
        },
        Some(b) => b,
    };
    let text = match utf8_to_string(bytes) {
        None => {
            return Err(SamlError::InvalidUtf8);
        },
        Some(t) => t,
    };
    let cs = chars_of(text.as_str());
    let n = cs.len();
    let tag = chars_of("AttributeStatement");
    let a = match find_open_tag(&cs, &tag, 0) {
        None => {
            return Err(SamlError::MissingAttributeStatement);
        },
        Some(a) => a,
    };
    let gt = match find_char_from(&cs, '>', a) {
        None => {
            return Err(SamlError::MissingAttributeStatement);
        },
        Some(g) => g,
    };
    let cl = match find_close_tag(&cs, &tag, gt) {
        None => {
            return Err(SamlError::MissingAttributeStatement);
        },
        Some(c) => c,
    };
    let attrs = collect_attributes(&cs, gt + 1, cl);
    decode_attributes(&attrs)
}

/// Joins a role ARN and a principal ARN into one `Role` attribute
/// value, the inverse of [`spec_role_of_value`] on comma-free ARNs.
pub fn encode_role_value(arn: &str, principal: &str) -> (r: String)
    ensures
        r@ == arn@ + seq![','] + principal@,
{
    let mut v = chars_of(arn);
    v.push(',');
    let mut p = chars_of(principal);
    v.append(&mut p);
    proof {
        assert(v@ =~= arn@ + seq![','] + principal@);
    }
    string_from_chars(&v)
}

/// Law: splitting a well-formed role ARN recovers its account id and
/// role name.  For every ARN of the form `arn:aws:iam::<id>:role/<name>`
/// where the id and the name contain no `:`, ARN-splitting yields
/// exactly `(id, name)`.
pub proof fn lemma_arn_info_round_trip(id: Seq<char>, name: Seq<char>)
    requires
        forall|k: int| 0 <= k < id.len() ==> id[k] != ':',
        forall|k: int| 0 <= k < name.len() ==> name[k] != ':',
    ensures
        spec_arn_info(("arn:aws:iam::")@ + id + (":role/")@ + name) == Some((id, name)),
{
    reveal_strlit("arn:aws:iam::");
    reveal_strlit(":role/");
    reveal_strlit("role/");
    let pre = ("arn:aws:iam::")@;
    let mid = (":role/")@;
    let s = pre + id + mid + name;
    assert(pre.len() == 13);
    assert(mid.len() == 6);
    let p: int = 13 + id.len() as int;
    assert(s.len() == p + 6 + name.len());
    assert(forall|k: int| 0 <= k < 13 ==> s[k] == pre[k]);
    assert(forall|k: int| 13 <= k < p ==> s[k] == id[k - 13]);
    assert(forall|k: int| p <= k < p + 6 ==> s[k] == mid[k - p]);
    assert(forall|k: int| p + 6 <= k < s.len() ==> s[k] == name[k - p - 6]);
    assert(s[3] == ':' && s[7] == ':' && s[11] == ':' && s[12] == ':' && s[p] == ':');
    crate::text::lemma_find_char_at(s, ':', 0, 3);
    crate::text::lemma_find_char_at(s, ':', 4, 7);
    crate::text::lemma_find_char_at(s, ':', 8, 11);
    crate::text::lemma_find_char_at(s, ':', 12, 12);
    crate::text::lemma_find_char_at(s, ':', 13, p);
    crate::text::lemma_find_char_none(s, ':', p + 1);
    let f5 = s.subrange(p + 1, s.len() as int);
    assert(crate::text::spec_split_from(s, ':', p + 1) == seq![f5]);
    assert(crate::text::spec_split_from(s, ':', 13) == seq![s.subrange(13, p)]
        + crate::text::spec_split_from(s, ':', p + 1));
    assert(crate::text::spec_split_from(s, ':', 12) == seq![s.subrange(12, 12)]
        + crate::text::spec_split_from(s, ':', 13));
    assert(crate::text::spec_split_from(s, ':', 8) == seq![s.subrange(8, 11)]
        + crate::text::spec_split_from(s, ':', 12));
    assert(crate::text::spec_split_from(s, ':', 4) == seq![s.subrange(4, 7)]
        + crate::text::spec_split_from(s, ':', 8));
    assert(crate::text::spec_split_from(s, ':', 0) == seq![s.subrange(0, 3)]
        + crate::text::spec_split_from(s, ':', 4));
    let fields = spec_split(s, ':');
    assert(fields =~= seq![
        s.subrange(0, 3),
        s.subrange(4, 7),
        s.subrange(8, 11),
        s.subrange(12, 12),
        s.subrange(13, p),
        f5,
    ]);
    assert(fields[4] =~= id);
    assert(f5 =~= ("role/")@ + name);
    assert(f5.subrange(0, 5) =~= ("role/")@);
    assert(match_at(f5, ("role/")@, 0));
    assert(spec_role_name_of(f5) =~= name);
}

proof fn lemma_decode_no_role(
    attrs: Seq<(Seq<char>, Seq<Seq<char>>)>,
    i: int,
    rsn: Seq<char>,
    dur: int,
    roles: Seq<(Seq<char>, Seq<char>)>,
)
    requires
        0 <= i,
        forall|j: int| i <= j < attrs.len() ==> (#[trigger] attrs[j].0) != ("Role")@,
    ensures
        match spec_decode_attrs(attrs, i, rsn, dur, roles) {
            Some(t) => t.2 == roles,
            None => true,
        },
    decreases attrs.len() - i,
{
    if i < attrs.len() {
        let name = attrs[i].0;
        let vals = attrs[i].1;
        if name == ("RoleSessionName")@ {
            if vals.len() > 0 {
                lemma_decode_no_role(attrs, i + 1, vals[0], dur, roles);
            }
        } else if name == ("SessionDuration")@ {
            if vals.len() > 0 && all_digits(vals[0]) && spec_num_val(vals[0]) <= i64::MAX {
                lemma_decode_no_role(attrs, i + 1, rsn, spec_num_val(vals[0]), roles);
            }
        } else {
            lemma_decode_no_role(attrs, i + 1, rsn, dur, roles);
        }
    }
}

proof fn lemma_decode_single_role(
    attrs: Seq<(Seq<char>, Seq<Seq<char>>)>,
    i: int,
    rsn: Seq<char>,
    dur: int,
    roles: Seq<(Seq<char>, Seq<char>)>,
    k: int,
)
    requires
        0 <= i <= k < attrs.len(),
        attrs[k].0 == ("Role")@,
        forall|j: int| i <= j < attrs.len() && j != k ==> (#[trigger] attrs[j].0) != ("Role")@,
        spec_decode_attrs(attrs, i, rsn, dur, roles) is Some,
    ensures
        match (spec_decode_attrs(attrs, i, rsn, dur, roles), spec_decode_roles(attrs[k].1, 0)) {
            (Some(t), Some(rs)) => t.2 == roles + rs,
            (Some(t), None) => false,
            _ => true,
        },
    decreases attrs.len() - i,
{
    reveal_strlit("Role");
    reveal_strlit("RoleSessionName");
    reveal_strlit("SessionDuration");
    assert(("Role")@.len() == 4);
    assert(("RoleSessionName")@.len() == 15);
    assert(("SessionDuration")@.len() == 15);
    let name = attrs[i].0;
    let vals = attrs[i].1;
    if i == k {
        match spec_decode_roles(vals, 0) {
            Some(rs) => {
                lemma_decode_no_role(attrs, i + 1, rsn, dur, roles + rs);
                assert(spec_decode_attrs(attrs, i, rsn, dur, roles) == spec_decode_attrs(
                    attrs, i + 1, rsn, dur, roles + rs,
                ));
                assert(match spec_decode_attrs(attrs, i + 1, rsn, dur, roles + rs) {
                    Some(t) => t.2 == roles + rs,
                    None => false,
                });
            },
            None => {
                assert(spec_decode_attrs(attrs, i, rsn, dur, roles) is None);
            },
        }
    } else {
        if name == ("RoleSessionName")@ {
            assert(vals.len() > 0);
            lemma_decode_single_role(attrs, i + 1, vals[0], dur, roles, k);
            assert(spec_decode_attrs(attrs, i, rsn, dur, roles) == spec_decode_attrs(
                attrs, i + 1, vals[0], dur, roles,
            ));
        } else if name == ("SessionDuration")@ {
            lemma_decode_single_role(attrs, i + 1, rsn, spec_num_val(vals[0]), roles, k);
            assert(spec_decode_attrs(attrs, i, rsn, dur, roles) == spec_decode_attrs(
                attrs, i + 1, rsn, spec_num_val(vals[0]), roles,
            ));
        } else {
            lemma_decode_single_role(attrs, i + 1, rsn, dur, roles, k);
            assert(spec_decode_attrs(attrs, i, rsn, dur, roles) == spec_decode_attrs(
                attrs, i + 1, rsn, dur, roles,
            ));
        }
    }
}

/// Law: decoding preserves the order of `Role` attribute values.  If
/// the attribute list holds exactly one `Role` attribute and decoding
/// succeeds, the decoded roles are the pairwise decode of that
/// attribute's values, in their order of appearance.
pub proof fn lemma_roles_preserve_order(
    attrs: Seq<(Seq<char>, Seq<Seq<char>>)>,
    k: int,
    t: (Seq<char>, int, Seq<(Seq<char>, Seq<char>)>),
)
    requires
        0 <= k < attrs.len(),
        attrs[k].0 == ("Role")@,
        forall|j: int| 0 <= j < attrs.len() && j != k ==> (#[trigger] attrs[j].0) != ("Role")@,
        spec_decode(attrs) == Some(t),
    ensures
        spec_decode_roles(attrs[k].1, 0) == Some(t.2),
{
    lemma_decode_single_role(attrs, 0, Seq::empty(), 3600, Seq::empty(), k);
    match spec_decode_roles(attrs[k].1, 0) {
        Some(rs) => {
            assert(Seq::<(Seq<char>, Seq<char>)>::empty() + rs =~= rs);
        },
        None => {},
    }
}

proof fn lemma_decode_duration_preserved(
    attrs: Seq<(Seq<char>, Seq<Seq<char>>)>,
    i: int,
    rsn: Seq<char>,
    dur: int,
    roles: Seq<(Seq<char>, Seq<char>)>,
)
    requires
        0 <= i,
        forall|j: int| i <= j < attrs.len() ==> (#[trigger] attrs[j].0) != ("SessionDuration")@,
    ensures
        match spec_decode_attrs(attrs, i, rsn, dur, roles) {
            Some(t) => t.1 == dur,
            None => true,
        },
    decreases attrs.len() - i,
{
    if i < attrs.len() {
        let name = attrs[i].0;
        let vals = attrs[i].1;
        if name == ("RoleSessionName")@ {
            if vals.len() > 0 {
                lemma_decode_duration_preserved(attrs, i + 1, vals[0], dur, roles);
            }
        } else if name == ("Role")@ {
            match spec_decode_roles(vals, 0) {
                Some(rs) => {
                    lemma_decode_duration_preserved(attrs, i + 1, rsn, dur, roles + rs);
                },
                None => {},
            }
        } else {
            lemma_decode_duration_preserved(attrs, i + 1, rsn, dur, roles);
        }
    }
}

/// Law: when no `SessionDuration` attribute is present, a decoded
/// assertion's session duration is 3600 seconds.
pub proof fn lemma_session_duration_default(
    attrs: Seq<(Seq<char>, Seq<Seq<char>>)>,
    t: (Seq<char>, int, Seq<(Seq<char>, Seq<char>)>),
)
    requires
        forall|j: int| 0 <= j < attrs.len() ==> (#[trigger] attrs[j].0) != ("SessionDuration")@,
        spec_decode(attrs) == Some(t),
    ensures
        t.1 == 3600,
{
    lemma_decode_duration_preserved(attrs, 0, Seq::empty(), 3600, Seq::empty());
}

/// Law: a single `Role` attribute value round-trips.  Joining two
/// comma-free ARNs with a comma and decoding the value back yields
/// the original pair.
pub proof fn lemma_role_value_round_trip(arn: Seq<char>, principal: Seq<char>)
    requires
        forall|k: int| 0 <= k < arn.len() ==> arn[k] != ',',
        forall|k: int| 0 <= k < principal.len() ==> principal[k] != ',',
    ensures
        spec_role_of_value(arn + seq![','] + principal) == Some((arn, principal)),
{
    let s = arn + seq![','] + principal;
    let p: int = arn.len() as int;
    assert(s[p] == ',');
    assert(forall|k: int| 0 <= k < p ==> s[k] == arn[k]);
    assert(forall|k: int| p < k < s.len() ==> s[k] == principal[k - p - 1]);
    crate::text::lemma_find_char_at(s, ',', 0, p);
    crate::text::lemma_find_char_none(s, ',', p + 1);
    assert(crate::text::spec_split_from(s, ',', p + 1) == seq![s.subrange(p + 1, s.len() as int)]);
    assert(crate::text::spec_split_from(s, ',', 0) == seq![s.subrange(0, p)]
        + crate::text::spec_split_from(s, ',', p + 1));
    let fields = spec_split(s, ',');
    assert(fields =~= seq![s.subrange(0, p), s.subrange(p + 1, s.len() as int)]);
    assert(fields[0] =~= arn);
    assert(fields[1] =~= principal);
}

proof fn lemma_decode_encoded_roles(pairs: Seq<(Seq<char>, Seq<char>)>, vals: Seq<Seq<char>>, i: int)
    requires
        0 <= i <= pairs.len(),
        vals.len() == pairs.len(),
        forall|k: int| 0 <= k < pairs.len() ==> #[trigger] vals[k] == pairs[k].0 + seq![',']
            + pairs[k].1,
        forall|k: int, c: int| #![trigger pairs[k].0[c]] 0 <= k < pairs.len() && 0 <= c
            < pairs[k].0.len() ==> pairs[k].0[c] != ',',
        forall|k: int, c: int| #![trigger pairs[k].1[c]] 0 <= k < pairs.len() && 0 <= c
            < pairs[k].1.len() ==> pairs[k].1[c] != ',',
        forall|k: int| 0 <= k < pairs.len() ==> spec_arn_info(#[trigger] pairs[k].0) is Some,
    ensures
        spec_decode_roles(vals, i) == Some(pairs.skip(i)),
    decreases pairs.len() - i,
{
    if i == pairs.len() {
        assert(pairs.skip(i) =~= Seq::<(Seq<char>, Seq<char>)>::empty());
    } else {
        lemma_role_value_round_trip(pairs[i].0, pairs[i].1);
        assert(spec_role_of_value(vals[i]) == Some((pairs[i].0, pairs[i].1)));
        lemma_decode_encoded_roles(pairs, vals, i + 1);
        assert(seq![(pairs[i].0, pairs[i].1)] + pairs.skip(i + 1) =~= pairs.skip(i));
    }
}

/// Law: encoding a list of (role ARN, principal ARN) pairs into SAML
/// `Role` attribute values and decoding them back yields the original
/// pairs in their original order.  The ARNs must be comma-free and
/// each role ARN must be splittable (at least six `:` fields).
pub proof fn lemma_role_values_round_trip(pairs: Seq<(Seq<char>, Seq<char>)>)
    requires
        forall|k: int, c: int| #![trigger pairs[k].0[c]] 0 <= k < pairs.len() && 0 <= c
            < pairs[k].0.len() ==> pairs[k].0[c] != ',',
        forall|k: int, c: int| #![trigger pairs[k].1[c]] 0 <= k < pairs.len() && 0 <= c
            < pairs[k].1.len() ==> pairs[k].1[c] != ',',
        forall|k: int| 0 <= k < pairs.len() ==> spec_arn_info(#[trigger] pairs[k].0) is Some,
    ensures
        spec_decode_roles(
            pairs.map_values(|p: (Seq<char>, Seq<char>)| p.0 + seq![','] + p.1),
            0,
        ) == Some(pairs),
{
    let vals = pairs.map_values(|p: (Seq<char>, Seq<char>)| p.0 + seq![','] + p.1);
    lemma_decode_encoded_roles(pairs, vals, 0);
    assert(pairs.skip(0) =~= pairs);
}

} // verus!
