use base64::Engine;
use saml2aws_auto::saml::{arn_to_role_info, decode_attributes, encode_role_value, parse_assertion,
    SamlError};
use saml2aws_auto::saml::xml::Attribute;

fn b64(s: &str) -> String {
    base64::engine::general_purpose::STANDARD.encode(s)
}

fn chars(s: &str) -> Vec<char> {
    s.chars().collect()
}

const ASSERTION_XML: &str = "<samlp:Response xmlns:samlp=\"urn:oasis:names:tc:SAML:2.0:protocol\">\
<saml:Assertion xmlns:saml=\"urn:oasis:names:tc:SAML:2.0:assertion\">\
<saml:AttributeStatement>\
<saml:Attribute FriendlyName=\"RoleSessionName\" Name=\"https://aws.amazon.com/SAML/Attributes/RoleSessionName\">\
<saml:AttributeValue xsi:type=\"xs:string\">john.doe</saml:AttributeValue>\
</saml:Attribute>\
<saml:Attribute FriendlyName=\"Role\" Name=\"https://aws.amazon.com/SAML/Attributes/Role\">\
<saml:AttributeValue>arn:aws:iam::111111111111:role/Dev,arn:aws:iam::111111111111:saml-provider/idp</saml:AttributeValue>\
<saml:AttributeValue>arn:aws:iam::222222222222:role/Ops,arn:aws:iam::222222222222:saml-provider/idp</saml:AttributeValue>\
</saml:Attribute>\
</saml:AttributeStatement>\
</saml:Assertion>\
</samlp:Response>";

#[test]
fn arn_to_role_info_returns_account_id() {
    let given = "arn:aws:iam::123456789012:role/ARoleName";

    let (account_id, _) = arn_to_role_info(given).unwrap();

    assert_eq!(account_id, "123456789012");
}

#[test]
fn arn_to_role_info_returns_role_name() {
    let given = "arn:aws:iam::123456789012:role/ARoleName";

    let (_, role_name) = arn_to_role_info(given).unwrap();

    assert_eq!(role_name, "ARoleName");
}

#[test]
fn arn_with_too_few_fields_is_rejected() {
    assert!(arn_to_role_info("arn:aws:iam:rest").is_none());
}

#[test]
fn parse_assertion_reads_all_fields() {
    let a = parse_assertion(&b64(ASSERTION_XML)).unwrap();
    assert_eq!(a.role_session_name, "john.doe");
    assert_eq!(a.session_duration, 3600);
    assert_eq!(a.roles.len(), 2);
    assert_eq!(a.roles[0].arn, "arn:aws:iam::111111111111:role/Dev");
    assert_eq!(a.roles[0].principal_arn, "arn:aws:iam::111111111111:saml-provider/idp");
    assert_eq!(a.roles[0].account_id, "111111111111");
    assert_eq!(a.roles[0].role_name, "Dev");
    assert_eq!(a.roles[1].arn, "arn:aws:iam::222222222222:role/Ops");
    assert_eq!(a.roles[1].account_id, "222222222222");
}

#[test]
fn parse_assertion_roles_preserve_order() {
    let xml = "<AttributeStatement>\
<Attribute FriendlyName=\"Role\">\
<AttributeValue>arnA:b:c:d:e:role/A,principalA</AttributeValue>\
<AttributeValue>arnB:b:c:d:e:role/B,principalB</AttributeValue>\
</Attribute></AttributeStatement>";
    let a = parse_assertion(&b64(xml)).unwrap();
    assert_eq!(a.roles.len(), 2);
    assert_eq!(a.roles[0].arn, "arnA:b:c:d:e:role/A");
    assert_eq!(a.roles[0].principal_arn, "principalA");
    assert_eq!(a.roles[1].arn, "arnB:b:c:d:e:role/B");
    assert_eq!(a.roles[1].principal_arn, "principalB");
}

#[test]
fn parse_assertion_session_duration_defaults_to_3600() {
    let xml = "<AttributeStatement><Attribute FriendlyName=\"Other\">\
<AttributeValue>x</AttributeValue></Attribute></AttributeStatement>";
    let a = parse_assertion(&b64(xml)).unwrap();
    assert_eq!(a.session_duration, 3600);
}

#[test]
fn parse_assertion_reads_session_duration() {
    let xml = "<AttributeStatement><Attribute FriendlyName=\"SessionDuration\">\
<AttributeValue>28800</AttributeValue></Attribute></AttributeStatement>";
    let a = parse_assertion(&b64(xml)).unwrap();
    assert_eq!(a.session_duration, 28800);
}

#[test]
fn parse_assertion_rejects_invalid_base64() {
    assert_eq!(parse_assertion("!!!not-base64!!!").unwrap_err(), SamlError::InvalidBase64);
}

#[test]
fn parse_assertion_rejects_invalid_utf8() {
    let bad = base64::engine::general_purpose::STANDARD.encode([0xffu8, 0xfe, 0xfd]);
    assert_eq!(parse_assertion(&bad).unwrap_err(), SamlError::InvalidUtf8);
}

#[test]
fn parse_assertion_requires_attribute_statement() {
    assert_eq!(
        parse_assertion(&b64("<Response><Assertion/></Response>")).unwrap_err(),
        SamlError::MissingAttributeStatement
    );
}

#[test]
fn parse_assertion_rejects_role_value_without_comma() {
    let xml = "<AttributeStatement><Attribute FriendlyName=\"Role\">\
<AttributeValue>no-comma-here</AttributeValue></Attribute></AttributeStatement>";
    assert_eq!(parse_assertion(&b64(xml)).unwrap_err(), SamlError::MalformedAttribute);
}

#[test]
fn parse_assertion_rejects_non_numeric_duration() {
    let xml = "<AttributeStatement><Attribute FriendlyName=\"SessionDuration\">\
<AttributeValue>soon</AttributeValue></Attribute></AttributeStatement>";
    assert_eq!(parse_assertion(&b64(xml)).unwrap_err(), SamlError::MalformedAttribute);
}

#[test]
fn decode_attributes_keeps_role_order() {
    let attrs = vec![Attribute {
        friendly_name: chars("Role"),
        values: vec![
            chars("arn:aws:iam::111111111111:role/A,principal1"),
            chars("arn:aws:iam::222222222222:role/B,principal2"),
        ],
    }];
    let a = decode_attributes(&attrs).unwrap();
    assert_eq!(a.roles.len(), 2);
    assert_eq!(a.roles[0].arn, "arn:aws:iam::111111111111:role/A");
    assert_eq!(a.roles[1].arn, "arn:aws:iam::222222222222:role/B");
}

#[test]
fn role_values_round_trip() {
    let pairs = [
        ("arn:aws:iam::123456789012:role/Admin", "arn:aws:iam::123456789012:saml-provider/idp"),
        ("arn:aws:iam::210987654321:role/Dev", "arn:aws:iam::210987654321:saml-provider/idp"),
    ];
    let values: Vec<Vec<char>> =
        pairs.iter().map(|(a, p)| encode_role_value(a, p).chars().collect()).collect();
    let attrs = vec![Attribute { friendly_name: chars("Role"), values }];
    let decoded = decode_attributes(&attrs).unwrap();
    assert_eq!(decoded.roles.len(), 2);
    for (i, (a, p)) in pairs.iter().enumerate() {
        assert_eq!(&decoded.roles[i].arn, a);
        assert_eq!(&decoded.roles[i].principal_arn, p);
    }
}

#[test]
fn role_name_strips_only_the_leading_prefix() {
    let (_, role_name) = arn_to_role_info("arn:aws:iam::123456789012:role/role/Nested").unwrap();
    assert_eq!(role_name, "role/Nested");
}

#[test]
fn parse_assertion_rejects_oversized_duration() {
    let xml = "<AttributeStatement><Attribute FriendlyName=\"SessionDuration\">\
<AttributeValue>99999999999999999999</AttributeValue></Attribute></AttributeStatement>";
    assert_eq!(parse_assertion(&b64(xml)).unwrap_err(), SamlError::MalformedAttribute);
}

#[test]
fn later_attributes_overwrite_earlier_ones() {
    let xml = "<AttributeStatement>\
<Attribute FriendlyName=\"RoleSessionName\"><AttributeValue>first</AttributeValue></Attribute>\
<Attribute FriendlyName=\"RoleSessionName\"><AttributeValue>second</AttributeValue></Attribute>\
</AttributeStatement>";
    let a = parse_assertion(&b64(xml)).unwrap();
    assert_eq!(a.role_session_name, "second");
}
