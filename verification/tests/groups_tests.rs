use base64::Engine;
use saml2aws_auto::aws::{extract_saml_accounts, AWSAccountInfo};
use saml2aws_auto::config::{Account, Group};
use saml2aws_auto::groups::{get_accounts_by_names, get_accounts_prefixed_by, upsert_group};
use saml2aws_auto::roles::parse_role_response;
use saml2aws_auto::update::{compare_version, VersionComparison, VersionInfo};

fn infos() -> Vec<AWSAccountInfo> {
    vec![
        AWSAccountInfo {
            name: "team-dev".to_string(),
            arn: "arn:aws:iam::1:role/Administrator".to_string(),
        },
        AWSAccountInfo {
            name: "team-prod".to_string(),
            arn: "arn:aws:iam::2:role/ReadOnly".to_string(),
        },
        AWSAccountInfo {
            name: "other-dev".to_string(),
            arn: "arn:aws:iam::3:role/Administrator".to_string(),
        },
    ]
}

#[test]
fn accounts_prefixed_by_filters_name_and_role() {
    let picked = get_accounts_prefixed_by(&infos(), "team-", "Administrator");
    assert_eq!(picked.len(), 1);
    assert_eq!(picked[0].name, "team-dev");
    assert_eq!(picked[0].arn, "arn:aws:iam::1:role/Administrator");
    assert_eq!(picked[0].valid_until, None);
}

#[test]
fn accounts_by_names_filters_listed_names() {
    let names = vec!["other-dev".to_string(), "team-prod".to_string()];
    let picked = get_accounts_by_names(&infos(), &names, "Administrator");
    assert_eq!(picked.len(), 1);
    assert_eq!(picked[0].name, "other-dev");
}

#[test]
fn upsert_creates_a_new_group() {
    let accounts = vec![Account {
        name: "a".to_string(),
        arn: "arn".to_string(),
        valid_until: None,
    }];
    let g = upsert_group(None, Some(28800), None, accounts, false);
    assert_eq!(g.session_duration, Some(28800));
    assert_eq!(g.accounts.len(), 1);
}

#[test]
fn upsert_append_keeps_existing_accounts() {
    let existing = Group {
        session_duration: Some(3600),
        sts_endpoint: Some("https://sts.example.com/".to_string()),
        accounts: vec![Account {
            name: "a".to_string(),
            arn: "old-arn".to_string(),
            valid_until: Some(42),
        }],
    };
    let fresh = vec![
        Account { name: "a".to_string(), arn: "new-arn".to_string(), valid_until: None },
        Account { name: "b".to_string(), arn: "b-arn".to_string(), valid_until: None },
    ];
    let g = upsert_group(Some(existing), None, None, fresh, true);
    assert_eq!(g.accounts.len(), 2);
    assert_eq!(g.accounts[0].name, "a");
    assert_eq!(g.accounts[0].arn, "old-arn");
    assert_eq!(g.accounts[0].valid_until, Some(42));
    assert_eq!(g.accounts[1].name, "b");
    // an omitted endpoint resets a previously configured one
    assert_eq!(g.sts_endpoint, None);
}

#[test]
fn upsert_replace_swaps_accounts() {
    let existing = Group {
        session_duration: None,
        sts_endpoint: None,
        accounts: vec![Account {
            name: "a".to_string(),
            arn: "old-arn".to_string(),
            valid_until: None,
        }],
    };
    let fresh = vec![Account {
        name: "c".to_string(),
        arn: "c-arn".to_string(),
        valid_until: None,
    }];
    let g = upsert_group(Some(existing), None, None, fresh, false);
    assert_eq!(g.accounts.len(), 1);
    assert_eq!(g.accounts[0].name, "c");
}

#[test]
fn test_parse_role_response() {
    let output = "Using IDP Account default to access KeyCloak https://example.com/protocol/saml/clients/aws
? Security Token [000000] 123568

Account: example-account-dev (123456890)
arn:aws:iam::1234567890:role/Administrator";

    let res = parse_role_response(output);

    assert_eq!(res.len(), 1);
    assert_eq!(res[0].name, "example-account-dev");
    assert_eq!(res[0].id, "123456890");
    assert_eq!(res[0].arn, "arn:aws:iam::1234567890:role/Administrator");
}

#[test]
fn compare_version_detects_newer_release() {
    let newer = VersionInfo { tag_name: "1.2.3".to_string() };
    assert_eq!(compare_version(&newer, "1.2.2"), Some(VersionComparison::HasNewer));
    let same = VersionInfo { tag_name: "1.2.2".to_string() };
    assert_eq!(compare_version(&same, "1.2.2"), Some(VersionComparison::IsSame));
    let older = VersionInfo { tag_name: "1.0.0".to_string() };
    assert_eq!(compare_version(&older, "1.2.2"), Some(VersionComparison::IsSame));
    let unparsable = VersionInfo { tag_name: "not-a-version".to_string() };
    assert_eq!(compare_version(&unparsable, "1.2.2"), None);
}

const ROLE_PAGE: &str = "<html><body><fieldset>\
<div class=\"saml-account\">\
<div class=\"saml-account-name\">Account: example-account-dev (123456890)</div>\
<div class=\"saml-role\">\
<label class=\"saml-role-description\" for=\"arn:aws:iam::1234567890:role/Administrator\">Administrator</label>\
</div></div></fieldset></body></html>";

#[test]
fn extract_saml_accounts_reads_role_page() {
    let accounts = extract_saml_accounts(ROLE_PAGE, "unused").unwrap();
    assert_eq!(accounts.len(), 1);
    assert_eq!(accounts[0].name, "example-account-dev");
    assert_eq!(accounts[0].arn, "arn:aws:iam::1234567890:role/Administrator");
}

#[test]
fn extract_saml_accounts_falls_back_to_the_assertion() {
    let xml = "<AttributeStatement><Attribute FriendlyName=\"Role\">\
<AttributeValue>arn:aws:iam::123456789012:role/Solo,arn:aws:iam::123456789012:saml-provider/idp</AttributeValue>\
</Attribute></AttributeStatement>";
    let b64 = base64::engine::general_purpose::STANDARD.encode(xml);
    let accounts = extract_saml_accounts("<html><body>no accounts</body></html>", &b64).unwrap();
    assert_eq!(accounts.len(), 1);
    assert_eq!(accounts[0].name, "123456789012");
    assert_eq!(accounts[0].arn, "arn:aws:iam::123456789012:role/Solo");
}

#[test]
fn extract_saml_accounts_with_nothing_anywhere_is_an_error() {
    let xml = "<AttributeStatement><Attribute FriendlyName=\"Other\">\
<AttributeValue>x</AttributeValue></Attribute></AttributeStatement>";
    let b64 = base64::engine::general_purpose::STANDARD.encode(xml);
    let e = extract_saml_accounts("<html/>", &b64).unwrap_err();
    assert_eq!(e.description, "No role was found in the HTML or SAML Assertion");
}
