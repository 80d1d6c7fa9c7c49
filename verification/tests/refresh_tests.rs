use saml2aws_auto::aws::assume_role::{assume_role_response, build_assume_role_request};
use saml2aws_auto::aws::xml::Credentials;
use saml2aws_auto::config::{minutes_remaining, Account, Group};
use saml2aws_auto::keycloak::{KeycloakError, KeycloakErrorKind};
use saml2aws_auto::refresh::{apply_outcomes, complete_account, group_needs_refresh, plan_refresh,
    unrecoverable, AccountAction, AccountOutcome, RefreshPlan};
use base64::Engine;

const STS_XML: &str = "<AssumeRoleWithSAMLResponse>\
<AssumeRoleWithSAMLResult><Credentials>\
<AccessKeyId>AKIAEXAMPLE</AccessKeyId>\
<SecretAccessKey>SECRET-REDACTED</SecretAccessKey>\
<SessionToken>tokentokentoken</SessionToken>\
<Expiration>2030-01-01T00:00:00Z</Expiration>\
</Credentials></AssumeRoleWithSAMLResult></AssumeRoleWithSAMLResponse>";

fn account(name: &str, arn: &str, valid_until: Option<i64>) -> Account {
    Account { name: name.to_string(), arn: arn.to_string(), valid_until }
}

fn sample_group() -> Group {
    Group {
        session_duration: None,
        sts_endpoint: None,
        accounts: vec![
            account("one", "arn:aws:iam::111111111111:role/Dev", None),
            account("two", "arn:aws:iam::222222222222:role/Dev", Some(500)),
            account("three", "arn:aws:iam::333333333333:role/Dev", None),
        ],
    }
}

fn assertion_b64() -> String {
    let xml = "<AttributeStatement><Attribute FriendlyName=\"Role\">\
<AttributeValue>arn:aws:iam::111111111111:role/Dev,arn:aws:iam::111111111111:saml-provider/idp</AttributeValue>\
<AttributeValue>arn:aws:iam::333333333333:role/Dev,arn:aws:iam::333333333333:saml-provider/idp</AttributeValue>\
</Attribute></AttributeStatement>";
    base64::engine::general_purpose::STANDARD.encode(xml)
}

#[test]
fn session_validity_boundaries() {
    let unset = account("a", "arn", None);
    assert!(!unset.session_valid(0));
    let set = account("a", "arn", Some(100));
    assert!(!set.session_valid(100));
    assert!(!set.session_valid(101));
    assert!(set.session_valid(99));
}

#[test]
fn unrecoverable_kinds() {
    assert!(unrecoverable(KeycloakErrorKind::InvalidCredentials));
    assert!(unrecoverable(KeycloakErrorKind::InvalidToken));
    assert!(unrecoverable(KeycloakErrorKind::PasswordUpdateRequired));
    assert!(!unrecoverable(KeycloakErrorKind::Http));
    assert!(!unrecoverable(KeycloakErrorKind::FormNotFound));
}

#[test]
fn failed_login_aborts_with_no_tasks_and_no_side_effects() {
    let group = sample_group();
    let login = Err(KeycloakError::new(
        KeycloakErrorKind::InvalidCredentials,
        "Invalid username or password",
    ));
    match plan_refresh(&group, 1000, false, login) {
        RefreshPlan::Abort { error, unrecoverable } => {
            assert_eq!(error.kind, KeycloakErrorKind::InvalidCredentials);
            assert!(unrecoverable);
        },
        _ => panic!("a failed login must abort the refresh"),
    }
    let merged = apply_outcomes(sample_group(), &Vec::new());
    assert_eq!(merged.accounts[0].valid_until, None);
    assert_eq!(merged.accounts[1].valid_until, Some(500));
    assert_eq!(merged.accounts[2].valid_until, None);
}

#[test]
fn plan_covers_every_account() {
    let group = sample_group();
    match plan_refresh(&group, 100, false, Ok(assertion_b64())) {
        RefreshPlan::Tasks(tasks) => {
            assert_eq!(tasks.len(), 3);
            assert!(matches!(tasks[0].action, AccountAction::Assume(_)));
            // account two's session is still valid at t=100
            assert!(matches!(tasks[1].action, AccountAction::AlreadyValid));
            match &tasks[2].action {
                AccountAction::Assume(q) => {
                    assert_eq!(q.url, "https://sts.amazonaws.com/");
                    assert_eq!(
                        q.form[0],
                        (
                            "PrincipalArn".to_string(),
                            "arn:aws:iam::333333333333:saml-provider/idp".to_string()
                        )
                    );
                    assert_eq!(
                        q.form[1],
                        ("RoleArn".to_string(), "arn:aws:iam::333333333333:role/Dev".to_string())
                    );
                    assert_eq!(
                        q.form[3],
                        ("DurationSeconds".to_string(), "3600".to_string())
                    );
                },
                _ => panic!("account three needs a refresh"),
            }
        },
        _ => panic!("login succeeded, tasks expected"),
    }
}

#[test]
fn forced_plan_retries_valid_sessions_and_flags_missing_roles() {
    let group = sample_group();
    match plan_refresh(&group, 100, true, Ok(assertion_b64())) {
        RefreshPlan::Tasks(tasks) => {
            assert!(matches!(tasks[0].action, AccountAction::Assume(_)));
            // account two's role is absent from the assertion
            assert!(matches!(tasks[1].action, AccountAction::NoRole));
            assert!(matches!(tasks[2].action, AccountAction::Assume(_)));
        },
        _ => panic!("login succeeded, tasks expected"),
    }
}

#[test]
fn one_failed_account_leaves_siblings_refreshed() {
    let group = sample_group();
    let creds = Credentials {
        access_key_id: "AKIA".to_string(),
        secret_access_key: "s".to_string(),
        session_token: "t".to_string(),
        expiration: "2030-01-01T00:00:00Z".to_string(),
    };
    // account two's assume-role call failed: it contributes no outcome
    let outcomes = vec![
        AccountOutcome { account_name: "one".to_string(), credentials: creds.clone(), valid_until: 2000 },
        AccountOutcome { account_name: "three".to_string(), credentials: creds, valid_until: 3000 },
    ];
    let merged = apply_outcomes(group, &outcomes);
    assert_eq!(merged.accounts[0].valid_until, Some(2000));
    assert_eq!(merged.accounts[1].valid_until, Some(500));
    assert_eq!(merged.accounts[2].valid_until, Some(3000));
    assert_eq!(merged.accounts[1].name, "two");
}

#[test]
fn group_needs_refresh_cases() {
    let empty = Group { session_duration: None, sts_endpoint: None, accounts: Vec::new() };
    assert!(!group_needs_refresh(&empty, 0, true));
    let group = sample_group();
    assert!(group_needs_refresh(&group, 100, false));
    let all_valid = Group {
        session_duration: None,
        sts_endpoint: None,
        accounts: vec![account("a", "arn", Some(1000))],
    };
    assert!(!group_needs_refresh(&all_valid, 100, false));
    assert!(group_needs_refresh(&all_valid, 100, true));
}

#[test]
fn assume_role_request_fields() {
    let q = build_assume_role_request("role-arn", "principal-arn", "assertion", None, None);
    assert_eq!(q.url, "https://sts.amazonaws.com/");
    assert_eq!(q.query[0], ("Version".to_string(), "2011-06-15".to_string()));
    assert_eq!(q.query[1], ("Action".to_string(), "AssumeRoleWithSAML".to_string()));
    assert_eq!(q.form[2], ("SAMLAssertion".to_string(), "assertion".to_string()));
    assert_eq!(q.form[3], ("DurationSeconds".to_string(), "3600".to_string()));

    let q2 = build_assume_role_request("r", "p", "a", Some(43200), Some("https://sts.eu-central-1.amazonaws.com/"));
    assert_eq!(q2.url, "https://sts.eu-central-1.amazonaws.com/");
    assert_eq!(q2.form[3], ("DurationSeconds".to_string(), "43200".to_string()));
}

#[test]
fn assume_role_response_reads_credentials() {
    let c = assume_role_response(200, STS_XML).unwrap();
    assert_eq!(c.access_key_id, "AKIAEXAMPLE");
    assert_eq!(c.secret_access_key, "SECRET-REDACTED");
    assert_eq!(c.session_token, "tokentokentoken");
    assert_eq!(c.expiration, "2030-01-01T00:00:00Z");
}

#[test]
fn assume_role_response_rejects_bad_status() {
    let e = assume_role_response(403, STS_XML).unwrap_err();
    assert_eq!(e.description, "sts assume role returned 403");
}

#[test]
fn assume_role_response_rejects_incomplete_xml() {
    let e = assume_role_response(200, "<Response><AccessKeyId>x</AccessKeyId></Response>")
        .unwrap_err();
    assert_eq!(e.description, "Could not parse credentials from the STS response");
}

#[test]
fn complete_account_parses_expiration() {
    let creds = Credentials {
        access_key_id: "AKIA".to_string(),
        secret_access_key: "s".to_string(),
        session_token: "t".to_string(),
        expiration: "2030-01-01T00:00:00Z".to_string(),
    };
    let o = complete_account("one", creds).unwrap();
    assert_eq!(o.account_name, "one");
    assert_eq!(o.valid_until, 1893456000);
}

#[test]
fn complete_account_rejects_bad_expiration() {
    let creds = Credentials {
        access_key_id: "AKIA".to_string(),
        secret_access_key: "s".to_string(),
        session_token: "t".to_string(),
        expiration: "someday".to_string(),
    };
    let e = complete_account("one", creds).unwrap_err();
    assert_eq!(e.account_name, "one");
}

#[test]
fn minutes_remaining_rounds_toward_zero() {
    assert_eq!(minutes_remaining(1000, 700), 5);
    assert_eq!(minutes_remaining(700, 1000), -5);
    assert_eq!(minutes_remaining(100, 100), 0);
}
