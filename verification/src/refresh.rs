//! The refresh orchestrator's decisions.
//!
//! One login pass serves a whole group: the plan computed here either
//! aborts (a failed login plans no assume-role request at all) or
//! yields one task per account — already valid, unreachable via this
//! assertion, or an STS request to perform.  Task outcomes are
//! independent; merging them back updates exactly the accounts that
//! succeeded and leaves every other expiry unchanged.  The shell
//! performs the requests and may run the tasks concurrently, each on
//! its own clone of the cookie jar.

use vstd::prelude::*;
use crate::aws::assume_role::{StsRequest, build_assume_role_request, spec_endpoint, spec_duration,
    opt_endpoint_view};
use crate::aws::xml::Credentials;
use crate::config::{Account, Group, spec_session_valid};
use crate::keycloak::{KeycloakError, KeycloakErrorKind};
use crate::keycloak::login::param_views;
use crate::saml::{Assertion, SamlError, parse_assertion, role_views, spec_parse_assertion, Role};
use crate::text::{spec_i64_str, str_eq};

verus! {

/// A per-account failure: the account's display name and a message.
#[derive(Debug)]
pub struct RefreshError {
    pub account_name: String,
    pub description: String,
}

impl RefreshError {
    /// A new error for `account_name` carrying `message`.
    pub fn new(account_name: &str, message: &str) -> (r: Self)
        ensures
            r.account_name@ == account_name@,
            r.description@ == message@,
    {
        RefreshError { account_name: account_name.to_owned(), description: message.to_owned() }
    }

    /// The human-readable message.
    pub fn message(&self) -> (r: String)
        ensures
            r@ == self.description@,
    {
        self.description.clone()
    }
}

/// Login failures that re-running cannot fix without corrected input:
/// bad credentials, a bad one-time code, or a required password
/// update.
pub open spec fn spec_unrecoverable(kind: KeycloakErrorKind) -> bool {
    ||| kind == KeycloakErrorKind::InvalidCredentials
    ||| kind == KeycloakErrorKind::InvalidToken
    ||| kind == KeycloakErrorKind::PasswordUpdateRequired
}

/// Whether a login failure is unrecoverable within one run.
pub fn unrecoverable(kind: KeycloakErrorKind) -> (r: bool)
    ensures
        r == spec_unrecoverable(kind),
{
    kind == KeycloakErrorKind::InvalidCredentials || kind == KeycloakErrorKind::InvalidToken
        || kind == KeycloakErrorKind::PasswordUpdateRequired
}

/// A group needs work when it has accounts and at least one session
/// is stale, or a refresh is forced.
pub open spec fn spec_group_needs_refresh(accounts: Seq<Account>, now: i64, force: bool) -> bool {
    accounts.len() > 0 && (force || exists|k: int|
        0 <= k < accounts.len() && !spec_session_valid(#[trigger] accounts[k].valid_until, now))
}

/// Whether anything in the group needs refreshing at `now`.
pub fn group_needs_refresh(group: &Group, now: i64, force: bool) -> (r: bool)
    ensures
        r == spec_group_needs_refresh(group.accounts@, now, force),
{
    if group.accounts.len() == 0 {
        return false;
    }
    if force {
        return true;
    }
    let mut i: usize = 0;
    while i < group.accounts.len()
        invariant
            i <= group.accounts@.len(),
            forall|k: int| 0 <= k < i ==> spec_session_valid(
                #[trigger] group.accounts@[k].valid_until,
                now,
            ),
        decreases group.accounts@.len() - i,
    {
        if !group.accounts[i].session_valid(now) {
            return true;
        }
        i += 1;
    }
    false
}

/// The principal ARN of the first role whose ARN is `arn`.
pub open spec fn spec_find_role(
    roles: Seq<(Seq<char>, Seq<char>)>,
    arn: Seq<char>,
    i: int,
) -> Option<Seq<char>>
    decreases roles.len() - i when 0 <= i
{
    if i >= roles.len() {
        None
    } else if roles[i].0 == arn {
        Some(roles[i].1)
    } else {
        spec_find_role(roles, arn, i + 1)
    }
}

/// Finds the principal ARN granted for a role ARN in the assertion.
pub fn find_role(roles: &Vec<Role>, arn: &str) -> (r: Option<String>)
    ensures
        match r {
            Some(p) => spec_find_role(role_views(roles@), arn@, 0) == Some(p@),
            None => spec_find_role(role_views(roles@), arn@, 0) is None,
        },
{
    let ghost rv = role_views(roles@);
    let mut i: usize = 0;
    while i < roles.len()
        invariant
            i <= roles@.len(),
            rv == role_views(roles@),
            spec_find_role(rv, arn@, 0) == spec_find_role(rv, arn@, i as int),
        decreases roles@.len() - i,
    {
        proof {
            assert(rv[i as int] == (roles@[i as int].arn@, roles@[i as int].principal_arn@));
        }
        if str_eq(roles[i].arn.as_str(), arn) {
            return Some(roles[i].principal_arn.clone());
        }
        i += 1;
    }
    None
}

/// What one account's task must do.
pub enum AccountAction {
    /// The session is still valid and no refresh was forced.
    AlreadyValid,
    /// The assertion grants no role with this account's ARN.
    NoRole,
    /// Perform this STS call.
    Assume(StsRequest),
}

/// The task for the account at `index` of the group.
pub struct AccountTask {
    pub index: usize,
    pub action: AccountAction,
}

/// The whole plan of one group refresh.
pub enum RefreshPlan {
    /// The login phase failed: no per-account work happens at all.
    Abort { error: KeycloakError, unrecoverable: bool },
    /// The login phase produced an undecodable assertion.
    BadAssertion { error: SamlError },
    /// One task per account, in account order.
    Tasks(Vec<AccountTask>),
}

/// The action planned for one account, over the views: skip while the
/// session is valid (unless forced), fail when the assertion grants
/// no matching role, and otherwise assume the role with the group's
/// duration (falling back to the assertion's).
pub open spec fn spec_planned_action(
    arn: Seq<char>,
    valid_until: Option<i64>,
    roles: Seq<(Seq<char>, Seq<char>)>,
    assertion_duration: int,
    group_duration: Option<i64>,
    endpoint: Option<Seq<char>>,
    saml: Seq<char>,
    now: i64,
    force: bool,
    action: AccountAction,
) -> bool {
    if spec_session_valid(valid_until, now) && !force {
        action is AlreadyValid
    } else {
        match spec_find_role(roles, arn, 0) {
            None => action is NoRole,
            Some(principal) => match action {
                AccountAction::Assume(q) => {
                    &&& q.url@ == spec_endpoint(endpoint)
                    &&& param_views(q.query@) == seq![
                        (("Version")@, ("2011-06-15")@),
                        (("Action")@, ("AssumeRoleWithSAML")@),
                    ]
                    &&& param_views(q.form@) == seq![
                        (("PrincipalArn")@, principal),
                        (("RoleArn")@, arn),
                        (("SAMLAssertion")@, saml),
                        (
                            ("DurationSeconds")@,
                            spec_i64_str(
                                match group_duration {
                                    Some(d) => d as int,
                                    None => assertion_duration,
                                },
                            ),
                        ),
                    ]
                },
                _ => false,
            },
        }
    }
}

/// The view of an optional endpoint field.
pub open spec fn opt_string_view(o: Option<String>) -> Option<Seq<char>> {
    match o {
        Some(s) => Some(s@),
        None => None,
    }
}

/// Plans one group refresh from the login phase's outcome.
///
/// A failed login aborts the whole refresh: no assume-role request is
/// planned for any account, so a login failure can have no effect on
/// any account's expiry.  A successful login yields one task per
/// account.
#[verifier::loop_isolation(false)]
pub fn plan_refresh(group: &Group, now: i64, force: bool, login: Result<String, KeycloakError>) -> (r:
    RefreshPlan)
    ensures
        match login {
            Err(e) => match r {
                RefreshPlan::Abort { error, unrecoverable } => error.kind == e.kind
                    && error.description@ == e.description@ && unrecoverable
                    == spec_unrecoverable(e.kind),
                _ => false,
            },
            Ok(saml) => match spec_parse_assertion(saml@) {
                Err(se) => match r {
                    RefreshPlan::BadAssertion { error } => error == se,
                    _ => false,
                },
                Ok(t) => match r {
                    RefreshPlan::Tasks(tasks) => tasks@.len() == group.accounts@.len()
                        && forall|k: int| 0 <= k < tasks@.len() ==> (#[trigger] tasks@[k]).index
                        == k && spec_planned_action(
                        group.accounts@[k].arn@,
                        group.accounts@[k].valid_until,
                        t.2,
                        t.1,
                        group.session_duration,
                        opt_string_view(group.sts_endpoint),
                        saml@,
                        now,
                        force,
                        tasks@[k].action,
                    ),
                    _ => false,
                },
            },
        },
{
    let saml = match login {
        Err(e) => {
            let u = unrecoverable(e.kind);
            return RefreshPlan::Abort { error: e, unrecoverable: u };
        },
        Ok(s) => s,
    };
    let assertion: Assertion = match parse_assertion(saml.as_str()) {
        Err(se) => {
            return RefreshPlan::BadAssertion { error: se };
        },
        Ok(a) => a,
    };
    let ghost t = (
        assertion.role_session_name@,
        assertion.session_duration as int,
        role_views(assertion.roles@),
    );
    let mut tasks: Vec<AccountTask> = Vec::new();
    let mut k: usize = 0;
    while k < group.accounts.len()
        invariant
            k <= group.accounts@.len(),
            tasks@.len() == k,
            spec_parse_assertion(saml@) == Ok::<_, SamlError>(t),
            t.1 == assertion.session_duration as int,
            t.2 == role_views(assertion.roles@),
            forall|j: int| 0 <= j < k ==> (#[trigger] tasks@[j]).index == j
                && spec_planned_action(
                group.accounts@[j].arn@,
                group.accounts@[j].valid_until,
                t.2,
                t.1,
                group.session_duration,
                opt_string_view(group.sts_endpoint),
                saml@,
                now,
                force,
                tasks@[j].action,
            ),
        decreases group.accounts@.len() - k,
    {
        let account = &group.accounts[k];
        let action: AccountAction = if account.session_valid(now) && !force {
            proof {
                assert(spec_session_valid(group.accounts@[k as int].valid_until, now) && !force);
            }
            AccountAction::AlreadyValid
        } else {
            match find_role(&assertion.roles, account.arn.as_str()) {
                None => {
                    proof {
                        assert(spec_find_role(t.2, group.accounts@[k as int].arn@, 0) is None);
                    }
                    AccountAction::NoRole
                },
                Some(principal) => {
                    let effective: i64 = match group.session_duration {
                        Some(d) => d,
                        None => assertion.session_duration,
                    };
                    let endpoint: Option<&str> = match &group.sts_endpoint {
                        Some(s) => Some(s.as_str()),
                        None => None,
                    };
                    proof {
                        assert(opt_endpoint_view(endpoint) == opt_string_view(group.sts_endpoint));
                        assert(effective as int == (match group.session_duration {
                            Some(d) => d as int,
                            None => t.1,
                        }));
                        assert(spec_find_role(t.2, group.accounts@[k as int].arn@, 0) == Some(
                            principal@,
                        ));
                    }
                    let q = build_assume_role_request(
                        account.arn.as_str(),
                        principal.as_str(),
                        saml.as_str(),
                        Some(effective),
                        endpoint,
                    );
                    proof {
                        assert(q.url@ == spec_endpoint(opt_string_view(group.sts_endpoint)));
                        assert(param_views(q.form@) == seq![
                            (("PrincipalArn")@, principal@),
                            (("RoleArn")@, group.accounts@[k as int].arn@),
                            (("SAMLAssertion")@, saml@),
                            (
                                ("DurationSeconds")@,
                                spec_i64_str(
                                    match group.session_duration {
                                        Some(d) => d as int,
                                        None => t.1,
                                    },
                                ),
                            ),
                        ]);
                    }
                    AccountAction::Assume(q)
                },
            }
        };
        proof {
            assert(spec_planned_action(
                group.accounts@[k as int].arn@,
                group.accounts@[k as int].valid_until,
                t.2,
                t.1,
                group.session_duration,
                opt_string_view(group.sts_endpoint),
                saml@,
                now,
                force,
                action,
            ));
        }
        tasks.push(AccountTask { index: k, action });
        k += 1;
    }
    RefreshPlan::Tasks(tasks)
}

/// One successful account refresh: the new credentials and the
/// parsed end of the new session.
#[derive(Debug)]
pub struct AccountOutcome {
    pub account_name: String,
    pub credentials: Credentials,
    pub valid_until: i64,
}

/// The views of a list of outcomes.
pub open spec fn outcome_views(os: Seq<AccountOutcome>) -> Seq<(Seq<char>, i64)> {
    os.map_values(|o: AccountOutcome| (o.account_name@, o.valid_until))
}

/// Epoch seconds of an RFC 3339 timestamp, if it parses.
pub uninterp spec fn spec_timestamp(s: Seq<char>) -> Option<i64>;

/// Relies on chrono's `DateTime::parse_from_rfc3339` and
/// `timestamp()`: the epoch second of a timestamp string, a function
/// of the string alone; parsing fails exactly on strings chrono
/// rejects.
#[verifier::external_body]
fn parse_timestamp(s: &str) -> (r: Option<i64>)
    ensures
        match r {
            Some(ts) => spec_timestamp(s@) == Some(ts),
            None => spec_timestamp(s@) is None,
        },
{
    chrono::DateTime::parse_from_rfc3339(s).ok().map(|d| d.timestamp())
}

/// Turns one successful STS reply into an account outcome, parsing
/// the credential expiry; an unparsable expiry fails this one
/// account.
pub fn complete_account(account_name: &str, credentials: Credentials) -> (r: Result<
    AccountOutcome,
    RefreshError,
>)
    ensures
        match spec_timestamp(credentials.expiration@) {
            Some(ts) => match r {
                Ok(o) => o.account_name@ == account_name@ && o.valid_until == ts
                    && o.credentials.access_key_id@ == credentials.access_key_id@
                    && o.credentials.secret_access_key@ == credentials.secret_access_key@
                    && o.credentials.session_token@ == credentials.session_token@
                    && o.credentials.expiration@ == credentials.expiration@,
                Err(_) => false,
            },
            None => match r {
                Err(e) => e.account_name@ == account_name@ && e.description@ == (
                "Could not parse the credential expiration time")@,
                Ok(_) => false,
            },
        },
{
    match parse_timestamp(credentials.expiration.as_str()) {
        Some(ts) => Ok(
            AccountOutcome {
                account_name: account_name.to_owned(),
                credentials,
                valid_until: ts,
            },
        ),
        None => Err(RefreshError::new(account_name, "Could not parse the credential expiration time")),
    }
}

/// The new expiry for `name`: the expiry of the first outcome with
/// that account name, from index `i` on.
pub open spec fn spec_outcome_for(os: Seq<(Seq<char>, i64)>, name: Seq<char>, i: int) -> Option<
    i64,
>
    decreases os.len() - i when 0 <= i
{
    if i >= os.len() {
        None
    } else if os[i].0 == name {
        Some(os[i].1)
    } else {
        spec_outcome_for(os, name, i + 1)
    }
}

/// Law: with no outcomes — as after an aborted login phase — the
/// merge finds nothing for any account, so every expiry stays as it
/// was (see `apply_outcomes`).
pub proof fn lemma_no_outcome_for_empty(name: Seq<char>)
    ensures
        spec_outcome_for(Seq::<(Seq<char>, i64)>::empty(), name, 0) is None,
{
}

fn find_outcome(outcomes: &Vec<AccountOutcome>, name: &str) -> (r: Option<i64>)
    ensures
        match r {
            Some(ts) => spec_outcome_for(outcome_views(outcomes@), name@, 0) == Some(ts),
            None => spec_outcome_for(outcome_views(outcomes@), name@, 0) is None,
        },
{
    let ghost ov = outcome_views(outcomes@);
    let mut i: usize = 0;
    while i < outcomes.len()
        invariant
            i <= outcomes@.len(),
            ov == outcome_views(outcomes@),
            spec_outcome_for(ov, name@, 0) == spec_outcome_for(ov, name@, i as int),
        decreases outcomes@.len() - i,
    {
        proof {
            assert(ov[i as int] == (outcomes@[i as int].account_name@, outcomes@[
                i as int].valid_until));
        }
        if str_eq(outcomes[i].account_name.as_str(), name) {
            return Some(outcomes[i].valid_until);
        }
        i += 1;
    }
    None
}

/// Merges the outcomes of a refresh into the group.
///
/// Exactly the accounts with a successful outcome get its new expiry;
/// every other account — failed, skipped, or already valid — keeps
/// its expiry unchanged.  One account's failure never touches a
/// sibling.
#[verifier::loop_isolation(false)]
pub fn apply_outcomes(group: Group, outcomes: &Vec<AccountOutcome>) -> (r: Group)
    ensures
        r.session_duration == group.session_duration,
        r.sts_endpoint == group.sts_endpoint,
        r.accounts@.len() == group.accounts@.len(),
        forall|k: int| 0 <= k < r.accounts@.len() ==> (#[trigger] r.accounts@[k]).name@
            == group.accounts@[k].name@ && r.accounts@[k].arn@ == group.accounts@[k].arn@
            && r.accounts@[k].valid_until == (match spec_outcome_for(
            outcome_views(outcomes@),
            group.accounts@[k].name@,
            0,
        ) {
            Some(ts) => Some(ts),
            None => group.accounts@[k].valid_until,
        }),
{
    let mut accounts: Vec<Account> = Vec::new();
    let mut k: usize = 0;
    while k < group.accounts.len()
        invariant
            k <= group.accounts@.len(),
            accounts@.len() == k,
            forall|j: int| 0 <= j < k ==> (#[trigger] accounts@[j]).name@
                == group.accounts@[j].name@ && accounts@[j].arn@ == group.accounts@[j].arn@
                && accounts@[j].valid_until == (match spec_outcome_for(
                outcome_views(outcomes@),
                group.accounts@[j].name@,
                0,
            ) {
                Some(ts) => Some(ts),
                None => group.accounts@[j].valid_until,
            }),
        decreases group.accounts@.len() - k,
    {
        let account = &group.accounts[k];
        let mut copy = account.duplicate();
        match find_outcome(outcomes, account.name.as_str()) {
            Some(ts) => {
                copy.valid_until = Some(ts);
            },
            None => {},
        }
        accounts.push(copy);
        k += 1;
    }
    Group {
        session_duration: group.session_duration,
        sts_endpoint: group.sts_endpoint,
        accounts,
    }
}

} // verus!
