//! The persisted account and group model, and session validity.
//!
//! Timestamps are carried as Unix epoch seconds; reading and writing
//! the human-readable timestamp format of the configuration file is
//! the unverified shell's concern.

use vstd::prelude::*;

verus! {

/// One configured AWS account: a display name (unique within its
/// group), a role ARN, and the end of its current session, if any.
#[derive(Debug)]
pub struct Account {
    pub name: String,
    pub arn: String,
    pub valid_until: Option<i64>,
}

/// A named collection of accounts refreshed together.
#[derive(Debug)]
pub struct Group {
    pub session_duration: Option<i64>,
    pub sts_endpoint: Option<String>,
    pub accounts: Vec<Account>,
}

/// A session is valid exactly when an expiry is set and `now` is
/// strictly before it: an unset expiry is invalid, and so is
/// `now == valid_until`.
pub open spec fn spec_session_valid(valid_until: Option<i64>, now: i64) -> bool {
    match valid_until {
        None => false,
        Some(t) => now < t,
    }
}

impl Account {
    /// Whether this account's session is still valid at `now`.
    pub fn session_valid(&self, now: i64) -> (r: bool)
        ensures
            r == spec_session_valid(self.valid_until, now),
    {
        match self.valid_until {
            None => false,
            Some(t) => now < t,
        }
    }

    /// An independent copy of the account.
    pub fn duplicate(&self) -> (r: Account)
        ensures
            r.name@ == self.name@,
            r.arn@ == self.arn@,
            r.valid_until == self.valid_until,
    {
        Account { name: self.name.clone(), arn: self.arn.clone(), valid_until: self.valid_until }
    }
}

/// Law: session validity, spelled out.  Validity is false when no
/// expiry is set, false when `now` has reached or passed the expiry
/// (the boundary `now == valid_until` is invalid), and true otherwise.
pub proof fn lemma_session_valid_cases(valid_until: Option<i64>, now: i64)
    ensures
        valid_until is None ==> !spec_session_valid(valid_until, now),
        forall|t: i64| valid_until == Some(t) && now >= t ==> !spec_session_valid(
            valid_until,
            now,
        ),
        forall|t: i64| valid_until == Some(t) && now < t ==> spec_session_valid(valid_until, now),
{
}

/// Minutes between `now` and `until`, rounding toward zero; negative
/// once the expiry has passed.
pub open spec fn spec_minutes_remaining(until: int, now: int) -> int {
    if until >= now {
        (until - now) / 60
    } else {
        -((now - until) / 60)
    }
}

/// Minutes from `now` until `until`, rounding toward zero.
pub fn minutes_remaining(until: i64, now: i64) -> (r: i64)
    requires
        until - now <= i64::MAX,
        now - until <= i64::MAX,
    ensures
        r == spec_minutes_remaining(until as int, now as int),
{
    if until >= now {
        (until - now) / 60
    } else {
        -((now - until) / 60)
    }
}

} // verus!
