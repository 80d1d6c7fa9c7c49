//! Group management: selecting discovered accounts and merging them
//! into a group.

use vstd::prelude::*;
use crate::aws::AWSAccountInfo;
use crate::config::{Account, Group};
use crate::text::{match_at, chars_of, starts_with_chars, ends_with_chars, str_eq};

verus! {

/// The (name, arn) views of discovered accounts.
pub open spec fn info_views(infos: Seq<AWSAccountInfo>) -> Seq<(Seq<char>, Seq<char>)> {
    infos.map_values(|a: AWSAccountInfo| (a.name@, a.arn@))
}

/// The (name, arn) views of configured accounts.
pub open spec fn account_views(accounts: Seq<Account>) -> Seq<(Seq<char>, Seq<char>)> {
    accounts.map_values(|a: Account| (a.name@, a.arn@))
}

/// The ARN suffix that selects a role by name.
pub open spec fn spec_role_suffix(role_name: Seq<char>) -> Seq<char> {
    ("role/")@ + role_name
}

/// The discovered accounts, from index `i` on, whose name starts
/// with `prefix` and whose ARN ends with `suffix`.
pub open spec fn spec_prefix_selected(
    infos: Seq<(Seq<char>, Seq<char>)>,
    prefix: Seq<char>,
    suffix: Seq<char>,
    i: int,
) -> Seq<(Seq<char>, Seq<char>)>
    decreases infos.len() - i when 0 <= i
{
    if i >= infos.len() {
        seq![]
    } else if match_at(infos[i].0, prefix, 0) && match_at(
        infos[i].1,
        suffix,
        infos[i].1.len() - suffix.len(),
    ) {
        seq![infos[i]] + spec_prefix_selected(infos, prefix, suffix, i + 1)
    } else {
        spec_prefix_selected(infos, prefix, suffix, i + 1)
    }
}

/// Whether `name` occurs among `names`.
pub open spec fn spec_name_listed(names: Seq<Seq<char>>, name: Seq<char>, i: int) -> bool
    decreases names.len() - i when 0 <= i
{
    if i >= names.len() {
        false
    } else if names[i] == name {
        true
    } else {
        spec_name_listed(names, name, i + 1)
    }
}

/// The discovered accounts, from index `i` on, whose name is listed
/// and whose ARN ends with `suffix`.
pub open spec fn spec_name_selected(
    infos: Seq<(Seq<char>, Seq<char>)>,
    names: Seq<Seq<char>>,
    suffix: Seq<char>,
    i: int,
) -> Seq<(Seq<char>, Seq<char>)>
    decreases infos.len() - i when 0 <= i
{
    if i >= infos.len() {
        seq![]
    } else if spec_name_listed(names, infos[i].0, 0) && match_at(
        infos[i].1,
        suffix,
        infos[i].1.len() - suffix.len(),
    ) {
        seq![infos[i]] + spec_name_selected(infos, names, suffix, i + 1)
    } else {
        spec_name_selected(infos, names, suffix, i + 1)
    }
}

/// Selects the discovered accounts whose name starts with `prefix`
/// and whose ARN names the role `role_name`, as fresh accounts with
/// no session.
#[verifier::loop_isolation(false)]
pub fn get_accounts_prefixed_by(accounts: &Vec<AWSAccountInfo>, prefix: &str, role_name: &str) -> (r:
    Vec<Account>)
    ensures
        account_views(r@) == spec_prefix_selected(
            info_views(accounts@),
            prefix@,
            spec_role_suffix(role_name@),
            0,
        ),
        forall|k: int| 0 <= k < r@.len() ==> (#[trigger] r@[k]).valid_until is None,
{
    let ghost iv = info_views(accounts@);
    let prefix_chars = chars_of(prefix);
    let mut suffix = chars_of("role/");
    let mut role_chars = chars_of(role_name);
    suffix.append(&mut role_chars);
    proof {
        assert(suffix@ =~= spec_role_suffix(role_name@));
    }
    let mut out: Vec<Account> = Vec::new();
    let mut i: usize = 0;
    proof {
        assert(account_views(out@) =~= Seq::<(Seq<char>, Seq<char>)>::empty());
    }
    while i < accounts.len()
        invariant
            i <= accounts@.len(),
            spec_prefix_selected(iv, prefix@, spec_role_suffix(role_name@), 0) =~= account_views(
                out@,
            ) + spec_prefix_selected(iv, prefix@, spec_role_suffix(role_name@), i as int),
            forall|k: int| 0 <= k < out@.len() ==> (#[trigger] out@[k]).valid_until is None,
        decreases accounts@.len() - i,
    {
        proof {
            assert(iv[i as int] == (accounts@[i as int].name@, accounts@[i as int].arn@));
        }
        let info = &accounts[i];
        let name_chars = chars_of(info.name.as_str());
        let arn_chars = chars_of(info.arn.as_str());
        if starts_with_chars(&name_chars, &prefix_chars) && ends_with_chars(&arn_chars, &suffix) {
            let a = Account { name: info.name.clone(), arn: info.arn.clone(), valid_until: None };
            let ghost av = (a.name@, a.arn@);
            out.push(a);
            proof {
                assert(account_views(out@) =~= account_views(out@.drop_last()) + seq![av]);
            }
        }
        i += 1;
    }
    out
}

fn name_listed(names: &Vec<String>, name: &str) -> (r: bool)
    ensures
        r == spec_name_listed(crate::cookies::str_views(names@), name@, 0),
{
    let ghost nv = crate::cookies::str_views(names@);
    let mut i: usize = 0;
    while i < names.len()
        invariant
            i <= names@.len(),
            nv == crate::cookies::str_views(names@),
            spec_name_listed(nv, name@, 0) == spec_name_listed(nv, name@, i as int),
        decreases names@.len() - i,
    {
        proof {
            assert(nv[i as int] == names@[i as int]@);
        }
        if str_eq(names[i].as_str(), name) {
            return true;
        }
        i += 1;
    }
    false
}

/// Selects the discovered accounts whose name is among `names` and
/// whose ARN names the role `role_name`, as fresh accounts with no
/// session.
#[verifier::loop_isolation(false)]
pub fn get_accounts_by_names(accounts: &Vec<AWSAccountInfo>, names: &Vec<String>, role_name: &str)
    -> (r: Vec<Account>)
    ensures
        account_views(r@) == spec_name_selected(
            info_views(accounts@),
            crate::cookies::str_views(names@),
            spec_role_suffix(role_name@),
            0,
        ),
        forall|k: int| 0 <= k < r@.len() ==> (#[trigger] r@[k]).valid_until is None,
{
    let ghost iv = info_views(accounts@);
    let ghost nv = crate::cookies::str_views(names@);
    let mut suffix = chars_of("role/");
    let mut role_chars = chars_of(role_name);
    suffix.append(&mut role_chars);
    proof {
        assert(suffix@ =~= spec_role_suffix(role_name@));
    }
    let mut out: Vec<Account> = Vec::new();
    let mut i: usize = 0;
    proof {
        assert(account_views(out@) =~= Seq::<(Seq<char>, Seq<char>)>::empty());
    }
    while i < accounts.len()
        invariant
            i <= accounts@.len(),
            spec_name_selected(iv, nv, spec_role_suffix(role_name@), 0) =~= account_views(out@)
                + spec_name_selected(iv, nv, spec_role_suffix(role_name@), i as int),
            forall|k: int| 0 <= k < out@.len() ==> (#[trigger] out@[k]).valid_until is None,
        decreases accounts@.len() - i,
    {
        proof {
            assert(iv[i as int] == (accounts@[i as int].name@, accounts@[i as int].arn@));
        }
        let info = &accounts[i];
        let arn_chars = chars_of(info.arn.as_str());
        if name_listed(names, info.name.as_str()) && ends_with_chars(&arn_chars, &suffix) {
            let a = Account { name: info.name.clone(), arn: info.arn.clone(), valid_until: None };
            let ghost av = (a.name@, a.arn@);
            out.push(a);
            proof {
                assert(account_views(out@) =~= account_views(out@.drop_last()) + seq![av]);
            }
        }
        i += 1;
    }
    out
}

/// The full view of a configured account list: name, ARN, expiry.
pub open spec fn account_full_views(accounts: Seq<Account>) -> Seq<
    (Seq<char>, Seq<char>, Option<i64>),
> {
    accounts.map_values(|a: Account| (a.name@, a.arn@, a.valid_until))
}

/// The accounts of `fresh`, from index `i` on, whose name is not
/// already among `existing`.
pub open spec fn spec_new_accounts(
    fresh: Seq<(Seq<char>, Seq<char>, Option<i64>)>,
    existing: Seq<Seq<char>>,
    i: int,
) -> Seq<(Seq<char>, Seq<char>, Option<i64>)>
    decreases fresh.len() - i when 0 <= i
{
    if i >= fresh.len() {
        seq![]
    } else if spec_name_listed(existing, fresh[i].0, 0) {
        spec_new_accounts(fresh, existing, i + 1)
    } else {
        seq![fresh[i]] + spec_new_accounts(fresh, existing, i + 1)
    }
}

/// Merges a fresh account list into a possibly existing group.
///
/// A new group simply holds the fresh accounts.  With `append_only`,
/// an existing group keeps its accounts and gains the fresh ones
/// whose names it did not already hold; otherwise the fresh accounts
/// replace the old ones.  The duration and endpoint are always taken
/// from the arguments: omitting a previously set endpoint resets it.
#[verifier::loop_isolation(false)]
pub fn upsert_group(
    existing: Option<Group>,
    session_duration: Option<i64>,
    sts_endpoint: Option<String>,
    accounts: Vec<Account>,
    append_only: bool,
) -> (r: Group)
    ensures
        r.session_duration == session_duration,
        r.sts_endpoint == sts_endpoint,
        match existing {
            None => r.accounts@ == accounts@,
            Some(g) => {
                if append_only {
                    &&& r.accounts@.len() >= g.accounts@.len()
                    &&& (forall|k: int| 0 <= k < g.accounts@.len() ==> (#[trigger] r.accounts@[k])
                        == g.accounts@[k])
                    &&& account_full_views(r.accounts@.skip(g.accounts@.len() as int))
                        == spec_new_accounts(
                        account_full_views(accounts@),
                        account_views(g.accounts@).map_values(|p: (Seq<char>, Seq<char>)| p.0),
                        0,
                    )
                } else {
                    r.accounts@ == accounts@
                }
            },
        },
{
    match existing {
        None => Group { session_duration, sts_endpoint, accounts },
        Some(g) => {
            if append_only {
                let ghost g_names = account_views(g.accounts@).map_values(
                    |p: (Seq<char>, Seq<char>)| p.0,
                );
                let mut existing_names: Vec<String> = Vec::new();
                let mut i: usize = 0;
                while i < g.accounts.len()
                    invariant
                        i <= g.accounts@.len(),
                        crate::cookies::str_views(existing_names@) =~= g_names.take(i as int),
                    decreases g.accounts@.len() - i,
                {
                    proof {
                        assert(g_names[i as int] == g.accounts@[i as int].name@);
                    }
                    existing_names.push(g.accounts[i].name.clone());
                    proof {
                        assert(crate::cookies::str_views(existing_names@) =~= g_names.take(
                            i + 1 as int,
                        ));
                    }
                    i += 1;
                }
                proof {
                    assert(g_names.take(g.accounts@.len() as int) =~= g_names);
                }
                let ghost fv = account_full_views(accounts@);
                let mut merged = g.accounts;
                let ghost base_len = merged@.len();
                let mut j: usize = 0;
                while j < accounts.len()
                    invariant
                        j <= accounts@.len(),
                        base_len <= merged@.len(),
                        fv == account_full_views(accounts@),
                        crate::cookies::str_views(existing_names@) == g_names,
                        forall|k: int| 0 <= k < base_len ==> (#[trigger] merged@[k])
                            == g.accounts@[k],
                        account_full_views(merged@.skip(base_len as int)) + spec_new_accounts(
                            fv,
                            g_names,
                            j as int,
                        ) =~= spec_new_accounts(fv, g_names, 0),
                    decreases accounts@.len() - j,
                {
                    proof {
                        assert(fv[j as int] == (accounts@[j as int].name@, accounts@[
                            j as int].arn@, accounts@[j as int].valid_until));
                    }
                    let a = &accounts[j];
                    if !name_listed(&existing_names, a.name.as_str()) {
                        let copy = a.duplicate();
                        let ghost cv = (copy.name@, copy.arn@, copy.valid_until);
                        merged.push(copy);
                        proof {
                            assert(account_full_views(merged@.skip(base_len as int))
                                =~= account_full_views(merged@.drop_last().skip(base_len as int))
                                + seq![cv]);
                        }
                    }
                    j += 1;
                }
                Group { session_duration, sts_endpoint, accounts: merged }
            } else {
                Group { session_duration, sts_endpoint, accounts }
            }
        },
    }
}

} // verus!
