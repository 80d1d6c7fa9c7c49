//! AWS-side pieces: the assume-role client, the STS response model,
//! and discovery of accounts on the SAML role-selection page.

pub mod assume_role;
pub mod xml;

use vstd::prelude::*;

verus! {

/// An AWS-side failure, carrying a human message.
#[derive(Debug)]
pub struct AwsError {
    pub description: String,
}

impl AwsError {
    /// A new error carrying `message`.
    pub fn new(message: &str) -> (r: Self)
        ensures
            r.description@ == message@,
    {
        AwsError { description: message.to_owned() }
    }
}

/// One AWS account offered on the role-selection page.
#[derive(Debug)]
pub struct AWSAccountInfo {
    pub name: String,
    pub arn: String,
}

/// The view of an optional string.
pub open spec fn opt_html_view(o: Option<String>) -> Option<Seq<char>> {
    match o {
        Some(s) => Some(s@),
        None => None,
    }
}

/// The views of one scanned account block.
pub open spec fn div_view(d: (Option<String>, Vec<Option<String>>)) -> (
    Option<Seq<char>>,
    Seq<Option<Seq<char>>>,
) {
    (opt_html_view(d.0), d.1@.map_values(|o: Option<String>| opt_html_view(o)))
}

/// The account blocks of the role-selection page: for each
/// `fieldset > div.saml-account`, the inner HTML of its first
/// account-name element and the `for` attribute of each role's
/// description label (`None` when absent), in document order.
pub uninterp spec fn spec_account_divs(doc: Seq<char>) -> Seq<(
    Option<Seq<char>>,
    Seq<Option<Seq<char>>>,
)>;

/// Relies on scraper's `Html::parse_document`, `Selector::parse`,
/// `ElementRef::inner_html` and `ElementRef::attr`: the account
/// blocks of the page in document order, a function of the document
/// alone.
#[verifier::external_body]
fn query_account_divs(doc: &str) -> (r: Vec<(Option<String>, Vec<Option<String>>)>)
    ensures
        r@.map_values(|d: (Option<String>, Vec<Option<String>>)| div_view(d))
            == spec_account_divs(doc@),
{
    let html = scraper::Html::parse_document(doc);
    let account_sel = scraper::Selector::parse("fieldset > div.saml-account").unwrap();
    let name_sel = scraper::Selector::parse("div.saml-account-name").unwrap();
    let role_sel = scraper::Selector::parse("div.saml-role").unwrap();
    let arn_sel = scraper::Selector::parse("label.saml-role-description").unwrap();
    html.select(&account_sel).map(|div| (
        div.select(&name_sel).next().map(|n| n.inner_html()),
        div.select(&role_sel).map(
            |role| role.select(&arn_sel).next().and_then(|l| l.value().attr("for")).map(
                |s| s.to_string(),
            ),
        ).collect(),
    )).collect()
}

/// The accounts contributed by one block's role cells, from `j` on:
/// one `(name, arn)` pair per present ARN.
pub open spec fn spec_cell_accounts(
    name: Seq<char>,
    cells: Seq<Option<Seq<char>>>,
    j: int,
) -> Seq<(Seq<char>, Seq<char>)>
    decreases cells.len() - j when 0 <= j
{
    if j >= cells.len() {
        seq![]
    } else {
        match cells[j] {
            Some(arn) => seq![(name, arn)] + spec_cell_accounts(name, cells, j + 1),
            None => spec_cell_accounts(name, cells, j + 1),
        }
    }
}

/// The accounts contributed by one block: none when the block has no
/// name element or the name pattern does not match; an error when the
/// account name cannot be extracted from a match.
pub open spec fn spec_div_accounts(
    name_html: Option<Seq<char>>,
    cells: Seq<Option<Seq<char>>>,
) -> Result<Seq<(Seq<char>, Seq<char>)>, ()> {
    match name_html {
        None => Ok(seq![]),
        Some(html) => match crate::roles::spec_captures(("Account: (.*?) \\(")@, html) {
            None => Err(()),
            Some(cs) => if cs.len() == 0 {
                Ok(seq![])
            } else if cs[0].len() < 2 {
                Err(())
            } else {
                match cs[0][1] {
                    None => Err(()),
                    Some(name) => Ok(spec_cell_accounts(name, cells, 0)),
                }
            },
        },
    }
}

/// `pre` prepended to a successful account list.
pub open spec fn res_prepend(
    pre: Seq<(Seq<char>, Seq<char>)>,
    r: Result<Seq<(Seq<char>, Seq<char>)>, ()>,
) -> Result<Seq<(Seq<char>, Seq<char>)>, ()> {
    match r {
        Err(u) => Err(u),
        Ok(x) => Ok(pre + x),
    }
}

/// The accounts of all blocks from index `i` on, in order.
pub open spec fn spec_div_list_accounts(
    divs: Seq<(Option<Seq<char>>, Seq<Option<Seq<char>>>)>,
    i: int,
) -> Result<Seq<(Seq<char>, Seq<char>)>, ()>
    decreases divs.len() - i when 0 <= i
{
    if i >= divs.len() {
        Ok(seq![])
    } else {
        match spec_div_accounts(divs[i].0, divs[i].1) {
            Err(u) => Err(u),
            Ok(a) => res_prepend(a, spec_div_list_accounts(divs, i + 1)),
        }
    }
}

/// Discovers the accounts offered on the AWS role-selection page.
///
/// Each account block contributes one entry per role, named by the
/// `Account: <name> (` pattern in the block's name element; blocks
/// without a name element or a pattern match are skipped, as are
/// roles without a description label.  When the page lists nothing,
/// the SAML assertion itself is decoded: its first role yields a
/// single entry named by the account id, and an assertion without
/// roles is an error.
#[verifier::loop_isolation(false)]
pub fn extract_saml_accounts(body: &str, saml_response_b64: &str) -> (r: Result<
    Vec<AWSAccountInfo>,
    AwsError,
>)
    ensures
        match spec_div_list_accounts(spec_account_divs(body@), 0) {
            Err(u) => match r {
                Err(e) => e.description@ == ("Could not extract account name")@,
                Ok(_) => false,
            },
            Ok(found) => if found.len() > 0 {
                match r {
                    Ok(v) => crate::groups::info_views(v@) == found,
                    Err(_) => false,
                }
            } else {
                match crate::saml::spec_parse_assertion(saml_response_b64@) {
                    Err(se) => match r {
                        Err(e) => e.description@ == ("Could not parse the SAML assertion")@,
                        Ok(_) => false,
                    },
                    Ok(t) => if t.2.len() == 0 {
                        match r {
                            Err(e) => e.description@ == (
                            "No role was found in the HTML or SAML Assertion")@,
                            Ok(_) => false,
                        }
                    } else {
                        match crate::saml::spec_arn_info(t.2[0].0) {
                            Some(info) => match r {
                                Ok(v) => crate::groups::info_views(v@) == seq![
                                    (info.0, t.2[0].0),
                                ],
                                Err(_) => false,
                            },
                            None => true,
                        }
                    },
                }
            },
        },
{
    let divs = query_account_divs(body);
    let ghost dv = spec_account_divs(body@);
    let mut found: Vec<AWSAccountInfo> = Vec::new();
    let mut i: usize = 0;
    proof {
        assert(crate::groups::info_views(found@) =~= Seq::<(Seq<char>, Seq<char>)>::empty());
    }
    while i < divs.len()
        invariant
            i <= divs@.len(),
            dv == divs@.map_values(|d: (Option<String>, Vec<Option<String>>)| div_view(d)),
            spec_div_list_accounts(dv, 0) == res_prepend(
                crate::groups::info_views(found@),
                spec_div_list_accounts(dv, i as int),
            ),
        decreases divs@.len() - i,
    {
        proof {
            assert(dv[i as int] == div_view(divs@[i as int]));
        }
        let div = &divs[i];
        match &div.0 {
            None => {
                proof {
                    assert(spec_div_accounts(dv[i as int].0, dv[i as int].1) == Ok::<_, ()>(
                        Seq::<(Seq<char>, Seq<char>)>::empty(),
                    ));
                    match spec_div_list_accounts(dv, i + 1) {
                        Ok(rest) => {
                            assert(Seq::<(Seq<char>, Seq<char>)>::empty() + rest =~= rest);
                        },
                        Err(_) => {},
                    }
                }
            },
            Some(html) => {
                let caps = match crate::roles::regex_captures(
                    "Account: (.*?) \\(",
                    html.as_str(),
                ) {
                    None => {
                        return Err(AwsError::new("Could not extract account name"));
                    },
                    Some(c) => c,
                };
                if caps.len() == 0 {
                    proof {
                        match spec_div_list_accounts(dv, i + 1) {
                            Ok(rest) => {
                                assert(Seq::<(Seq<char>, Seq<char>)>::empty() + rest =~= rest);
                            },
                            Err(_) => {},
                        }
                    }
                } else {
                    let row = &caps[0];
                    proof {
                        assert(crate::roles::caps_views(caps@)[0] == caps@[0]@.map_values(
                            |o: Option<String>| crate::roles::capture_view(o),
                        ));
                    }
                    if row.len() < 2 {
                        return Err(AwsError::new("Could not extract account name"));
                    }
                    proof {
                        assert(crate::roles::caps_views(caps@)[0][1]
                            == crate::roles::capture_view(caps@[0]@[1]));
                    }
                    let name = match &row[1] {
                        None => {
                            return Err(AwsError::new("Could not extract account name"));
                        },
                        Some(n) => n,
                    };
                    let ghost namev = name@;
                    let ghost cellsv = dv[i as int].1;
                    let ghost base = found@.len();
                    let mut j: usize = 0;
                    proof {
                        assert(crate::groups::info_views(found@.skip(base as int))
                            =~= Seq::<(Seq<char>, Seq<char>)>::empty());
                        assert(found@.take(base as int) =~= found@);
                    }
                    while j < div.1.len()
                        invariant
                            j <= div.1@.len(),
                            base <= found@.len(),
                            cellsv == div.1@.map_values(
                                |o: Option<String>| opt_html_view(o),
                            ),
                            crate::groups::info_views(found@.skip(base as int))
                                + spec_cell_accounts(namev, cellsv, j as int)
                                =~= spec_cell_accounts(namev, cellsv, 0),
                            spec_div_list_accounts(dv, 0) == res_prepend(
                                crate::groups::info_views(found@.take(base as int)),
                                spec_div_list_accounts(dv, i as int),
                            ),
                        decreases div.1@.len() - j,
                    {
                        proof {
                            assert(cellsv[j as int] == opt_html_view(div.1@[j as int]));
                        }
                        match &div.1[j] {
                            Some(arn) => {
                                let a = AWSAccountInfo { name: name.clone(), arn: arn.clone() };
                                let ghost av = (a.name@, a.arn@);
                                let ghost pre = found@;
                                found.push(a);
                                proof {
                                    assert(crate::groups::info_views(found@.skip(base as int))
                                        =~= crate::groups::info_views(pre.skip(base as int))
                                        + seq![av]);
                                    assert(found@.take(base as int) =~= pre.take(base as int));
                                }
                            },
                            None => {},
                        }
                        j += 1;
                    }
                    proof {
                        assert(spec_div_accounts(dv[i as int].0, dv[i as int].1) == Ok::<_, ()>(
                            spec_cell_accounts(namev, cellsv, 0),
                        ));
                        assert(found@.take(base as int) + found@.skip(base as int) =~= found@);
                        assert(crate::groups::info_views(found@) =~= crate::groups::info_views(
                            found@.take(base as int),
                        ) + crate::groups::info_views(found@.skip(base as int)));
                        match spec_div_list_accounts(dv, i + 1) {
                            Ok(rest) => {
                                assert((crate::groups::info_views(found@.take(base as int))
                                    + spec_cell_accounts(namev, cellsv, 0)) + rest
                                    =~= crate::groups::info_views(found@.take(base as int)) + (
                                spec_cell_accounts(namev, cellsv, 0) + rest));
                            },
                            Err(_) => {},
                        }
                    }
                }
            },
        }
        i += 1;
    }
    if found.len() > 0 {
        return Ok(found);
    }
    let assertion = match crate::saml::parse_assertion(saml_response_b64) {
        Err(_) => {
            return Err(AwsError::new("Could not parse the SAML assertion"));
        },
        Ok(a) => a,
    };
    if assertion.roles.len() == 0 {
        return Err(AwsError::new("No role was found in the HTML or SAML Assertion"));
    }
    let first = &assertion.roles[0];
    let out_entry = AWSAccountInfo { name: first.account_id.clone(), arn: first.arn.clone() };
    let mut out: Vec<AWSAccountInfo> = Vec::new();
    let ghost ov = (out_entry.name@, out_entry.arn@);
    out.push(out_entry);
    proof {
        assert(crate::saml::role_views(assertion.roles@)[0] == (assertion.roles@[0].arn@,
            assertion.roles@[0].principal_arn@));
        assert(crate::groups::info_views(out@) =~= seq![ov]);
    }
    Ok(out)
}

} // verus!
