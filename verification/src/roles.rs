//! Reading role listings out of plain-text output.

use vstd::prelude::*;
use crate::text::seq_views;

verus! {

/// One role line of a listing: the account's display name, its
/// numeric id, and the role ARN.
#[derive(Debug)]
pub struct RoleListing {
    pub name: String,
    pub id: String,
    pub arn: String,
}

/// The view of an optional capture.
pub open spec fn capture_view(o: Option<String>) -> Option<Seq<char>> {
    match o {
        Some(s) => Some(s@),
        None => None,
    }
}

/// The views of a capture table: one row per match, one cell per
/// group.
pub open spec fn caps_views(v: Seq<Vec<Option<String>>>) -> Seq<Seq<Option<Seq<char>>>> {
    v.map_values(|g: Vec<Option<String>>| g@.map_values(|o: Option<String>| capture_view(o)))
}

/// All matches of a pattern in a text, each as its capture groups
/// (whole match first); `None` exactly when the pattern is invalid.
pub uninterp spec fn spec_captures(pattern: Seq<char>, text: Seq<char>) -> Option<
    Seq<Seq<Option<Seq<char>>>>,
>;

/// Relies on regex's `Regex::new` and `Regex::captures_iter`: the
/// non-overlapping matches of the pattern in the text, in order, each
/// with its capture groups — a function of the pattern and the text
/// alone.  Building the regex fails exactly on invalid patterns.
#[verifier::external_body]
pub fn regex_captures(pattern: &str, text: &str) -> (r: Option<Vec<Vec<Option<String>>>>)
    ensures
        match r {
            Some(v) => spec_captures(pattern@, text@) == Some(caps_views(v@)),
            None => spec_captures(pattern@, text@) is None,
        },
{
    let re = match regex::Regex::new(pattern) {
        Ok(re) => re,
        Err(_) => return None,
    };
    Some(
        re.captures_iter(text).map(
            |c| (0..c.len()).map(|g| c.get(g).map(|m| m.as_str().to_string())).collect(),
        ).collect(),
    )
}

/// The listings read from a capture table, from row `i` on: rows with
/// all three groups present yield one listing each, other rows are
/// skipped.
pub open spec fn spec_role_rows(caps: Seq<Seq<Option<Seq<char>>>>, i: int) -> Seq<
    (Seq<char>, Seq<char>, Seq<char>),
>
    decreases caps.len() - i when 0 <= i
{
    if i >= caps.len() {
        seq![]
    } else if caps[i].len() >= 4 {
        match (caps[i][1], caps[i][2], caps[i][3]) {
            (Some(name), Some(id), Some(arn)) => seq![(name, id, arn)] + spec_role_rows(
                caps,
                i + 1,
            ),
            _ => spec_role_rows(caps, i + 1),
        }
    } else {
        spec_role_rows(caps, i + 1)
    }
}

/// The views of a listing vector.
pub open spec fn listing_views(rs: Seq<RoleListing>) -> Seq<(Seq<char>, Seq<char>, Seq<char>)> {
    rs.map_values(|r: RoleListing| (r.name@, r.id@, r.arn@))
}

/// Reads the `Account: <name> (<id>)` / ARN line pairs out of a role
/// listing, in order of appearance.
#[verifier::loop_isolation(false)]
pub fn parse_role_response(output: &str) -> (r: Vec<RoleListing>)
    ensures
        match spec_captures(("Account: (.*?) \\(([0-9]+)\\)\n(?m)^(.*)$(?-m)")@, output@) {
            None => r@.len() == 0,
            Some(caps) => listing_views(r@) == spec_role_rows(caps, 0),
        },
{
    let caps = match regex_captures("Account: (.*?) \\(([0-9]+)\\)\n(?m)^(.*)$(?-m)", output) {
        None => {
            return Vec::new();
        },
        Some(c) => c,
    };
    let ghost cv = caps_views(caps@);
    let mut out: Vec<RoleListing> = Vec::new();
    let mut i: usize = 0;
    proof {
        assert(listing_views(out@) =~= Seq::<(Seq<char>, Seq<char>, Seq<char>)>::empty());
    }
    while i < caps.len()
        invariant
            i <= caps@.len(),
            cv == caps_views(caps@),
            spec_role_rows(cv, 0) =~= listing_views(out@) + spec_role_rows(cv, i as int),
        decreases caps@.len() - i,
    {
        proof {
            assert(cv[i as int] == caps@[i as int]@.map_values(
                |o: Option<String>| capture_view(o),
            ));
        }
        let row = &caps[i];
        if row.len() >= 4 {
            proof {
                assert(cv[i as int][1] == capture_view(caps@[i as int]@[1]));
                assert(cv[i as int][2] == capture_view(caps@[i as int]@[2]));
                assert(cv[i as int][3] == capture_view(caps@[i as int]@[3]));
            }
            match (&row[1], &row[2], &row[3]) {
                (Some(name), Some(id), Some(arn)) => {
                    let listing = RoleListing {
                        name: name.clone(),
                        id: id.clone(),
                        arn: arn.clone(),
                    };
                    let ghost lv = (listing.name@, listing.id@, listing.arn@);
                    out.push(listing);
                    proof {
                        assert(listing_views(out@) =~= listing_views(out@.drop_last()) + seq![lv]);
                    }
                },
                _ => {},
            }
        }
        i += 1;
    }
    out
}

} // verus!
