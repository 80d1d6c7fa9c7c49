//! The session cookie jar as a plain value type.
//!
//! One authentication pass owns its jar; when work fans out per
//! account, each task gets an independent clone, so no cookie state is
//! ever shared.  Setting a cookie removes any entry of the same name
//! and appends the new pair, and the `Cookie` request header lists the
//! pairs in order.

use vstd::prelude::*;

verus! {

/// An ordered list of name/value cookie pairs.
#[derive(Clone)]
pub struct CookieJar {
    pub cookies: Vec<(String, String)>,
}

/// The view of a jar: its name/value pairs as character sequences.
pub open spec fn jar_view(jar: CookieJar) -> Seq<(Seq<char>, Seq<char>)> {
    jar.cookies@.map_values(|c: (String, String)| (c.0@, c.1@))
}

/// The views of a vector of strings.
pub open spec fn str_views(v: Seq<String>) -> Seq<Seq<char>> {
    v.map_values(|s: String| s@)
}

/// `jar` from index `i` on, with every pair named `name` removed.
pub open spec fn spec_remove_cookie(
    jar: Seq<(Seq<char>, Seq<char>)>,
    name: Seq<char>,
    i: int,
) -> Seq<(Seq<char>, Seq<char>)>
    decreases jar.len() - i when 0 <= i
{
    if i >= jar.len() {
        seq![]
    } else if jar[i].0 == name {
        spec_remove_cookie(jar, name, i + 1)
    } else {
        seq![jar[i]] + spec_remove_cookie(jar, name, i + 1)
    }
}

/// Setting a cookie: any previous pair of the same name is removed
/// and the new pair appended.
pub open spec fn spec_jar_add(
    jar: Seq<(Seq<char>, Seq<char>)>,
    name: Seq<char>,
    value: Seq<char>,
) -> Seq<(Seq<char>, Seq<char>)> {
    spec_remove_cookie(jar, name, 0) + seq![(name, value)]
}

/// The name/value pair of a `Set-Cookie` header, if it parses.
pub uninterp spec fn spec_cookie_parse(s: Seq<char>) -> Option<(Seq<char>, Seq<char>)>;

/// Relies on cookie's `Cookie::parse`: the name and value of a header
/// are a function of the header string alone, and parsing fails
/// exactly on headers the crate rejects.
#[verifier::external_body]
fn cookie_parse(s: &str) -> (r: Option<(String, String)>)
    ensures
        match r {
            Some(nv) => spec_cookie_parse(s@) == Some((nv.0@, nv.1@)),
            None => spec_cookie_parse(s@) is None,
        },
{
    match cookie::Cookie::parse(s) {
        Ok(c) => Some((c.name().to_string(), c.value().to_string())),
        Err(_) => None,
    }
}

/// The jar after merging the headers from index `i` on: each header
/// that parses sets its cookie, unparsable headers are skipped.
pub open spec fn spec_merge_cookies(
    jar: Seq<(Seq<char>, Seq<char>)>,
    headers: Seq<Seq<char>>,
    i: int,
) -> Seq<(Seq<char>, Seq<char>)>
    decreases headers.len() - i when 0 <= i
{
    if i >= headers.len() {
        jar
    } else {
        match spec_cookie_parse(headers[i]) {
            None => spec_merge_cookies(jar, headers, i + 1),
            Some(nv) => spec_merge_cookies(spec_jar_add(jar, nv.0, nv.1), headers, i + 1),
        }
    }
}

/// The `Cookie` request header for the pairs from index `i` on:
/// `name=value` entries joined by `; `.
pub open spec fn spec_cookie_header_from(jar: Seq<(Seq<char>, Seq<char>)>, i: int) -> Seq<char>
    decreases jar.len() - i when 0 <= i
{
    if i >= jar.len() {
        seq![]
    } else if i == jar.len() - 1 {
        jar[i].0 + seq!['='] + jar[i].1
    } else {
        jar[i].0 + seq!['='] + jar[i].1 + seq![';', ' '] + spec_cookie_header_from(jar, i + 1)
    }
}

/// The `Cookie` request header of a whole jar.
pub open spec fn spec_cookie_header(jar: Seq<(Seq<char>, Seq<char>)>) -> Seq<char> {
    spec_cookie_header_from(jar, 0)
}

impl CookieJar {
    /// An empty jar.
    pub fn new() -> (r: CookieJar)
        ensures
            jar_view(r) == Seq::<(Seq<char>, Seq<char>)>::empty(),
    {
        let r = CookieJar { cookies: Vec::new() };
        proof {
            assert(jar_view(r) =~= Seq::<(Seq<char>, Seq<char>)>::empty());
        }
        r
    }

    /// Sets a cookie, replacing any previous pair of the same name.
    #[verifier::loop_isolation(false)]
    pub fn add(&mut self, name: String, value: String)
        ensures
            jar_view(*final(self)) == spec_jar_add(jar_view(*old(self)), name@, value@),
    {
        let ghost jv = jar_view(*old(self));
        let mut kept: Vec<(String, String)> = Vec::new();
        let mut i: usize = 0;
        proof {
            assert(jar_view(*old(self)).map_values(|c: (Seq<char>, Seq<char>)| c)
                =~= jar_view(*old(self)));
        }
        while i < self.cookies.len()
            invariant
                i <= self.cookies@.len(),
                spec_remove_cookie(jv, name@, 0) =~= kept@.map_values(
                    |c: (String, String)| (c.0@, c.1@),
                ) + spec_remove_cookie(jv, name@, i as int),
            decreases self.cookies@.len() - i,
        {
            proof {
                assert(jv[i as int] == (self.cookies@[i as int].0@, self.cookies@[i as int].1@));
            }
            let entry = &self.cookies[i];
            if !crate::text::str_eq(entry.0.as_str(), name.as_str()) {
                let pair = (entry.0.clone(), entry.1.clone());
                let ghost pv = (pair.0@, pair.1@);
                kept.push(pair);
                proof {
                    assert(kept@.map_values(|c: (String, String)| (c.0@, c.1@)) =~= kept@
                        .drop_last().map_values(|c: (String, String)| (c.0@, c.1@)) + seq![pv]);
                }
            }
            i += 1;
        }
        let ghost nv = (name@, value@);
        kept.push((name, value));
        proof {
            assert(kept@.map_values(|c: (String, String)| (c.0@, c.1@)) =~= kept@.drop_last()
                .map_values(|c: (String, String)| (c.0@, c.1@)) + seq![nv]);
        }
        self.cookies = kept;
        proof {
            assert(jar_view(*self) =~= spec_jar_add(jv, name@, value@));
        }
    }

    /// Merges the `Set-Cookie` headers of one response into the jar,
    /// in order; headers that do not parse are skipped.
    #[verifier::loop_isolation(false)]
    pub fn merge_set_cookies(&mut self, headers: &Vec<String>)
        ensures
            jar_view(*final(self)) == spec_merge_cookies(
                jar_view(*old(self)),
                str_views(headers@),
                0,
            ),
    {
        let ghost hv = str_views(headers@);
        let mut i: usize = 0;
        while i < headers.len()
            invariant
                i <= headers@.len(),
                spec_merge_cookies(jar_view(*old(self)), hv, 0) == spec_merge_cookies(
                    jar_view(*self),
                    hv,
                    i as int,
                ),
            decreases headers@.len() - i,
        {
            proof {
                assert(hv[i as int] == headers@[i as int]@);
            }
            match cookie_parse(headers[i].as_str()) {
                None => {},
                Some(nv) => {
                    self.add(nv.0, nv.1);
                },
            }
            i += 1;
        }
    }

    /// The `Cookie` request header for this jar.
    #[verifier::loop_isolation(false)]
    pub fn header(&self) -> (r: String)
        ensures
            r@ == spec_cookie_header(jar_view(*self)),
    {
        let ghost jv = jar_view(*self);
        let mut out: Vec<char> = Vec::new();
        let mut i: usize = 0;
        proof {
            assert(out@ + spec_cookie_header_from(jv, 0) =~= spec_cookie_header_from(jv, 0));
        }
        while i < self.cookies.len()
            invariant
                i <= self.cookies@.len(),
                spec_cookie_header(jv) =~= out@ + spec_cookie_header_from(jv, i as int),
            decreases self.cookies@.len() - i,
        {
            proof {
                assert(jv[i as int] == (self.cookies@[i as int].0@, self.cookies@[i as int].1@));
            }
            let entry = &self.cookies[i];
            let mut name_chars = crate::text::chars_of(entry.0.as_str());
            out.append(&mut name_chars);
            out.push('=');
            let mut value_chars = crate::text::chars_of(entry.1.as_str());
            out.append(&mut value_chars);
            if i + 1 < self.cookies.len() {
                out.push(';');
                out.push(' ');
            }
            proof {
                assert(spec_cookie_header(jv) =~= out@ + spec_cookie_header_from(jv, i + 1));
            }
            i += 1;
        }
        crate::text::string_from_chars(&out)
    }
}

} // verus!
