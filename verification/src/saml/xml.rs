//! A scanner for the XML subset used by SAML assertions and STS replies.
//!
//! The decoded documents are consumed structurally: attribute elements
//! are located by their local tag name (any namespace prefix before a
//! `:` is ignored, since the source documents qualify every element),
//! an element's `FriendlyName` attribute is read from its start tag,
//! and each `AttributeValue` child contributes the text up to the next
//! `<`.  Every executable function is proved equal to the index-based
//! specification functions below, so the exact scanning behaviour is
//! part of the crate's contracts.

use vstd::prelude::*;
use crate::text::{
    match_at, spec_find, spec_find_char, seq_views, eq_at, find_char_from, find_from, subvec,
    lemma_find_char_props, lemma_find_props,
};

verus! {

/// Characters that may appear in an XML element name.
pub open spec fn is_name_char(c: char) -> bool {
    ||| 'a' <= c <= 'z'
    ||| 'A' <= c <= 'Z'
    ||| '0' <= c <= '9'
    ||| c == '_'
    ||| c == '-'
    ||| c == '.'
}

/// End of the run of name characters starting at `i`.
pub open spec fn run_end(s: Seq<char>, i: int) -> int
    decreases s.len() - i + 1 when 0 <= i
{
    if i < s.len() && is_name_char(s[i]) {
        run_end(s, i + 1)
    } else {
        i
    }
}

pub proof fn lemma_run_end(s: Seq<char>, i: int)
    requires
        0 <= i,
    ensures
        i <= run_end(s, i),
        i <= s.len() ==> run_end(s, i) <= s.len(),
    decreases s.len() - i + 1,
{
    if i < s.len() && is_name_char(s[i]) {
        lemma_run_end(s, i + 1);
    }
}

/// Start of the local part of the element name beginning at `i`
/// (the part after an optional `prefix:`).
pub open spec fn local_name_start(s: Seq<char>, i: int) -> int {
    let e = run_end(s, i);
    if e < s.len() && s[e] == ':' {
        e + 1
    } else {
        i
    }
}

/// An opening tag whose local name is `name` starts at `i`.
pub open spec fn open_tag_at(s: Seq<char>, name: Seq<char>, i: int) -> bool {
    &&& 0 <= i
    &&& i + 1 < s.len()
    &&& s[i] == '<'
    &&& {
        let ls = local_name_start(s, i + 1);
        let le = run_end(s, ls);
        &&& name.len() > 0
        &&& le - ls == name.len()
        &&& s.subrange(ls, le) == name
    }
}

/// A closing tag whose local name is `name` starts at `i`.
pub open spec fn close_tag_at(s: Seq<char>, name: Seq<char>, i: int) -> bool {
    &&& 0 <= i
    &&& i + 2 < s.len()
    &&& s[i] == '<'
    &&& s[i + 1] == '/'
    &&& {
        let ls = local_name_start(s, i + 2);
        let le = run_end(s, ls);
        &&& name.len() > 0
        &&& le - ls == name.len()
        &&& s.subrange(ls, le) == name
    }
}

/// First opening tag with local name `name` at or after `i`.
pub open spec fn spec_find_open_tag(s: Seq<char>, name: Seq<char>, i: int) -> Option<int>
    decreases s.len() - i when 0 <= i
{
    if i >= s.len() {
        None
    } else if open_tag_at(s, name, i) {
        Some(i)
    } else {
        spec_find_open_tag(s, name, i + 1)
    }
}

/// First closing tag with local name `name` at or after `i`.
pub open spec fn spec_find_close_tag(s: Seq<char>, name: Seq<char>, i: int) -> Option<int>
    decreases s.len() - i when 0 <= i
{
    if i >= s.len() {
        None
    } else if close_tag_at(s, name, i) {
        Some(i)
    } else {
        spec_find_close_tag(s, name, i + 1)
    }
}

pub proof fn lemma_find_open_tag_props(s: Seq<char>, name: Seq<char>, i: int)
    requires
        0 <= i,
    ensures
        match spec_find_open_tag(s, name, i) {
            Some(j) => i <= j < s.len() && open_tag_at(s, name, j) && (forall|k: int|
                i <= k < j ==> !open_tag_at(s, name, k)),
            None => forall|k: int| i <= k ==> !open_tag_at(s, name, k),
        },
    decreases s.len() - i,
{
    if i >= s.len() {
        assert forall|k: int| i <= k implies !open_tag_at(s, name, k) by {
            if open_tag_at(s, name, k) {
                assert(k + 1 < s.len());
            }
        }
    } else if open_tag_at(s, name, i) {
    } else {
        lemma_find_open_tag_props(s, name, i + 1);
    }
}

pub proof fn lemma_find_close_tag_props(s: Seq<char>, name: Seq<char>, i: int)
    requires
        0 <= i,
    ensures
        match spec_find_close_tag(s, name, i) {
            Some(j) => i <= j < s.len() && close_tag_at(s, name, j) && (forall|k: int|
                i <= k < j ==> !close_tag_at(s, name, k)),
            None => forall|k: int| i <= k ==> !close_tag_at(s, name, k),
        },
    decreases s.len() - i,
{
    if i >= s.len() {
        assert forall|k: int| i <= k implies !close_tag_at(s, name, k) by {
            if close_tag_at(s, name, k) {
                assert(k + 2 < s.len());
            }
        }
    } else if close_tag_at(s, name, i) {
    } else {
        lemma_find_close_tag_props(s, name, i + 1);
    }
}

fn name_char(c: char) -> (r: bool)
    ensures
        r == is_name_char(c),
{
    ('a' <= c && c <= 'z') || ('A' <= c && c <= 'Z') || ('0' <= c && c <= '9') || c == '_'
        || c == '-' || c == '.'
}

/// End of the run of name characters starting at `i`.
pub fn run_end_at(s: &Vec<char>, i: usize) -> (r: usize)
    requires
        i <= s@.len(),
    ensures
        r == run_end(s@, i as int),
        i <= r <= s@.len(),
{
    let mut j: usize = i;
    while j < s.len() && name_char(s[j])
        invariant
            i <= j <= s@.len(),
            run_end(s@, i as int) == run_end(s@, j as int),
        decreases s@.len() - j,
    {
        j += 1;
    }
    j
}

fn local_start_at(s: &Vec<char>, i: usize) -> (r: usize)
    requires
        i <= s@.len(),
    ensures
        r == local_name_start(s@, i as int),
        i <= r <= s@.len(),
{
    let e = run_end_at(s, i);
    if e < s.len() && s[e] == ':' {
        e + 1
    } else {
        i
    }
}

/// Whether an opening tag with local name `name` starts at `i`.
pub fn is_open_tag_at(s: &Vec<char>, name: &Vec<char>, i: usize) -> (r: bool)
    requires
        i < s@.len(),
    ensures
        r == open_tag_at(s@, name@, i as int),
{
    let n = s.len();
    if s[i] != '<' || name.len() == 0 {
        return false;
    }
    if n - i <= 1 {
        return false;
    }
    let ls = local_start_at(s, i + 1);
    let le = run_end_at(s, ls);
    if le - ls != name.len() {
        return false;
    }
    let r = eq_at(s, name, ls);
    proof {
        assert(match_at(s@, name@, ls as int) == (s@.subrange(ls as int, ls + name@.len())
            == name@));
    }
    r
}

/// Whether a closing tag with local name `name` starts at `i`.
pub fn is_close_tag_at(s: &Vec<char>, name: &Vec<char>, i: usize) -> (r: bool)
    requires
        i < s@.len(),
    ensures
        r == close_tag_at(s@, name@, i as int),
{
    let n = s.len();
    if s[i] != '<' || name.len() == 0 {
        return false;
    }
    if n - i <= 2 {
        return false;
    }
    if s[i + 1] != '/' {
        return false;
    }
    let ls = local_start_at(s, i + 2);
    let le = run_end_at(s, ls);
    if le - ls != name.len() {
        return false;
    }
    let r = eq_at(s, name, ls);
    proof {
        assert(match_at(s@, name@, ls as int) == (s@.subrange(ls as int, ls + name@.len())
            == name@));
    }
    r
}

/// First opening tag with local name `name` at or after `from`.
pub fn find_open_tag(s: &Vec<char>, name: &Vec<char>, from: usize) -> (r: Option<usize>)
    ensures
        match r {
            Some(j) => spec_find_open_tag(s@, name@, from as int) == Some(j as int) && from <= j
                < s@.len(),
            None => spec_find_open_tag(s@, name@, from as int) is None,
        },
{
    let mut i: usize = from;
    while i < s.len()
        invariant
            from <= i,
            spec_find_open_tag(s@, name@, from as int) == spec_find_open_tag(s@, name@, i as int),
        decreases s@.len() - i,
    {
        if is_open_tag_at(s, name, i) {
            return Some(i);
        }
        i += 1;
    }
    None
}

/// First closing tag with local name `name` at or after `from`.
pub fn find_close_tag(s: &Vec<char>, name: &Vec<char>, from: usize) -> (r: Option<usize>)
    ensures
        match r {
            Some(j) => spec_find_close_tag(s@, name@, from as int) == Some(j as int) && from <= j
                < s@.len(),
            None => spec_find_close_tag(s@, name@, from as int) is None,
        },
{
    let mut i: usize = from;
    while i < s.len()
        invariant
            from <= i,
            spec_find_close_tag(s@, name@, from as int) == spec_find_close_tag(
                s@,
                name@,
                i as int,
            ),
        decreases s@.len() - i,
    {
        if is_close_tag_at(s, name, i) {
            return Some(i);
        }
        i += 1;
    }
    None
}

/// One attribute of a SAML attribute statement, as scanned from the
/// document: its `FriendlyName` and the text of each `AttributeValue`.
pub struct Attribute {
    pub friendly_name: Vec<char>,
    pub values: Vec<Vec<char>>,
}

/// The views of a sequence of scanned attributes.
pub open spec fn attr_views(attrs: Seq<Attribute>) -> Seq<(Seq<char>, Seq<Seq<char>>)> {
    attrs.map_values(|a: Attribute| (a.friendly_name@, seq_views(a.values@)))
}

/// The texts of the `AttributeValue` elements between `i` and `limit`.
pub open spec fn spec_values(s: Seq<char>, i: int, limit: int) -> Seq<Seq<char>>
    decreases limit - i when 0 <= i via values_decreases
{
    match spec_find_open_tag(s, ("AttributeValue")@, i) {
        None => seq![],
        Some(v) => if v >= limit {
            seq![]
        } else {
            match spec_find_char(s, '>', v) {
                None => seq![],
                Some(vgt) => match spec_find_char(s, '<', vgt + 1) {
                    None => seq![],
                    Some(lt) => if lt > limit {
                        seq![]
                    } else {
                        seq![s.subrange(vgt + 1, lt)] + spec_values(s, lt, limit)
                    },
                },
            }
        },
    }
}

#[via_fn]
proof fn values_decreases(s: Seq<char>, i: int, limit: int) {
    lemma_find_open_tag_props(s, ("AttributeValue")@, i);
    match spec_find_open_tag(s, ("AttributeValue")@, i) {
        Some(v) => {
            lemma_find_char_props(s, '>', v);
            match spec_find_char(s, '>', v) {
                Some(vgt) => {
                    lemma_find_char_props(s, '<', vgt + 1);
                },
                None => {},
            }
        },
        None => {},
    }
}

/// The `FriendlyName` attribute of the start tag spanning `[a, gt)`,
/// or empty if the tag carries none.
pub open spec fn spec_friendly(s: Seq<char>, a: int, gt: int) -> Seq<char> {
    match spec_find(s, ("FriendlyName=\"")@, a) {
        None => seq![],
        Some(f) => if f >= gt {
            seq![]
        } else {
            match spec_find_char(s, '"', f + ("FriendlyName=\"")@.len() as int) {
                None => seq![],
                Some(q) => s.subrange(f + ("FriendlyName=\"")@.len() as int, q),
            }
        },
    }
}

/// The attribute whose opening tag starts at `a`, and the position
/// after its closing tag; `None` if the element is not closed.
pub open spec fn spec_attribute_at(s: Seq<char>, a: int) -> Option<(
    (Seq<char>, Seq<Seq<char>>),
    int,
)> {
    match spec_find_char(s, '>', a) {
        None => None,
        Some(gt) => match spec_find_close_tag(s, ("Attribute")@, gt) {
            None => None,
            Some(cl) => Some(((spec_friendly(s, a, gt), spec_values(s, gt + 1, cl)), cl + 1)),
        },
    }
}

/// The attributes scanned from `i` up to `limit`.
pub open spec fn spec_attributes(s: Seq<char>, i: int, limit: int) -> Seq<(
    Seq<char>,
    Seq<Seq<char>>,
)>
    decreases limit - i when 0 <= i via attributes_decreases
{
    match spec_find_open_tag(s, ("Attribute")@, i) {
        None => seq![],
        Some(a) => if a >= limit {
            seq![]
        } else {
            match spec_attribute_at(s, a) {
                None => seq![],
                Some((attr, next)) => if next > limit {
                    seq![attr]
                } else {
                    seq![attr] + spec_attributes(s, next, limit)
                },
            }
        },
    }
}

#[via_fn]
proof fn attributes_decreases(s: Seq<char>, i: int, limit: int) {
    lemma_find_open_tag_props(s, ("Attribute")@, i);
    match spec_find_open_tag(s, ("Attribute")@, i) {
        Some(a) => {
            lemma_find_char_props(s, '>', a);
            match spec_find_char(s, '>', a) {
                Some(gt) => {
                    lemma_find_close_tag_props(s, ("Attribute")@, gt);
                },
                None => {},
            }
        },
        None => {},
    }
}

/// Collects the `AttributeValue` texts between `from` and `limit`.
fn collect_values(s: &Vec<char>, from: usize, limit: usize) -> (r: Vec<Vec<char>>)
    requires
        limit <= s@.len(),
    ensures
        seq_views(r@) == spec_values(s@, from as int, limit as int),
{
    let n = s.len();
    let tag = crate::text::chars_of("AttributeValue");
    let mut out: Vec<Vec<char>> = Vec::new();
    let mut pos: usize = from;
    loop
        invariant
            tag@ == ("AttributeValue")@,
            n == s@.len(),
            limit <= s@.len(),
            spec_values(s@, from as int, limit as int) =~= seq_views(out@) + spec_values(
                s@,
                pos as int,
                limit as int,
            ),
        decreases s@.len() - pos,
    {
        let v = match find_open_tag(s, &tag, pos) {
            None => {
                return out;
            },
            Some(v) => v,
        };
        if v >= limit {
            return out;
        }
        let vgt = match find_char_from(s, '>', v) {
            None => {
                return out;
            },
            Some(vgt) => vgt,
        };
        let lt = match find_char_from(s, '<', vgt + 1) {
            None => {
                return out;
            },
            Some(lt) => lt,
        };
        if lt > limit {
            return out;
        }
        let piece = subvec(s, vgt + 1, lt);
        out.push(piece);
        proof {
            assert(seq_views(out@) =~= seq_views(out@.drop_last()) + seq![piece@]);
        }
        pos = lt;
    }
}

/// Scans the attribute whose opening tag starts at `a`.
pub fn attribute_at(s: &Vec<char>, a: usize) -> (r: Option<(Attribute, usize)>)
    ensures
        match r {
            Some((attr, next)) => spec_attribute_at(s@, a as int) == Some(
                ((attr.friendly_name@, seq_views(attr.values@)), next as int),
            ) && a < next <= s@.len(),
            None => spec_attribute_at(s@, a as int) is None,
        },
{
    let n = s.len();
    let fr_pat = crate::text::chars_of("FriendlyName=\"");
    let gt = match find_char_from(s, '>', a) {
        None => {
            return None;
        },
        Some(gt) => gt,
    };
    let cl = match find_close_tag(s, &crate::text::chars_of("Attribute"), gt) {
        None => {
            return None;
        },
        Some(cl) => cl,
    };
    let friendly: Vec<char> = match find_from(s, &fr_pat, a) {
        None => Vec::new(),
        Some(f) => {
            if f >= gt {
                Vec::new()
            } else if fr_pat.len() > n - f {
                proof {
                    assert(spec_find_char(s@, '"', f + fr_pat@.len() as int) is None);
                }
                Vec::new()
            } else {
                match find_char_from(s, '"', f + fr_pat.len()) {
                    None => Vec::new(),
                    Some(q) => subvec(s, f + fr_pat.len(), q),
                }
            }
        },
    };
    let values = collect_values(s, gt + 1, cl);
    proof {
        assert(friendly@ == spec_friendly(s@, a as int, gt as int));
    }
    Some((Attribute { friendly_name: friendly, values }, cl + 1))
}

/// Scans all attributes between `from` and `limit`.
pub fn collect_attributes(s: &Vec<char>, from: usize, limit: usize) -> (r: Vec<Attribute>)
    requires
        limit <= s@.len(),
    ensures
        attr_views(r@) == spec_attributes(s@, from as int, limit as int),
{
    let tag = crate::text::chars_of("Attribute");
    let mut out: Vec<Attribute> = Vec::new();
    let mut pos: usize = from;
    loop
        invariant
            tag@ == ("Attribute")@,
            limit <= s@.len(),
            spec_attributes(s@, from as int, limit as int) =~= attr_views(out@)
                + spec_attributes(s@, pos as int, limit as int),
        decreases s@.len() + 1 - pos,
    {
        let a = match find_open_tag(s, &tag, pos) {
            None => {
                return out;
            },
            Some(a) => a,
        };
        if a >= limit {
            return out;
        }
        match attribute_at(s, a) {
            None => {
                return out;
            },
            Some((attr, next)) => {
                let ghost attr_view = (attr.friendly_name@, seq_views(attr.values@));
                out.push(attr);
                proof {
                    assert(attr_views(out@) =~= attr_views(out@.drop_last()) + seq![attr_view]);
                }
                if next > limit {
                    return out;
                }
                pos = next;
            },
        }
    }
}

} // verus!
