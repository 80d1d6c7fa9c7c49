//! Character-sequence scanning primitives.
//!
//! Every executable function here is proved equal to an index-based
//! specification function over `Seq<char>`; the parsers in the rest of
//! the crate state their contracts in terms of these specifications.

use vstd::prelude::*;

verus! {

/// The pattern `pat` occurs in `s` at position `i`.
pub open spec fn match_at(s: Seq<char>, pat: Seq<char>, i: int) -> bool {
    &&& 0 <= i
    &&& i + pat.len() <= s.len()
    &&& s.subrange(i, i + pat.len() as int) == pat
}

/// Position of the first occurrence of `pat` in `s` at or after `i`.
pub open spec fn spec_find(s: Seq<char>, pat: Seq<char>, i: int) -> Option<int>
    decreases s.len() - i + 1 when 0 <= i
{
    if i + pat.len() > s.len() {
        None
    } else if match_at(s, pat, i) {
        Some(i)
    } else {
        spec_find(s, pat, i + 1)
    }
}

/// `pat` occurs somewhere in `s`.
pub open spec fn contains_seq(s: Seq<char>, pat: Seq<char>) -> bool {
    spec_find(s, pat, 0) is Some
}

/// Position of the first occurrence of the character `c` at or after `i`.
pub open spec fn spec_find_char(s: Seq<char>, c: char, i: int) -> Option<int>
    decreases s.len() - i when 0 <= i
{
    if i >= s.len() {
        None
    } else if s[i] == c {
        Some(i)
    } else {
        spec_find_char(s, c, i + 1)
    }
}

pub proof fn lemma_find_props(s: Seq<char>, pat: Seq<char>, i: int)
    requires
        0 <= i,
    ensures
        match spec_find(s, pat, i) {
            Some(j) => i <= j && match_at(s, pat, j) && (forall|k: int|
                i <= k < j ==> !match_at(s, pat, k)),
            None => forall|k: int| i <= k ==> !match_at(s, pat, k),
        },
    decreases s.len() - i + 1,
{
    if i + pat.len() > s.len() {
    } else if match_at(s, pat, i) {
    } else {
        lemma_find_props(s, pat, i + 1);
    }
}

pub proof fn lemma_find_char_props(s: Seq<char>, c: char, i: int)
    requires
        0 <= i,
    ensures
        match spec_find_char(s, c, i) {
            Some(j) => i <= j < s.len() && s[j] == c && (forall|k: int|
                i <= k < j ==> s[k] != c),
            None => forall|k: int| i <= k < s.len() ==> s[k] != c,
        },
    decreases s.len() - i,
{
    if i >= s.len() {
    } else if s[i] == c {
    } else {
        lemma_find_char_props(s, c, i + 1);
    }
}

pub proof fn lemma_find_char_at(s: Seq<char>, c: char, i: int, j: int)
    requires
        0 <= i <= j < s.len(),
        s[j] == c,
        forall|k: int| i <= k < j ==> s[k] != c,
    ensures
        spec_find_char(s, c, i) == Some(j),
    decreases j - i,
{
    if i < j {
        lemma_find_char_at(s, c, i + 1, j);
    }
}

pub proof fn lemma_find_char_none(s: Seq<char>, c: char, i: int)
    requires
        0 <= i,
        forall|k: int| i <= k < s.len() ==> s[k] != c,
    ensures
        spec_find_char(s, c, i) is None,
    decreases s.len() - i,
{
    if i < s.len() {
        lemma_find_char_none(s, c, i + 1);
    }
}

/// `s` from position `i` on, split on the character `c`.
pub open spec fn spec_split_from(s: Seq<char>, c: char, i: int) -> Seq<Seq<char>>
    decreases s.len() - i when 0 <= i <= s.len() via split_from_decreases
{
    match spec_find_char(s, c, i) {
        None => seq![s.subrange(i, s.len() as int)],
        Some(j) => seq![s.subrange(i, j)] + spec_split_from(s, c, j + 1),
    }
}

#[via_fn]
proof fn split_from_decreases(s: Seq<char>, c: char, i: int) {
    lemma_find_char_props(s, c, i);
}

/// `s` split on the character `c`; always at least one (possibly empty) field.
pub open spec fn spec_split(s: Seq<char>, c: char) -> Seq<Seq<char>> {
    spec_split_from(s, c, 0)
}

/// The views of a sequence of character vectors.
pub open spec fn seq_views(vs: Seq<Vec<char>>) -> Seq<Seq<char>> {
    vs.map_values(|v: Vec<char>| v@)
}

/// Whether the characters `pat` occur at position `i` of `s`.
pub fn eq_at(s: &Vec<char>, pat: &Vec<char>, i: usize) -> (r: bool)
    requires
        i + pat@.len() <= s@.len(),
    ensures
        r == match_at(s@, pat@, i as int),
{
    let n = s.len();
    let mut j: usize = 0;
    while j < pat.len()
        invariant
            j <= pat@.len(),
            i + pat@.len() <= s@.len(),
            n == s@.len(),
            forall|k: int| 0 <= k < j ==> s@[i + k] == pat@[k],
        decreases pat@.len() - j,
    {
        if s[i + j] != pat[j] {
            proof {
                assert(s@.subrange(i as int, i + pat@.len() as int)[j as int] == s@[i + j]);
            }
            return false;
        }
        j += 1;
    }
    proof {
        assert(s@.subrange(i as int, i + pat@.len() as int) =~= pat@);
    }
    true
}

/// First occurrence of `pat` in `s` at or after `from`.
pub fn find_from(s: &Vec<char>, pat: &Vec<char>, from: usize) -> (r: Option<usize>)
    ensures
        match r {
            Some(j) => spec_find(s@, pat@, from as int) == Some(j as int),
            None => spec_find(s@, pat@, from as int) is None,
        },
{
    let n = s.len();
    if pat.len() > n {
        return None;
    }
    let m = n - pat.len();
    let mut i: usize = from;
    if i > m {
        proof {
            lemma_find_props(s@, pat@, from as int);
        }
        return None;
    }
    while i < m
        invariant
            from <= i <= m,
            m + pat@.len() == s@.len(),
            spec_find(s@, pat@, from as int) == spec_find(s@, pat@, i as int),
        decreases m - i,
    {
        if eq_at(s, pat, i) {
            return Some(i);
        }
        i += 1;
    }
    if eq_at(s, pat, m) {
        return Some(m);
    }
    proof {
        assert(spec_find(s@, pat@, m + 1) is None);
        assert(spec_find(s@, pat@, m as int) is None);
    }
    None
}

/// Whether `pat` occurs anywhere in `s`.
pub fn contains_sub(s: &Vec<char>, pat: &Vec<char>) -> (r: bool)
    ensures
        r == contains_seq(s@, pat@),
{
    find_from(s, pat, 0).is_some()
}

/// First occurrence of the character `c` in `s` at or after `from`.
pub fn find_char_from(s: &Vec<char>, c: char, from: usize) -> (r: Option<usize>)
    ensures
        match r {
            Some(j) => spec_find_char(s@, c, from as int) == Some(j as int)
                && from <= j < s@.len(),
            None => spec_find_char(s@, c, from as int) is None,
        },
{
    let mut i: usize = from;
    while i < s.len()
        invariant
            from <= i,
            spec_find_char(s@, c, from as int) == spec_find_char(s@, c, i as int),
        decreases s@.len() - i,
    {
        if s[i] == c {
            return Some(i);
        }
        i += 1;
    }
    None
}

/// Copy of `s[a..b]`.
pub fn subvec(s: &Vec<char>, a: usize, b: usize) -> (r: Vec<char>)
    requires
        a <= b <= s@.len(),
    ensures
        r@ == s@.subrange(a as int, b as int),
{
    let mut r: Vec<char> = Vec::new();
    let mut k: usize = a;
    while k < b
        invariant
            a <= k <= b <= s@.len(),
            r@ == s@.subrange(a as int, k as int),
        decreases b - k,
    {
        r.push(s[k]);
        proof {
            assert(r@ =~= s@.subrange(a as int, k + 1 as int));
        }
        k += 1;
    }
    r
}

/// `s` split on the character `c`.
pub fn split_char(s: &Vec<char>, c: char) -> (r: Vec<Vec<char>>)
    ensures
        seq_views(r@) == spec_split(s@, c),
        r@.len() >= 1,
{
    let n = s.len();
    let mut parts: Vec<Vec<char>> = Vec::new();
    let mut pos: usize = 0;
    loop
        invariant
            pos <= s@.len(),
            n == s@.len(),
            spec_split(s@, c) =~= seq_views(parts@) + spec_split_from(s@, c, pos as int),
        decreases s@.len() - pos,
    {
        match find_char_from(s, c, pos) {
            Some(j) => {
                let piece = subvec(s, pos, j);
                parts.push(piece);
                proof {
                    assert(seq_views(parts@) =~= seq_views(parts@.drop_last()) + seq![piece@]);
                }
                pos = j + 1;
            },
            None => {
                let piece = subvec(s, pos, s.len());
                parts.push(piece);
                proof {
                    assert(seq_views(parts@) =~= seq_views(parts@.drop_last()) + seq![piece@]);
                    assert(spec_split(s@, c) =~= seq_views(parts@));
                }
                return parts;
            },
        }
    }
}

/// Whether two character vectors hold the same characters.
pub fn chars_eq(a: &Vec<char>, b: &Vec<char>) -> (r: bool)
    ensures
        r == (a@ == b@),
{
    if a.len() != b.len() {
        return false;
    }
    let r = eq_at(a, b, 0);
    proof {
        if match_at(a@, b@, 0) {
            assert(a@ =~= a@.subrange(0, b@.len() as int));
        }
        if a@ == b@ {
            assert(a@.subrange(0, b@.len() as int) =~= b@);
        }
    }
    r
}

/// Whether two strings hold the same characters.
pub fn str_eq(a: &str, b: &str) -> (r: bool)
    ensures
        r == (a@ == b@),
{
    let av = chars_of(a);
    let bv = chars_of(b);
    chars_eq(&av, &bv)
}

/// Whether `s` starts with `pat`.
pub fn starts_with_chars(s: &Vec<char>, pat: &Vec<char>) -> (r: bool)
    ensures
        r == match_at(s@, pat@, 0),
{
    if pat.len() > s.len() {
        return false;
    }
    eq_at(s, pat, 0)
}

/// Whether `s` ends with `pat`.
pub fn ends_with_chars(s: &Vec<char>, pat: &Vec<char>) -> (r: bool)
    ensures
        r == match_at(s@, pat@, s@.len() - pat@.len()),
{
    if pat.len() > s.len() {
        return false;
    }
    eq_at(s, pat, s.len() - pat.len())
}

/// The characters of `s`.
pub fn chars_of(s: &str) -> (r: Vec<char>)
    ensures
        r@ == s@,
{
    let n = s.unicode_len();
    let mut r: Vec<char> = Vec::new();
    let mut it = s.chars();
    let mut i: usize = 0;
    proof {
        broadcast use vstd::string::group_string_axioms;
    }
    while i < n
        invariant
            i <= n,
            n == s@.len(),
            r@ == s@.take(i as int),
            vstd::std_specs::iter::IteratorSpec::remaining(&it) == s@.skip(i as int),
        decreases n - i,
    {
        proof {
            broadcast use vstd::string::group_string_axioms;
        }
        let next = it.next();
        match next {
            Some(ch) => {
                r.push(ch);
                proof {
                    assert(s@.skip(i as int)[0] == s@[i as int]);
                    assert(r@ =~= s@.take(i + 1 as int));
                    assert(s@.skip(i as int).drop_first() =~= s@.skip(i + 1 as int));
                }
                i += 1;
            },
            None => {
                // the iterator still has characters, so this arm cannot run
                proof {
                    assert(s@.skip(i as int).len() > 0);
                    assert(false);
                }
                i += 1;
            },
        }
    }
    proof {
        assert(r@ =~= s@);
    }
    r
}

/// The decimal digit character for `n` (0 through 9).
pub open spec fn spec_digit_char(n: int) -> char {
    if n == 0 { '0' }
    else if n == 1 { '1' }
    else if n == 2 { '2' }
    else if n == 3 { '3' }
    else if n == 4 { '4' }
    else if n == 5 { '5' }
    else if n == 6 { '6' }
    else if n == 7 { '7' }
    else if n == 8 { '8' }
    else { '9' }
}

/// The decimal digits of `n`, most significant first.
pub open spec fn spec_dec(n: nat) -> Seq<char>
    decreases n
{
    if n < 10 {
        seq![spec_digit_char(n as int)]
    } else {
        spec_dec(n / 10) + seq![spec_digit_char((n % 10) as int)]
    }
}

/// The decimal rendering of a signed number.
pub open spec fn spec_i64_str(n: int) -> Seq<char> {
    if n < 0 {
        seq!['-'] + spec_dec((-n) as nat)
    } else {
        spec_dec(n as nat)
    }
}

fn digit_char(n: u64) -> (r: char)
    requires
        n < 10,
    ensures
        r == spec_digit_char(n as int),
{
    if n == 0 { '0' }
    else if n == 1 { '1' }
    else if n == 2 { '2' }
    else if n == 3 { '3' }
    else if n == 4 { '4' }
    else if n == 5 { '5' }
    else if n == 6 { '6' }
    else if n == 7 { '7' }
    else if n == 8 { '8' }
    else { '9' }
}

/// Appends the decimal digits of `n` to `v`.
pub fn push_dec(v: &mut Vec<char>, n: u64)
    ensures
        final(v)@ == old(v)@ + spec_dec(n as nat),
    decreases n,
{
    if n >= 10 {
        push_dec(v, n / 10);
        v.push(digit_char(n % 10));
        proof {
            assert(final(v)@ =~= old(v)@ + spec_dec(n as nat));
        }
    } else {
        v.push(digit_char(n));
        proof {
            assert(final(v)@ =~= old(v)@ + spec_dec(n as nat));
        }
    }
}

/// The decimal rendering of `n`.
pub fn i64_string(n: i64) -> (r: String)
    ensures
        r@ == spec_i64_str(n as int),
{
    let mut v: Vec<char> = Vec::new();
    if n < 0 {
        v.push('-');
        let m: u64 = ((-(n + 1)) as u64) + 1;
        proof {
            assert(m == -(n as int));
        }
        push_dec(&mut v, m);
    } else {
        push_dec(&mut v, n as u64);
    }
    string_from_chars(&v)
}

/// `s` is a non-empty sequence of decimal digits.
pub open spec fn all_digits(s: Seq<char>) -> bool {
    s.len() > 0 && forall|i: int| 0 <= i < s.len() ==> '0' <= #[trigger] s[i] <= '9'
}

/// The value of the decimal digits `s[0..i]`.
pub open spec fn spec_num_prefix(s: Seq<char>, i: int) -> int
    decreases i
{
    if i <= 0 || i > s.len() {
        0
    } else {
        spec_num_prefix(s, i - 1) * 10 + (s[i - 1] as int - '0' as int)
    }
}

/// The numeric value of a digit string.
pub open spec fn spec_num_val(s: Seq<char>) -> int {
    spec_num_prefix(s, s.len() as int)
}

pub proof fn lemma_num_prefix_grows(s: Seq<char>, i: int, j: int)
    requires
        0 <= i <= j <= s.len(),
        forall|k: int| 0 <= k < s.len() ==> '0' <= #[trigger] s[k] <= '9',
    ensures
        0 <= spec_num_prefix(s, i) <= spec_num_prefix(s, j),
    decreases j - i,
{
    if i == j {
        lemma_num_prefix_nonneg(s, i);
    } else {
        lemma_num_prefix_grows(s, i, j - 1);
    }
}

pub proof fn lemma_num_prefix_nonneg(s: Seq<char>, i: int)
    requires
        i <= s.len(),
        forall|k: int| 0 <= k < s.len() ==> '0' <= #[trigger] s[k] <= '9',
    ensures
        spec_num_prefix(s, i) >= 0,
    decreases i,
{
    if i > 0 {
        lemma_num_prefix_nonneg(s, i - 1);
    }
}

/// Parses a non-negative decimal number, rejecting any other input.
pub fn parse_decimal(v: &Vec<char>) -> (r: Option<i64>)
    ensures
        match r {
            Some(n) => all_digits(v@) && spec_num_val(v@) == n as int,
            None => !(all_digits(v@) && spec_num_val(v@) <= i64::MAX),
        },
{
    if v.len() == 0 {
        return None;
    }
    let mut acc: i64 = 0;
    let mut i: usize = 0;
    while i < v.len()
        invariant
            0 <= i <= v@.len(),
            0 <= acc,
            acc as int == spec_num_prefix(v@, i as int),
            forall|k: int| 0 <= k < i ==> '0' <= #[trigger] v@[k] <= '9',
        decreases v@.len() - i,
    {
        let c = v[i];
        if !('0' <= c && c <= '9') {
            return None;
        }
        let d: i64 = (c as u32 as i64) - ('0' as u32 as i64);
        proof {
            assert(d == c as int - '0' as int);
        }
        if acc > (i64::MAX - d) / 10 {
            proof {
                lemma_digits_overflow(v@, i as int, acc as int, d as int);
            }
            return None;
        }
        acc = acc * 10 + d;
        i += 1;
    }
    Some(acc)
}

proof fn lemma_digits_overflow(s: Seq<char>, i: int, acc: int, d: int)
    requires
        0 <= i < s.len(),
        acc == spec_num_prefix(s, i),
        acc >= 0,
        d == s[i] as int - '0' as int,
        0 <= d <= 9,
        acc > (i64::MAX - d) / 10,
    ensures
        !(all_digits(s) && spec_num_val(s) <= i64::MAX),
{
    if all_digits(s) {
        assert(acc * 10 + d > i64::MAX) by (nonlinear_arith)
            requires
                acc > (i64::MAX - d) / 10,
                0 <= d <= 9,
                acc >= 0,
        ;
        assert(spec_num_prefix(s, i + 1) == acc * 10 + d);
        lemma_num_prefix_grows(s, i + 1, s.len() as int);
    }
}

/// Builds a `String` from its characters.
///
/// Relies on `core::iter::Iterator::collect` for `String`: collecting
/// the characters of the vector yields the string with exactly that
/// character sequence.
#[verifier::external_body]
pub fn string_from_chars(v: &Vec<char>) -> (r: String)
    ensures
        r@ == v@,
{
    v.iter().collect()
}

} // verus!
