//! The text-splitting primitive and column lookup.
//!
//! A raw string is scanned twice, independently: once for its numeric tokens
//! (digit runs with optional thousands-separator commas and at most one
//! decimal point) and once for its alphabetic runs (letters, spaces and
//! currency symbols, trimmed, empties dropped).  Column lookup finds the
//! value following a label in a flattened label/value token sequence.

use vstd::prelude::*;

use crate::data::is_currency_symbol;
use crate::text::{
    chars_to_string, digit_of, has_substring, is_digit, opt_view, slice_views, spec_trim,
    str_eq, str_to_chars, subvec, trim_range, views, contains_substr,
};

verus! {

// ---------------------------------------------------------------------------
// Character classes of the two scans
// ---------------------------------------------------------------------------

/// A character that may continue a numeric token before its decimal point:
/// a digit or a thousands-separator comma.
pub open spec fn is_num_char(c: char) -> bool {
    is_digit(c) || c == ','
}

/// A character belonging to an alphabetic run: an ASCII letter, a space, or a
/// recognized currency symbol.
pub open spec fn is_alpha_run_char(c: char) -> bool {
    (65 <= (c as u32) && (c as u32) <= 90) || (97 <= (c as u32) && (c as u32) <= 122) || c == ' '
        || is_currency_symbol(c)
}

fn is_num_char_exec(c: char) -> (r: bool)
    ensures
        r == is_num_char(c),
{
    digit_of(c).is_some() || c == ','
}

fn is_alpha_run_char_exec(c: char) -> (r: bool)
    ensures
        r == is_alpha_run_char(c),
{
    let u = c as u32;
    (65 <= u && u <= 90) || (97 <= u && u <= 122) || c == ' '
        || crate::data::Currency::from_symbol(&c).is_some()
}

// ---------------------------------------------------------------------------
// Maximal runs
// ---------------------------------------------------------------------------

/// The first position at or after `i` that no longer continues a numeric
/// token body.
pub open spec fn num_body_end(s: Seq<char>, i: int) -> int
    decreases s.len() - i when 0 <= i <= s.len()
{
    if i < s.len() && is_num_char(s[i]) {
        num_body_end(s, i + 1)
    } else {
        i
    }
}

/// The first position at or after `i` that is not a digit.
pub open spec fn digits_end(s: Seq<char>, i: int) -> int
    decreases s.len() - i when 0 <= i <= s.len()
{
    if i < s.len() && is_digit(s[i]) {
        digits_end(s, i + 1)
    } else {
        i
    }
}

/// The first position at or after `i` outside an alphabetic run.
pub open spec fn alpha_end(s: Seq<char>, i: int) -> int
    decreases s.len() - i when 0 <= i <= s.len()
{
    if i < s.len() && is_alpha_run_char(s[i]) {
        alpha_end(s, i + 1)
    } else {
        i
    }
}

pub proof fn lemma_num_body_end(s: Seq<char>, i: int)
    requires
        0 <= i <= s.len(),
    ensures
        i <= num_body_end(s, i) <= s.len(),
    decreases s.len() - i,
{
    if i < s.len() && is_num_char(s[i]) {
        lemma_num_body_end(s, i + 1);
    }
}

pub proof fn lemma_digits_end(s: Seq<char>, i: int)
    requires
        0 <= i <= s.len(),
    ensures
        i <= digits_end(s, i) <= s.len(),
    decreases s.len() - i,
{
    if i < s.len() && is_digit(s[i]) {
        lemma_digits_end(s, i + 1);
    }
}

pub proof fn lemma_alpha_end(s: Seq<char>, i: int)
    requires
        0 <= i <= s.len(),
    ensures
        i <= alpha_end(s, i) <= s.len(),
    decreases s.len() - i,
{
    if i < s.len() && is_alpha_run_char(s[i]) {
        lemma_alpha_end(s, i + 1);
    }
}

/// Where the numeric token starting at `i` ends: its digit/comma body,
/// then an optional decimal point followed by digits.
pub open spec fn num_token_end(s: Seq<char>, i: int) -> int {
    let j = num_body_end(s, i);
    if 0 <= j && j < s.len() && s[j] == '.' {
        digits_end(s, j + 1)
    } else {
        j
    }
}

// ---------------------------------------------------------------------------
// The two token sequences
// ---------------------------------------------------------------------------

/// Every numeric token of `s` at or after `i`, in order.  A token starts at a
/// digit; positions matching no token start are skipped.
pub open spec fn num_tokens_from(s: Seq<char>, i: int) -> Seq<Seq<char>>
    decreases s.len() - i when 0 <= i <= s.len()
{
    if i >= s.len() {
        Seq::empty()
    } else if !is_digit(s[i]) {
        num_tokens_from(s, i + 1)
    } else {
        let e = num_token_end(s, i);
        if i < e <= s.len() {
            seq![s.subrange(i, e)] + num_tokens_from(s, e)
        } else {
            Seq::empty()
        }
    }
}

/// Every alphabetic run of `s` at or after `i`, trimmed, empties dropped,
/// in order.
pub open spec fn alpha_tokens_from(s: Seq<char>, i: int) -> Seq<Seq<char>>
    decreases s.len() - i when 0 <= i <= s.len()
{
    if i >= s.len() {
        Seq::empty()
    } else if !is_alpha_run_char(s[i]) {
        alpha_tokens_from(s, i + 1)
    } else {
        let e = alpha_end(s, i);
        if i < e <= s.len() {
            let t = spec_trim(s.subrange(i, e));
            (if t.len() > 0 {
                seq![t]
            } else {
                Seq::empty()
            }) + alpha_tokens_from(s, e)
        } else {
            Seq::empty()
        }
    }
}

/// The numeric tokens of a whole string.
pub open spec fn spec_num_tokens(s: Seq<char>) -> Seq<Seq<char>> {
    num_tokens_from(s, 0)
}

/// The alphabetic runs of a whole string.
pub open spec fn spec_alpha_tokens(s: Seq<char>) -> Seq<Seq<char>> {
    alpha_tokens_from(s, 0)
}

/// Splits a raw string into its numeric tokens and its alphabetic runs, two
/// independent in-order scans; a string with neither yields two empty lists.
pub fn split_nums_and_strs(s: String) -> (r: (Vec<String>, Vec<String>))
    ensures
        views(r.0@) == spec_num_tokens(s@),
        views(r.1@) == spec_alpha_tokens(s@),
{
    let v = str_to_chars(s.as_str());
    let n = v.len();

    let mut nums: Vec<String> = Vec::new();
    let mut i: usize = 0;
    assert(views(nums@) + num_tokens_from(s@, 0) =~= num_tokens_from(s@, 0));
    while i < n
        invariant
            i <= n,
            n == v.len(),
            v@ == s@,
            num_tokens_from(s@, 0) == views(nums@) + num_tokens_from(s@, i as int),
        decreases n - i,
    {
        if digit_of(v[i]).is_some() {
            proof {
                lemma_num_body_end(s@, i as int);
            }
            let mut j: usize = i;
            while j < n && is_num_char_exec(v[j])
                invariant
                    i <= j <= n,
                    n == v.len(),
                    v@ == s@,
                    num_body_end(s@, i as int) == num_body_end(s@, j as int),
                decreases n - j,
            {
                j += 1;
            }
            assert(num_body_end(s@, i as int) == j);
            let e: usize = if j < n && v[j] == '.' {
                proof {
                    lemma_digits_end(s@, j + 1 as int);
                }
                let mut k: usize = j + 1;
                while k < n && digit_of(v[k]).is_some()
                    invariant
                        j + 1 <= k <= n,
                        n == v.len(),
                        v@ == s@,
                        digits_end(s@, j + 1 as int) == digits_end(s@, k as int),
                    decreases n - k,
                {
                    k += 1;
                }
                assert(digits_end(s@, j + 1 as int) == k);
                k
            } else {
                j
            };
            assert(num_token_end(s@, i as int) == e);
            let tok = chars_to_string(&subvec(&v, i, e));
            let ghost prev = views(nums@);
            nums.push(tok);
            proof {
                assert(views(nums@) =~= prev.push(s@.subrange(i as int, e as int)));
                assert(num_tokens_from(s@, i as int) == seq![s@.subrange(i as int, e as int)]
                    + num_tokens_from(s@, e as int));
                assert(views(nums@) + num_tokens_from(s@, e as int) =~= prev + num_tokens_from(
                    s@,
                    i as int,
                ));
            }
            i = e;
        } else {
            assert(num_tokens_from(s@, i as int) == num_tokens_from(s@, i + 1 as int));
            i += 1;
        }
    }
    assert(num_tokens_from(s@, n as int) =~= Seq::<Seq<char>>::empty());
    assert(views(nums@) =~= views(nums@) + num_tokens_from(s@, n as int));

    let mut strs: Vec<String> = Vec::new();
    let mut i: usize = 0;
    assert(views(strs@) + alpha_tokens_from(s@, 0) =~= alpha_tokens_from(s@, 0));
    while i < n
        invariant
            i <= n,
            n == v.len(),
            v@ == s@,
            alpha_tokens_from(s@, 0) == views(strs@) + alpha_tokens_from(s@, i as int),
        decreases n - i,
    {
        if is_alpha_run_char_exec(v[i]) {
            proof {
                lemma_alpha_end(s@, i as int);
            }
            let mut j: usize = i;
            while j < n && is_alpha_run_char_exec(v[j])
                invariant
                    i <= j <= n,
                    n == v.len(),
                    v@ == s@,
                    alpha_end(s@, i as int) == alpha_end(s@, j as int),
                decreases n - j,
            {
                j += 1;
            }
            assert(alpha_end(s@, i as int) == j);
            assert(i < j);
            let (a, b) = trim_range(&v, i, j);
            let ghost t = spec_trim(s@.subrange(i as int, j as int));
            assert(t == v@.subrange(a as int, b as int));
            let ghost prev = views(strs@);
            if a < b {
                let tok = chars_to_string(&subvec(&v, a, b));
                strs.push(tok);
                proof {
                    assert(views(strs@) =~= prev.push(t));
                    assert(alpha_tokens_from(s@, i as int) == seq![t] + alpha_tokens_from(
                        s@,
                        j as int,
                    ));
                    assert(views(strs@) + alpha_tokens_from(s@, j as int) =~= prev
                        + alpha_tokens_from(s@, i as int));
                }
            } else {
                proof {
                    assert(t.len() == 0);
                    assert(alpha_tokens_from(s@, i as int) =~= Seq::<Seq<char>>::empty()
                        + alpha_tokens_from(s@, j as int));
                    assert(alpha_tokens_from(s@, i as int) =~= alpha_tokens_from(s@, j as int));
                }
            }
            i = j;
        } else {
            assert(alpha_tokens_from(s@, i as int) == alpha_tokens_from(s@, i + 1 as int));
            i += 1;
        }
    }
    assert(alpha_tokens_from(s@, n as int) =~= Seq::<Seq<char>>::empty());
    assert(views(strs@) =~= views(strs@) + alpha_tokens_from(s@, n as int));

    (nums, strs)
}

// ---------------------------------------------------------------------------
// Column lookup
// ---------------------------------------------------------------------------

/// The token immediately after the first exact match of `col`, if any; a
/// label that is the last token has no value and yields absence.
pub open spec fn spec_lookup(toks: Seq<Seq<char>>, col: Seq<char>) -> Option<Seq<char>>
    decreases toks.len(),
{
    if toks.len() == 0 {
        None
    } else if toks[0] == col {
        if toks.len() >= 2 {
            Some(toks[1])
        } else {
            None
        }
    } else {
        spec_lookup(toks.drop_first(), col)
    }
}

/// Finds the value following a label in a flattened label/value sequence:
/// order-sensitive, first match wins.
pub fn select_one_text_by_column(vec: &Vec<&str>, column: &str) -> (r: Option<String>)
    ensures
        opt_view(r) == spec_lookup(slice_views(vec@), column@),
{
    let n = vec.len();
    let mut i: usize = 0;
    assert(slice_views(vec@).skip(0) =~= slice_views(vec@));
    while i < n
        invariant
            i <= n,
            n == vec.len(),
            spec_lookup(slice_views(vec@), column@) == spec_lookup(
                slice_views(vec@).skip(i as int),
                column@,
            ),
        decreases n - i,
    {
        let ghost cur = slice_views(vec@).skip(i as int);
        assert(cur[0] == vec@[i as int]@);
        if str_eq(vec[i], column) {
            if i + 1 < n {
                assert(cur[1] == vec@[i + 1]@);
                return Some(vec[i + 1].to_owned());
            } else {
                assert(cur.len() == 1);
                return None;
            }
        }
        assert(cur.drop_first() =~= slice_views(vec@).skip(i + 1 as int));
        i += 1;
    }
    assert(slice_views(vec@).skip(n as int) =~= Seq::<Seq<char>>::empty());
    None
}

/// As `select_one_text_by_column`, over owned tokens.
pub fn lookup_labeled(toks: &Vec<String>, column: &str) -> (r: Option<String>)
    ensures
        opt_view(r) == spec_lookup(views(toks@), column@),
{
    let n = toks.len();
    let mut i: usize = 0;
    assert(views(toks@).skip(0) =~= views(toks@));
    while i < n
        invariant
            i <= n,
            n == toks.len(),
            spec_lookup(views(toks@), column@) == spec_lookup(
                views(toks@).skip(i as int),
                column@,
            ),
        decreases n - i,
    {
        let ghost cur = views(toks@).skip(i as int);
        assert(cur[0] == toks@[i as int]@);
        if str_eq(toks[i].as_str(), column) {
            if i + 1 < n {
                assert(cur[1] == toks@[i + 1]@);
                return Some(toks[i + 1].clone());
            } else {
                assert(cur.len() == 1);
                return None;
            }
        }
        assert(cur.drop_first() =~= views(toks@).skip(i + 1 as int));
        i += 1;
    }
    assert(views(toks@).skip(n as int) =~= Seq::<Seq<char>>::empty());
    None
}

/// Column lookup with the "not applicable" sentinel filtered to absence.
pub open spec fn spec_lookup_na(toks: Seq<Seq<char>>, col: Seq<char>) -> Option<Seq<char>> {
    match spec_lookup(toks, col) {
        Some(v) => if v == "N/A"@ {
            None
        } else {
            Some(v)
        },
        None => None,
    }
}

/// As `lookup_labeled`, but a value equal to the sentinel marker is absence.
pub fn lookup_labeled_na(toks: &Vec<String>, column: &str) -> (r: Option<String>)
    ensures
        opt_view(r) == spec_lookup_na(views(toks@), column@),
{
    match lookup_labeled(toks, column) {
        Some(v) => {
            if str_eq(v.as_str(), "N/A") {
                None
            } else {
                Some(v)
            }
        },
        None => None,
    }
}

// ---------------------------------------------------------------------------
// Token-sequence helpers for document text
// ---------------------------------------------------------------------------

/// Every token trimmed, all kept.
pub open spec fn spec_trim_all(toks: Seq<Seq<char>>) -> Seq<Seq<char>> {
    toks.map_values(|t: Seq<char>| spec_trim(t))
}

pub fn trim_all_tokens(toks: &Vec<String>) -> (r: Vec<String>)
    ensures
        views(r@) == spec_trim_all(views(toks@)),
{
    let n = toks.len();
    let mut r: Vec<String> = Vec::new();
    let mut i: usize = 0;
    while i < n
        invariant
            i <= n,
            n == toks.len(),
            views(r@) == spec_trim_all(views(toks@)).subrange(0, i as int),
        decreases n - i,
    {
        let v = str_to_chars(toks[i].as_str());
        let m = v.len();
        let (a, b) = trim_range(&v, 0, m);
        assert(v@.subrange(0, m as int) =~= v@);
        let tok = chars_to_string(&subvec(&v, a, b));
        let ghost prev = views(r@);
        r.push(tok);
        proof {
            assert(views(r@) =~= prev.push(spec_trim(toks@[i as int]@)));
            assert(spec_trim_all(views(toks@))[i as int] == spec_trim(toks@[i as int]@));
            assert(views(r@) =~= spec_trim_all(views(toks@)).subrange(0, i + 1 as int));
        }
        i += 1;
    }
    assert(spec_trim_all(views(toks@)).subrange(0, n as int) =~= spec_trim_all(views(toks@)));
    r
}

/// Every token trimmed, empties dropped, order kept.
pub open spec fn spec_trim_nonempty(toks: Seq<Seq<char>>) -> Seq<Seq<char>>
    decreases toks.len(),
{
    if toks.len() == 0 {
        Seq::empty()
    } else {
        spec_trim_nonempty(toks.drop_last()) + (if spec_trim(toks.last()).len() > 0 {
            seq![spec_trim(toks.last())]
        } else {
            Seq::empty()
        })
    }
}

pub fn trim_nonempty_tokens(toks: &Vec<String>) -> (r: Vec<String>)
    ensures
        views(r@) == spec_trim_nonempty(views(toks@)),
{
    let n = toks.len();
    let mut r: Vec<String> = Vec::new();
    let mut i: usize = 0;
    assert(views(toks@).subrange(0, 0) =~= Seq::<Seq<char>>::empty());
    while i < n
        invariant
            i <= n,
            n == toks.len(),
            views(r@) == spec_trim_nonempty(views(toks@).subrange(0, i as int)),
        decreases n - i,
    {
        let ghost pre = views(toks@).subrange(0, i as int);
        let ghost cur = views(toks@).subrange(0, i + 1 as int);
        assert(cur.drop_last() =~= pre);
        assert(cur.last() == toks@[i as int]@);
        let v = str_to_chars(toks[i].as_str());
        let m = v.len();
        let (a, b) = trim_range(&v, 0, m);
        assert(v@.subrange(0, m as int) =~= v@);
        if a < b {
            let tok = chars_to_string(&subvec(&v, a, b));
            let ghost prev = views(r@);
            r.push(tok);
            assert(views(r@) =~= prev + seq![spec_trim(toks@[i as int]@)]);
        } else {
            assert(spec_trim(toks@[i as int]@).len() == 0);
            assert(views(r@) =~= views(r@) + Seq::<Seq<char>>::empty());
        }
        i += 1;
    }
    assert(views(toks@).subrange(0, n as int) =~= views(toks@));
    r
}

/// The locations that contain `pat` as a substring, order kept.
pub open spec fn spec_filter_containing(locs: Seq<Seq<char>>, pat: Seq<char>) -> Seq<Seq<char>>
    decreases locs.len(),
{
    if locs.len() == 0 {
        Seq::empty()
    } else {
        spec_filter_containing(locs.drop_last(), pat) + (if has_substring(locs.last(), pat) {
            seq![locs.last()]
        } else {
            Seq::empty()
        })
    }
}

pub fn filter_locs_containing(locs: &Vec<String>, pat: &str) -> (r: Vec<String>)
    ensures
        views(r@) == spec_filter_containing(views(locs@), pat@),
{
    let n = locs.len();
    let mut r: Vec<String> = Vec::new();
    let mut i: usize = 0;
    assert(views(locs@).subrange(0, 0) =~= Seq::<Seq<char>>::empty());
    while i < n
        invariant
            i <= n,
            n == locs.len(),
            views(r@) == spec_filter_containing(views(locs@).subrange(0, i as int), pat@),
        decreases n - i,
    {
        let ghost pre = views(locs@).subrange(0, i as int);
        let ghost cur = views(locs@).subrange(0, i + 1 as int);
        assert(cur.drop_last() =~= pre);
        assert(cur.last() == locs@[i as int]@);
        if contains_substr(locs[i].as_str(), pat) {
            let ghost prev = views(r@);
            r.push(locs[i].clone());
            assert(views(r@) =~= prev + seq![locs@[i as int]@]);
        } else {
            assert(views(r@) =~= views(r@) + Seq::<Seq<char>>::empty());
        }
        i += 1;
    }
    assert(views(locs@).subrange(0, n as int) =~= views(locs@));
    r
}

} // verus!
