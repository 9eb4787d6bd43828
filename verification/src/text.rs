//! Character-level text machinery: character classes, conversions between
//! strings and character vectors, equality and substring search, trimming,
//! whitespace collapsing, splitting, and decimal-digit integer parsing.
//!
//! Everything here is stated over `Seq<char>`, the view of `String` and
//! `&str`, so the typed-value parsers built on top can carry exact contracts.

use vstd::prelude::*;

verus! {

// ---------------------------------------------------------------------------
// Character classes
// ---------------------------------------------------------------------------

/// An ASCII decimal digit.
pub open spec fn is_digit(c: char) -> bool {
    48 <= (c as u32) && (c as u32) <= 57
}

/// The numeric value of a digit character; zero for anything else.
pub open spec fn digit_val(c: char) -> nat {
    if is_digit(c) {
        ((c as u32) - 48) as nat
    } else {
        0
    }
}

/// Whitespace, as the trimming and collapsing rules understand it.
pub open spec fn is_ws(c: char) -> bool {
    c == ' ' || c == '\t' || c == '\n' || c == '\r'
}

pub fn digit_of(c: char) -> (r: Option<u8>)
    ensures
        r is Some <==> is_digit(c),
        r is Some ==> r->0 == digit_val(c),
{
    let u = c as u32;
    if 48 <= u && u <= 57 {
        Some((u - 48) as u8)
    } else {
        None
    }
}

pub fn is_ws_char(c: char) -> (r: bool)
    ensures
        r == is_ws(c),
{
    c == ' ' || c == '\t' || c == '\n' || c == '\r'
}

// ---------------------------------------------------------------------------
// String <-> character vector
// ---------------------------------------------------------------------------

/// The views of a sequence of owned strings.
pub open spec fn views(v: Seq<String>) -> Seq<Seq<char>> {
    v.map_values(|s: String| s@)
}

/// The views of a sequence of string slices.
pub open spec fn slice_views(v: Seq<&str>) -> Seq<Seq<char>> {
    v.map_values(|s: &str| s@)
}

/// The view of an optional string.
pub open spec fn opt_view(o: Option<String>) -> Option<Seq<char>> {
    match o {
        Some(s) => Some(s@),
        None => None,
    }
}

pub fn str_to_chars(s: &str) -> (v: Vec<char>)
    ensures
        v@ == s@,
{
    let n = s.unicode_len();
    let mut v: Vec<char> = Vec::new();
    let mut i: usize = 0;
    while i < n
        invariant
            i <= n,
            n == s@.len(),
            v@ == s@.subrange(0, i as int),
        decreases n - i,
    {
        v.push(s.get_char(i));
        assert(v@ =~= s@.subrange(0, i + 1 as int));
        i += 1;
    }
    assert(v@ =~= s@);
    v
}

/// Relies on `String: FromIterator<char>` (std): collecting characters
/// yields the string of exactly those characters, in order.
#[verifier::external_body]
pub(crate) fn chars_to_string(v: &Vec<char>) -> (r: String)
    ensures
        r@ == v@,
{
    v.iter().collect()
}

/// The characters of `v` from `lo` (inclusive) to `hi` (exclusive).
pub fn subvec(v: &Vec<char>, lo: usize, hi: usize) -> (r: Vec<char>)
    requires
        lo <= hi <= v.len(),
    ensures
        r@ == v@.subrange(lo as int, hi as int),
{
    let mut r: Vec<char> = Vec::new();
    let mut i: usize = lo;
    while i < hi
        invariant
            lo <= i <= hi <= v.len(),
            r@ == v@.subrange(lo as int, i as int),
        decreases hi - i,
    {
        r.push(v[i]);
        assert(r@ =~= v@.subrange(lo as int, i + 1 as int));
        i += 1;
    }
    r
}

pub fn str_eq(a: &str, b: &str) -> (r: bool)
    ensures
        r == (a@ == b@),
{
    let na = a.unicode_len();
    let nb = b.unicode_len();
    if na != nb {
        return false;
    }
    let mut i: usize = 0;
    while i < na
        invariant
            i <= na,
            na == a@.len(),
            na == b@.len(),
            forall|k: int| 0 <= k < i ==> a@[k] == b@[k],
        decreases na - i,
    {
        if a.get_char(i) != b.get_char(i) {
            return false;
        }
        i += 1;
    }
    assert(a@ =~= b@);
    true
}

// ---------------------------------------------------------------------------
// Decimal-digit integer parsing
// ---------------------------------------------------------------------------

/// Every character is an ASCII digit.
pub open spec fn all_digits(s: Seq<char>) -> bool {
    forall|k: int| 0 <= k < s.len() ==> is_digit(s[k])
}

/// The value of a string of digits, most significant first.
pub open spec fn digits_val(s: Seq<char>) -> nat
    decreases s.len(),
{
    if s.len() == 0 {
        0
    } else {
        digits_val(s.drop_last()) * 10 + digit_val(s.last())
    }
}

/// A prefix of a digit string never exceeds the whole.
pub proof fn lemma_digits_val_prefix(s: Seq<char>, k: int)
    requires
        0 <= k <= s.len(),
    ensures
        digits_val(s.subrange(0, k)) <= digits_val(s),
    decreases s.len() - k,
{
    if k < s.len() {
        let t = s.subrange(0, k + 1);
        assert(t.drop_last() =~= s.subrange(0, k));
        lemma_digits_val_prefix(s, k + 1);
        assert(s.subrange(0, s.len() as int) =~= s);
    } else {
        assert(s.subrange(0, k) =~= s);
    }
}

/// A nonempty all-digit string whose value fits parses to its value;
/// anything else is no unsigned integer.
pub open spec fn spec_parse_u64(s: Seq<char>) -> Option<u64> {
    if s.len() > 0 && all_digits(s) && digits_val(s) <= u64::MAX {
        Some(digits_val(s) as u64)
    } else {
        None
    }
}

pub fn parse_u64_chars(v: &Vec<char>, lo: usize, hi: usize) -> (r: Option<u64>)
    requires
        lo <= hi <= v.len(),
    ensures
        r == spec_parse_u64(v@.subrange(lo as int, hi as int)),
{
    let ghost s = v@.subrange(lo as int, hi as int);
    if lo == hi {
        return None;
    }
    let mut acc: u64 = 0;
    let mut i: usize = lo;
    while i < hi
        invariant
            lo <= i <= hi <= v.len(),
            s == v@.subrange(lo as int, hi as int),
            s.len() == hi - lo,
            all_digits(s.subrange(0, i - lo)),
            acc == digits_val(s.subrange(0, i - lo)),
        decreases hi - i,
    {
        let ghost pre = s.subrange(0, i - lo);
        let c = v[i];
        assert(s[i - lo] == c);
        match digit_of(c) {
            None => {
                assert(!is_digit(s[i - lo]));
                return None;
            },
            Some(d) => {
                let ghost cur = s.subrange(0, i + 1 - lo);
                assert(cur.drop_last() =~= pre);
                assert(cur.last() == c);
                if acc > u64::MAX / 10 || (acc == u64::MAX / 10 && d as u64 > u64::MAX % 10) {
                    proof {
                        assert(digits_val(cur) == acc * 10 + d);
                        assert(digits_val(cur) > u64::MAX);
                        lemma_digits_val_prefix(s, i + 1 - lo);
                    }
                    return None;
                }
                assert(acc * 10 + d <= u64::MAX) by {
                    assert(acc <= u64::MAX / 10);
                    assert(acc * 10 <= (u64::MAX / 10) * 10) by (nonlinear_arith)
                        requires
                            acc <= u64::MAX / 10,
                    ;
                }
                acc = acc * 10 + (d as u64);
                i += 1;
            },
        }
    }
    assert(s.subrange(0, s.len() as int) =~= s);
    Some(acc)
}

pub fn parse_u64_str(s: &str) -> (r: Option<u64>)
    ensures
        r == spec_parse_u64(s@),
{
    let v = str_to_chars(s);
    let n = v.len();
    let r = parse_u64_chars(&v, 0, n);
    assert(v@.subrange(0, n as int) =~= s@);
    r
}

pub open spec fn spec_parse_u32(s: Seq<char>) -> Option<u32> {
    if s.len() > 0 && all_digits(s) && digits_val(s) <= u32::MAX {
        Some(digits_val(s) as u32)
    } else {
        None
    }
}

pub fn parse_u32_str(s: &str) -> (r: Option<u32>)
    ensures
        r == spec_parse_u32(s@),
{
    match parse_u64_str(s) {
        Some(x) if x <= u32::MAX as u64 => Some(x as u32),
        _ => None,
    }
}

pub open spec fn spec_parse_u16(s: Seq<char>) -> Option<u16> {
    if s.len() > 0 && all_digits(s) && digits_val(s) <= u16::MAX {
        Some(digits_val(s) as u16)
    } else {
        None
    }
}

pub fn parse_u16_str(s: &str) -> (r: Option<u16>)
    ensures
        r == spec_parse_u16(s@),
{
    match parse_u64_str(s) {
        Some(x) if x <= u16::MAX as u64 => Some(x as u16),
        _ => None,
    }
}

pub open spec fn spec_parse_u8(s: Seq<char>) -> Option<u8> {
    if s.len() > 0 && all_digits(s) && digits_val(s) <= u8::MAX {
        Some(digits_val(s) as u8)
    } else {
        None
    }
}

pub fn parse_u8_str(s: &str) -> (r: Option<u8>)
    ensures
        r == spec_parse_u8(s@),
{
    match parse_u64_str(s) {
        Some(x) if x <= u8::MAX as u64 => Some(x as u8),
        _ => None,
    }
}

// ---------------------------------------------------------------------------
// Trimming and whitespace collapsing
// ---------------------------------------------------------------------------

/// `s` with leading and trailing whitespace removed.
pub open spec fn spec_trim(s: Seq<char>) -> Seq<char>
    decreases s.len(),
{
    if s.len() == 0 {
        s
    } else if is_ws(s[0]) {
        spec_trim(s.drop_first())
    } else if is_ws(s.last()) {
        spec_trim(s.drop_last())
    } else {
        s
    }
}

/// The trimmed range of `v@.subrange(lo, hi)`, as a pair of bounds into `v`.
pub fn trim_range(v: &Vec<char>, lo: usize, hi: usize) -> (r: (usize, usize))
    requires
        lo <= hi <= v.len(),
    ensures
        lo <= r.0 <= r.1 <= hi,
        v@.subrange(r.0 as int, r.1 as int) == spec_trim(v@.subrange(lo as int, hi as int)),
{
    let mut a: usize = lo;
    let mut b: usize = hi;
    loop
        invariant
            lo <= a <= b <= hi <= v.len(),
            spec_trim(v@.subrange(lo as int, hi as int)) == spec_trim(
                v@.subrange(a as int, b as int),
            ),
        ensures
            lo <= a <= b <= hi,
            spec_trim(v@.subrange(lo as int, hi as int)) == v@.subrange(a as int, b as int),
        decreases b - a,
    {
        let ghost cur = v@.subrange(a as int, b as int);
        if a < b && is_ws_char(v[a]) {
            assert(cur.drop_first() =~= v@.subrange(a + 1 as int, b as int));
            a += 1;
        } else if a < b && is_ws_char(v[b - 1]) {
            assert(cur.drop_last() =~= v@.subrange(a as int, b - 1 as int));
            b -= 1;
        } else {
            assert(spec_trim(cur) == cur);
            break ;
        }
    }
    (a, b)
}

/// `s` with every maximal whitespace run replaced by one space.  Trimming the
/// result gives the canonical single-spaced form of free text.
pub open spec fn spec_collapse_ws(s: Seq<char>) -> Seq<char>
    decreases s.len(),
{
    if s.len() == 0 {
        s
    } else if is_ws(s.last()) {
        if s.len() > 1 && is_ws(s[s.len() - 2]) {
            spec_collapse_ws(s.drop_last())
        } else {
            spec_collapse_ws(s.drop_last()) + seq![' ']
        }
    } else {
        spec_collapse_ws(s.drop_last()) + seq![s.last()]
    }
}

/// Collapses whitespace runs to single spaces and trims the ends.
pub fn collapse_and_trim(s: &str) -> (r: String)
    ensures
        r@ == spec_trim(spec_collapse_ws(s@)),
{
    let v = str_to_chars(s);
    let n = v.len();
    let mut out: Vec<char> = Vec::new();
    let mut i: usize = 0;
    while i < n
        invariant
            i <= n,
            n == v.len(),
            v@ == s@,
            out@ == spec_collapse_ws(s@.subrange(0, i as int)),
        decreases n - i,
    {
        let ghost cur = s@.subrange(0, i + 1 as int);
        assert(cur.drop_last() =~= s@.subrange(0, i as int));
        assert(cur.last() == s@[i as int]);
        let c = v[i];
        if is_ws_char(c) {
            if i > 0 && is_ws_char(v[i - 1]) {
                assert(cur[cur.len() - 2] == s@[i - 1]);
            } else {
                out.push(' ');
            }
        } else {
            out.push(c);
        }
        i += 1;
    }
    assert(s@.subrange(0, n as int) =~= s@);
    let m = out.len();
    let (a, b) = trim_range(&out, 0, m);
    assert(out@.subrange(0, m as int) =~= out@);
    let trimmed = subvec(&out, a, b);
    chars_to_string(&trimmed)
}

// ---------------------------------------------------------------------------
// Finding and splitting on a separator character
// ---------------------------------------------------------------------------

/// The first position at or after `i` holding `sep`, or `s.len()` if none.
pub open spec fn spec_find(s: Seq<char>, sep: char, i: int) -> int
    decreases s.len() - i when 0 <= i <= s.len()
{
    if i == s.len() {
        i
    } else if s[i] == sep {
        i
    } else {
        spec_find(s, sep, i + 1)
    }
}

pub proof fn lemma_spec_find(s: Seq<char>, sep: char, i: int)
    requires
        0 <= i <= s.len(),
    ensures
        i <= spec_find(s, sep, i) <= s.len(),
        forall|k: int| i <= k < spec_find(s, sep, i) ==> s[k] != sep,
        spec_find(s, sep, i) < s.len() ==> s[spec_find(s, sep, i)] == sep,
    decreases s.len() - i,
{
    if i < s.len() && s[i] != sep {
        lemma_spec_find(s, sep, i + 1);
    }
}

/// The pieces of `s` after `i`, split on `sep`; empty pieces are kept, and a
/// string without the separator is one piece.
pub open spec fn spec_split_from(s: Seq<char>, sep: char, i: int) -> Seq<Seq<char>>
    decreases s.len() - i when 0 <= i <= s.len()
{
    let j = spec_find(s, sep, i);
    if i <= j < s.len() {
        seq![s.subrange(i, j)] + spec_split_from(s, sep, j + 1)
    } else {
        seq![s.subrange(i, s.len() as int)]
    }
}

pub open spec fn spec_split(s: Seq<char>, sep: char) -> Seq<Seq<char>> {
    spec_split_from(s, sep, 0)
}

fn split_chars_from(v: &Vec<char>, sep: char, lo: usize) -> (r: Vec<String>)
    requires
        lo <= v.len(),
    ensures
        views(r@) == spec_split_from(v@, sep, lo as int),
    decreases v.len() - lo,
{
    proof {
        lemma_spec_find(v@, sep, lo as int);
    }
    let n = v.len();
    let mut j: usize = lo;
    while j < n && v[j] != sep
        invariant
            lo <= j <= n,
            n == v.len(),
            spec_find(v@, sep, lo as int) == spec_find(v@, sep, j as int),
        decreases n - j,
    {
        j += 1;
    }
    assert(spec_find(v@, sep, lo as int) == j);
    let piece = chars_to_string(&subvec(v, lo, j));
    let mut r: Vec<String> = Vec::new();
    r.push(piece);
    assert(views(r@) =~= seq![v@.subrange(lo as int, j as int)]);
    if j < n {
        let rest = split_chars_from(v, sep, j + 1);
        assert(views(r@) =~= seq![v@.subrange(lo as int, j as int)] + spec_split_from(
            v@,
            sep,
            j + 1 as int,
        ).subrange(0, 0));
        let mut k: usize = 0;
        let rn = rest.len();
        while k < rn
            invariant
                k <= rn,
                rn == rest.len(),
                r@.len() == k + 1,
                views(rest@) == spec_split_from(v@, sep, j + 1 as int),
                views(r@) == seq![v@.subrange(lo as int, j as int)] + spec_split_from(
                    v@,
                    sep,
                    j + 1 as int,
                ).subrange(0, k as int),
            decreases rn - k,
        {
            let ghost prev = views(r@);
            let ghost restv = spec_split_from(v@, sep, j + 1 as int);
            r.push(rest[k].clone());
            assert(views(r@) =~= prev.push(rest@[k as int]@));
            assert(restv[k as int] == rest@[k as int]@);
            assert(restv.subrange(0, k + 1 as int) =~= restv.subrange(0, k as int).push(
                restv[k as int],
            ));
            assert(views(r@) =~= seq![v@.subrange(lo as int, j as int)] + restv.subrange(
                0,
                k + 1 as int,
            ));
            k += 1;
        }
        assert(spec_split_from(v@, sep, j + 1 as int).subrange(
            0,
            spec_split_from(v@, sep, j + 1 as int).len() as int,
        ) =~= spec_split_from(v@, sep, j + 1 as int));
        assert(views(r@) =~= spec_split_from(v@, sep, lo as int));
        r
    } else {
        assert(views(r@) =~= spec_split_from(v@, sep, lo as int));
        r
    }
}

/// Splits on a separator character, keeping empty pieces, as the period- and
/// slash-delimited source layouts require.
pub fn split_on_char(s: &str, sep: char) -> (r: Vec<String>)
    ensures
        views(r@) == spec_split(s@, sep),
        r@.len() >= 1,
{
    let v = str_to_chars(s);
    let r = split_chars_from(&v, sep, 0);
    proof {
        lemma_spec_find(v@, sep, 0);
        assert(views(r@).len() >= 1);
    }
    r
}

/// The first occurrence is wherever a separator stands with none before it.
pub proof fn lemma_spec_find_at(s: Seq<char>, sep: char, j: int)
    requires
        0 <= j <= s.len(),
        forall|k: int| 0 <= k < j ==> s[k] != sep,
        j < s.len() ==> s[j] == sep,
    ensures
        spec_find(s, sep, 0) == j,
{
    lemma_spec_find(s, sep, 0);
    let f = spec_find(s, sep, 0);
    if f < j {
        assert(s[f] != sep);
    }
    if f > j {
        assert(s[j] != sep);
    }
}

/// Splitting from position `j` ignores everything before `i <= j`: the same
/// pieces come out of the suffix.
pub proof fn lemma_split_from_skip(s: Seq<char>, sep: char, i: int, j: int)
    requires
        0 <= i <= j <= s.len(),
    ensures
        spec_split_from(s, sep, j) == spec_split_from(s.skip(i), sep, j - i),
    decreases s.len() - j,
{
    let t = s.skip(i);
    lemma_spec_find(s, sep, j);
    lemma_spec_find(t, sep, j - i);
    let f = spec_find(s, sep, j);
    let g = spec_find(t, sep, j - i);
    assert(forall|k: int| j - i <= k < t.len() ==> t[k] == s[k + i]);
    assert(f == g + i) by {
        if f < g + i {
            assert(t[f - i] != sep);
            assert(f < s.len());
        }
        if f > g + i {
            assert(g < t.len());
            assert(s[g + i] != sep);
        }
    }
    if f < s.len() {
        assert(s.subrange(j, f) =~= t.subrange(j - i, g));
        lemma_split_from_skip(s, sep, i, f + 1);
        assert(spec_split_from(s, sep, j) =~= spec_split_from(t, sep, j - i));
    } else {
        assert(s.subrange(j, s.len() as int) =~= t.subrange(j - i, t.len() as int));
        assert(spec_split_from(s, sep, j) =~= spec_split_from(t, sep, j - i));
    }
}

/// A string without the separator splits into itself alone.
pub proof fn lemma_split_single(a: Seq<char>, sep: char)
    requires
        forall|k: int| 0 <= k < a.len() ==> a[k] != sep,
    ensures
        spec_split(a, sep) == seq![a],
{
    lemma_spec_find_at(a, sep, a.len() as int);
    assert(a.subrange(0, a.len() as int) =~= a);
    assert(spec_split(a, sep) =~= seq![a]);
}

/// Splitting a separator-free prefix, a separator, and a rest gives the
/// prefix, then the rest's pieces.
pub proof fn lemma_split_prepend(a: Seq<char>, sep: char, b: Seq<char>)
    requires
        forall|k: int| 0 <= k < a.len() ==> a[k] != sep,
    ensures
        spec_split(a + seq![sep] + b, sep) == seq![a] + spec_split(b, sep),
{
    let s = a + seq![sep] + b;
    assert(forall|k: int| 0 <= k < a.len() ==> s[k] == a[k]);
    assert(s[a.len() as int] == sep);
    lemma_spec_find_at(s, sep, a.len() as int);
    assert(s.subrange(0, a.len() as int) =~= a);
    lemma_split_from_skip(s, sep, a.len() + 1 as int, a.len() + 1 as int);
    assert(s.skip(a.len() + 1 as int) =~= b);
    assert(spec_split(s, sep) =~= seq![a] + spec_split(b, sep));
}

// ---------------------------------------------------------------------------
// Substring search
// ---------------------------------------------------------------------------

/// `p` occurs contiguously somewhere in `s`.
pub open spec fn has_substring(s: Seq<char>, p: Seq<char>) -> bool {
    exists|i: int| 0 <= i <= s.len() - p.len() && #[trigger] s.subrange(i, i + p.len()) == p
}

pub fn contains_substr(s: &str, p: &str) -> (r: bool)
    ensures
        r == has_substring(s@, p@),
{
    let sv = str_to_chars(s);
    let pv = str_to_chars(p);
    let n = sv.len();
    let m = pv.len();
    if m > n {
        assert(!has_substring(s@, p@));
        return false;
    }
    if m == 0 {
        assert(has_substring(s@, p@)) by {
            assert(s@.subrange(0, 0 + p@.len() as int) =~= p@);
        }
        return true;
    }
    let mut i: usize = 0;
    while i <= n - m
        invariant
            0 < m <= n,
            n == sv.len(),
            m == pv.len(),
            sv@ == s@,
            pv@ == p@,
            i <= n - m + 1,
            forall|x: int| 0 <= x < i ==> #[trigger] s@.subrange(x, x + p@.len()) != p@,
        decreases n - m - i + 1,
    {
        let mut j: usize = 0;
        let mut matched = true;
        while j < m
            invariant
                i + m <= n,
                n == sv.len(),
                m == pv.len(),
                sv@ == s@,
                pv@ == p@,
                j <= m,
                matched ==> forall|y: int| 0 <= y < j ==> s@[i + y] == p@[y],
                !matched ==> s@.subrange(i as int, i + p@.len()) != p@,
            decreases m - j,
        {
            if sv[i + j] != pv[j] {
                assert(s@.subrange(i as int, i + p@.len()) != p@) by {
                    assert(s@.subrange(i as int, i + p@.len())[j as int] == s@[i + j]);
                }
                matched = false;
                j = m;
            } else {
                j += 1;
            }
        }
        if matched {
            assert(s@.subrange(i as int, i + p@.len()) =~= p@);
            return true;
        }
        i += 1;
    }
    false
}

// ---------------------------------------------------------------------------
// Comma stripping
// ---------------------------------------------------------------------------

/// `s` with every comma removed, as thousands separators are dropped before a
/// magnitude is read.
pub open spec fn strip_commas(s: Seq<char>) -> Seq<char>
    decreases s.len(),
{
    if s.len() == 0 {
        s
    } else if s.last() == ',' {
        strip_commas(s.drop_last())
    } else {
        strip_commas(s.drop_last()) + seq![s.last()]
    }
}

pub fn strip_commas_chars(v: &Vec<char>) -> (r: Vec<char>)
    ensures
        r@ == strip_commas(v@),
{
    let n = v.len();
    let mut out: Vec<char> = Vec::new();
    let mut i: usize = 0;
    while i < n
        invariant
            i <= n,
            n == v.len(),
            out@ == strip_commas(v@.subrange(0, i as int)),
        decreases n - i,
    {
        let ghost cur = v@.subrange(0, i + 1 as int);
        assert(cur.drop_last() =~= v@.subrange(0, i as int));
        assert(cur.last() == v@[i as int]);
        let c = v[i];
        if c != ',' {
            out.push(c);
        }
        i += 1;
    }
    assert(v@.subrange(0, n as int) =~= v@);
    out
}

// ---------------------------------------------------------------------------
// Formatting unsigned integers as decimal-digit strings
// ---------------------------------------------------------------------------

/// The character for a single digit value; `'0'` covers the out-of-range case.
pub open spec fn digit_char(d: nat) -> char {
    if d == 1 {
        '1'
    } else if d == 2 {
        '2'
    } else if d == 3 {
        '3'
    } else if d == 4 {
        '4'
    } else if d == 5 {
        '5'
    } else if d == 6 {
        '6'
    } else if d == 7 {
        '7'
    } else if d == 8 {
        '8'
    } else if d == 9 {
        '9'
    } else {
        '0'
    }
}

/// The decimal digits of `n`, most significant first, without leading zeros
/// (a single `'0'` for zero).
pub open spec fn spec_digits(n: nat) -> Seq<char>
    decreases n,
{
    if n < 10 {
        seq![digit_char(n)]
    } else {
        spec_digits(n / 10).push(digit_char(n % 10))
    }
}

pub proof fn lemma_spec_digits_all_digits(n: nat)
    ensures
        spec_digits(n).len() >= 1,
        all_digits(spec_digits(n)),
    decreases n,
{
    if n >= 10 {
        lemma_spec_digits_all_digits(n / 10);
    }
}

/// Reading the digits of `n` back gives `n`.
pub proof fn lemma_digits_val_spec_digits(n: nat)
    ensures
        digits_val(spec_digits(n)) == n,
    decreases n,
{
    assert(digit_val(digit_char(n % 10)) == n % 10);
    if n < 10 {
        assert(spec_digits(n).drop_last() =~= Seq::<char>::empty());
        assert(digits_val(Seq::<char>::empty()) == 0);
        assert(spec_digits(n).last() == digit_char(n));
        assert(n % 10 == n);
    } else {
        lemma_digits_val_spec_digits(n / 10);
        assert(spec_digits(n).drop_last() =~= spec_digits(n / 10));
        assert(spec_digits(n).last() == digit_char(n % 10));
    }
}

/// A run of zero characters.
pub open spec fn zero_chars(k: nat) -> Seq<char> {
    Seq::new(k, |i: int| '0')
}

pub proof fn lemma_digits_val_zeros(k: nat)
    ensures
        digits_val(zero_chars(k)) == 0,
    decreases k,
{
    if k > 0 {
        lemma_digits_val_zeros((k - 1) as nat);
        assert(zero_chars(k).drop_last() =~= zero_chars((k - 1) as nat));
        assert(zero_chars(k).last() == '0');
    }
}

/// Leading zeros do not change the value a digit string denotes.
pub proof fn lemma_digits_val_pad(k: nat, s: Seq<char>)
    ensures
        digits_val(zero_chars(k) + s) == digits_val(s),
    decreases s.len(),
{
    if s.len() == 0 {
        assert(zero_chars(k) + s =~= zero_chars(k));
        lemma_digits_val_zeros(k);
    } else {
        lemma_digits_val_pad(k, s.drop_last());
        assert((zero_chars(k) + s).drop_last() =~= zero_chars(k) + s.drop_last());
        assert((zero_chars(k) + s).last() == s.last());
    }
}

pub fn u64_to_digits(n: u64) -> (v: Vec<char>)
    ensures
        v@ == spec_digits(n as nat),
{
    let mut out: Vec<char> = Vec::new();
    if n == 0 {
        out.push('0');
        assert(out@ =~= spec_digits(0));
        return out;
    }
    let mut x = n;
    while x > 0
        invariant
            x > 0 ==> spec_digits(n as nat) == spec_digits(x as nat) + out@,
            x == 0 ==> spec_digits(n as nat) == out@,
        decreases x,
    {
        let d = x % 10;
        let c = if d == 1 {
            '1'
        } else if d == 2 {
            '2'
        } else if d == 3 {
            '3'
        } else if d == 4 {
            '4'
        } else if d == 5 {
            '5'
        } else if d == 6 {
            '6'
        } else if d == 7 {
            '7'
        } else if d == 8 {
            '8'
        } else if d == 9 {
            '9'
        } else {
            '0'
        };
        assert(c == digit_char((x % 10) as nat));
        let ghost prev = out@;
        out.insert(0, c);
        assert(out@ =~= seq![c] + prev);
        proof {
            if x >= 10 {
                assert(spec_digits(x as nat) == spec_digits((x as nat) / 10).push(
                    digit_char((x as nat) % 10),
                ));
                assert(spec_digits((x as nat) / 10).push(c) =~= spec_digits((x as nat) / 10) + seq![
                    c,
                ]);
                assert(spec_digits((x as nat) / 10) + seq![c] + prev =~= spec_digits(
                    (x as nat) / 10,
                ) + (seq![c] + prev));
            } else {
                assert(spec_digits(x as nat) =~= seq![c]);
            }
        }
        x = x / 10;
    }
    out
}

} // verus!
