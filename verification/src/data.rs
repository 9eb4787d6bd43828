//! Domain value types: currencies recognized by a symbol character, exact
//! decimal magnitudes, currency-tagged prices, and partially-known dates.
//!
//! A magnitude is held exactly as an integer mantissa and a decimal scale
//! (the number of fractional digits), so "98.99" is mantissa 9899 at scale 2.
//! A price exists only when both a magnitude and a recognized currency symbol
//! were found; a partial parse never yields a half-filled price.

use vstd::prelude::*;

use crate::text::{
    all_digits, chars_to_string, digit_of, digits_val, is_digit, lemma_digits_val_pad,
    lemma_digits_val_spec_digits, lemma_spec_digits_all_digits, lemma_spec_find, spec_digits,
    spec_find, spec_parse_u16, str_to_chars, strip_commas, strip_commas_chars,
    subvec, u64_to_digits, views, zero_chars, parse_u16_str, parse_u64_chars,
};
use crate::util::{spec_alpha_tokens, spec_num_tokens, split_nums_and_strs};

verus! {

// ---------------------------------------------------------------------------
// Currency
// ---------------------------------------------------------------------------

/// A currency recognized by exactly one symbol character.
#[derive(Debug, PartialEq, Eq, Structural, Clone, Copy)]
pub enum Currency {
    GBP,
    KRW,
    USD,
    EUR,
    JPY,
}

/// The symbol → currency mapping, stated once; both the executable
/// recognizer and every contract about currency scanning use it.
pub open spec fn spec_currency_of_symbol(c: char) -> Option<Currency> {
    if c == '\u{a3}' {
        Some(Currency::GBP)
    } else if c == '\u{20a9}' {
        Some(Currency::KRW)
    } else if c == '$' {
        Some(Currency::USD)
    } else if c == '\u{20ac}' {
        Some(Currency::EUR)
    } else if c == '\u{a5}' {
        Some(Currency::JPY)
    } else {
        None
    }
}

/// A character that is the symbol of some recognized currency.
pub open spec fn is_currency_symbol(c: char) -> bool {
    spec_currency_of_symbol(c) is Some
}

impl Currency {
    /// Recognizes a currency from its symbol character; any other character
    /// is no currency at all.
    pub fn from_symbol(symbol: &char) -> (r: Option<Currency>)
        ensures
            r == spec_currency_of_symbol(*symbol),
    {
        let c = *symbol;
        if c == '£' {
            Some(Currency::GBP)
        } else if c == '₩' {
            Some(Currency::KRW)
        } else if c == '$' {
            Some(Currency::USD)
        } else if c == '€' {
            Some(Currency::EUR)
        } else if c == '¥' {
            Some(Currency::JPY)
        } else {
            None
        }
    }
}

// ---------------------------------------------------------------------------
// Decimal magnitudes
// ---------------------------------------------------------------------------

/// An exact decimal magnitude: `mantissa` scaled down by `scale` fractional
/// digits, so the denoted value is `mantissa / 10^scale`.
#[derive(Debug, PartialEq, Eq, Structural, Clone, Copy)]
pub struct Decimal {
    pub mantissa: u64,
    pub scale: u32,
}

/// Every position except `d` holds a digit.
pub open spec fn all_digits_except(u: Seq<char>, d: int) -> bool {
    forall|k: int| 0 <= k < u.len() && k != d ==> is_digit(u[k])
}

/// The decimal a digit string with at most one point denotes: nonempty, not
/// starting with the point, digits everywhere else, mantissa within range.
/// Anything else denotes no decimal.
pub open spec fn spec_decimal_of(u: Seq<char>) -> Option<Decimal> {
    let d = spec_find(u, '.', 0);
    let digits = if d < u.len() {
        u.subrange(0, d) + u.subrange(d + 1, u.len() as int)
    } else {
        u
    };
    let scale = if d < u.len() {
        u.len() - d - 1
    } else {
        0
    };
    if u.len() > 0 && d != 0 && all_digits_except(u, d) && digits_val(digits) <= u64::MAX && scale
        <= u32::MAX {
        Some(Decimal { mantissa: digits_val(digits) as u64, scale: scale as u32 })
    } else {
        None
    }
}

/// The decimal a token denotes once thousands-separator commas are dropped.
pub open spec fn spec_decimal_of_lenient(t: Seq<char>) -> Option<Decimal> {
    spec_decimal_of(strip_commas(t))
}

#[verifier::loop_isolation(false)]
fn decimal_of_chars(u: &Vec<char>) -> (r: Option<Decimal>)
    ensures
        r == spec_decimal_of(u@),
{
    let n = u.len();
    if n == 0 {
        return None;
    }
    proof {
        lemma_spec_find(u@, '.', 0);
    }
    let mut d: usize = 0;
    while d < n && u[d] != '.'
        invariant
            d <= n,
            n == u.len(),
            spec_find(u@, '.', 0) == spec_find(u@, '.', d as int),
        decreases n - d,
    {
        d += 1;
    }
    assert(spec_find(u@, '.', 0) == d);
    if d == 0 {
        return None;
    }
    let mut k: usize = 0;
    while k < n
        invariant
            k <= n,
            n == u.len(),
            forall|x: int| 0 <= x < k && x != d ==> is_digit(u@[x]),
        decreases n - k,
    {
        if k != d && digit_of(u[k]).is_none() {
            assert(!all_digits_except(u@, d as int));
            return None;
        }
        k += 1;
    }
    assert(all_digits_except(u@, d as int));
    let ghost dd = d as int;
    let digits: Vec<char> = if d < n {
        let mut head = subvec(u, 0, d);
        let mut tail = subvec(u, d + 1, n);
        head.append(&mut tail);
        head
    } else {
        subvec(u, 0, n)
    };
    assert(digits@ == if dd < u@.len() {
        u@.subrange(0, dd) + u@.subrange(dd + 1, u@.len() as int)
    } else {
        u@
    }) by {
        if d == n {
            assert(u@.subrange(0, n as int) =~= u@);
        }
    };
    let dn = digits.len();
    let mantissa = match parse_u64_chars(&digits, 0, dn) {
        Some(m) => m,
        None => {
            proof {
                assert(digits@.subrange(0, dn as int) =~= digits@);
                assert(digits@.len() > 0);
                assert(all_digits(digits@)) by {
                    assert(forall|x: int| 0 <= x < dd ==> digits@[x] == u@[x]);
                    assert(forall|x: int|
                        dd <= x < digits@.len() ==> digits@[x] == u@[x + 1]);
                }
                assert(digits_val(digits@) > u64::MAX);
            }
            return None;
        },
    };
    proof {
        assert(digits@.subrange(0, dn as int) =~= digits@);
    }
    let scale: usize = if d < n {
        n - d - 1
    } else {
        0
    };
    if scale > u32::MAX as usize {
        return None;
    }
    Some(Decimal { mantissa, scale: scale as u32 })
}

/// The canonical text of a decimal: the mantissa's digits, left-padded with
/// zeros so the point fits, with the point inserted before the last `scale`
/// digits (no point at scale zero).
pub open spec fn spec_decimal_string(d: Decimal) -> Seq<char> {
    let ds = spec_digits(d.mantissa as nat);
    let padded = if ds.len() >= d.scale + 1 {
        ds
    } else {
        zero_chars((d.scale + 1 - ds.len()) as nat) + ds
    };
    if d.scale == 0 {
        padded
    } else {
        padded.subrange(0, padded.len() - d.scale) + seq!['.'] + padded.subrange(
            padded.len() - d.scale,
            padded.len() as int,
        )
    }
}

impl Decimal {
    pub fn new(mantissa: u64, scale: u32) -> (r: Decimal)
        ensures
            r == (Decimal { mantissa, scale }),
    {
        Decimal { mantissa, scale }
    }

    /// Reads a decimal from text: digits with at most one decimal point and
    /// no other characters (commas included) accepted.
    pub fn parse(s: &str) -> (r: Option<Decimal>)
        ensures
            r == spec_decimal_of(s@),
    {
        let v = str_to_chars(s);
        decimal_of_chars(&v)
    }

    /// Reads a decimal from text after dropping thousands-separator commas.
    pub fn parse_lenient(s: &str) -> (r: Option<Decimal>)
        ensures
            r == spec_decimal_of_lenient(s@),
    {
        let v = str_to_chars(s);
        let u = strip_commas_chars(&v);
        decimal_of_chars(&u)
    }

    /// The canonical string form; reparsing it gives back the same decimal.
    pub fn canonical_string(&self) -> (r: String)
        ensures
            r@ == spec_decimal_string(*self),
    {
        let ds = u64_to_digits(self.mantissa);
        proof {
            lemma_spec_digits_all_digits(self.mantissa as nat);
        }
        let len = ds.len();
        let scale = self.scale as usize;
        let padded: Vec<char> = if len - 1 < scale {
            let pad = scale - (len - 1);
            let mut p: Vec<char> = Vec::new();
            let mut k: usize = 0;
            while k < pad
                invariant
                    k <= pad,
                    p@ == zero_chars(k as nat),
                decreases pad - k,
            {
                p.push('0');
                assert(p@ =~= zero_chars((k + 1) as nat));
                k += 1;
            }
            let mut tail = subvec(&ds, 0, len);
            assert(tail@ =~= ds@);
            p.append(&mut tail);
            p
        } else {
            ds
        };
        assert(padded@ == if spec_digits(self.mantissa as nat).len() >= self.scale + 1 {
            spec_digits(self.mantissa as nat)
        } else {
            zero_chars(
                (self.scale + 1 - spec_digits(self.mantissa as nat).len()) as nat,
            ) + spec_digits(self.mantissa as nat)
        });
        if scale == 0 {
            chars_to_string(&padded)
        } else {
            let plen = padded.len();
            let mut out = subvec(&padded, 0, plen - scale);
            out.push('.');
            let mut frac = subvec(&padded, plen - scale, plen);
            out.append(&mut frac);
            assert(out@ =~= padded@.subrange(0, padded@.len() - self.scale) + seq!['.']
                + padded@.subrange(padded@.len() - self.scale, padded@.len() as int));
            chars_to_string(&out)
        }
    }
}

/// Idempotence of the decimal form: parsing a decimal's canonical string
/// gives back exactly that decimal.
pub proof fn lemma_decimal_canonical_roundtrip(d: Decimal)
    ensures
        spec_decimal_of(spec_decimal_string(d)) == Some(d),
{
    let m = d.mantissa as nat;
    let ds = spec_digits(m);
    lemma_spec_digits_all_digits(m);
    lemma_digits_val_spec_digits(m);
    let padded = if ds.len() >= d.scale + 1 {
        ds
    } else {
        zero_chars((d.scale + 1 - ds.len()) as nat) + ds
    };
    assert(all_digits(padded)) by {
        if ds.len() < d.scale + 1 {
            let pad = (d.scale + 1 - ds.len()) as nat;
            assert(forall|k: int| 0 <= k < pad ==> padded[k] == '0');
            assert(forall|k: int| pad <= k < padded.len() ==> padded[k] == ds[k - pad]);
        }
    }
    assert(digits_val(padded) == m) by {
        if ds.len() < d.scale + 1 {
            lemma_digits_val_pad((d.scale + 1 - ds.len()) as nat, ds);
        }
    }
    let plen = padded.len() as int;
    assert(plen >= d.scale + 1);
    let cs = spec_decimal_string(d);
    lemma_spec_find(cs, '.', 0);
    let f = spec_find(cs, '.', 0);
    if d.scale == 0 {
        assert(cs == padded);
        assert(f == cs.len()) by {
            if f < cs.len() {
                assert(is_digit(cs[f]));
            }
        }
        assert(cs.len() > 0);
        assert(spec_decimal_of(cs) == Some(d));
    } else {
        let dotpos = plen - d.scale;
        assert(1 <= dotpos < plen + 1);
        assert(cs.len() == plen + 1);
        assert(cs[dotpos] == '.');
        assert(forall|k: int| 0 <= k < dotpos ==> cs[k] == padded[k]);
        assert(forall|k: int| dotpos < k < cs.len() ==> cs[k] == padded[k - 1]);
        assert(f == dotpos) by {
            if f < dotpos {
                assert(is_digit(cs[f]));
            }
            if f > dotpos {
                assert(cs[dotpos] != '.');
            }
        }
        assert(all_digits_except(cs, dotpos));
        let digits = cs.subrange(0, dotpos) + cs.subrange(dotpos + 1, cs.len() as int);
        assert(digits =~= padded);
        assert(cs.len() - f - 1 == d.scale);
        assert(spec_decimal_of(cs) == Some(d));
    }
}

// ---------------------------------------------------------------------------
// Price
// ---------------------------------------------------------------------------

/// A monetary amount: an exact magnitude tagged with its currency.
#[derive(Debug, PartialEq, Eq, Structural, Clone, Copy)]
pub struct Price {
    pub value: Decimal,
    pub currency: Currency,
}

/// The first currency symbol in `t` at or after `j`, if any.
pub open spec fn first_currency_char_from(t: Seq<char>, j: int) -> Option<Currency>
    decreases t.len() - j when 0 <= j <= t.len()
{
    if j >= t.len() {
        None
    } else if is_currency_symbol(t[j]) {
        spec_currency_of_symbol(t[j])
    } else {
        first_currency_char_from(t, j + 1)
    }
}

/// The first currency symbol across the runs at or after `i`, scanning each
/// run's characters in order.
pub open spec fn first_currency_from(strs: Seq<Seq<char>>, i: int) -> Option<Currency>
    decreases strs.len() - i when 0 <= i <= strs.len()
{
    if i >= strs.len() {
        None
    } else {
        match first_currency_char_from(strs[i], 0) {
            Some(c) => Some(c),
            None => first_currency_from(strs, i + 1),
        }
    }
}

/// What price a free-text string denotes: the first numeric token read
/// leniently as the magnitude, the first currency symbol anywhere in the
/// alphabetic runs as the currency; absence unless both are found.
pub open spec fn spec_price_from_string(s: Seq<char>) -> Option<Price> {
    let nums = spec_num_tokens(s);
    let strs = spec_alpha_tokens(s);
    if nums.len() == 0 {
        None
    } else {
        match spec_decimal_of_lenient(nums[0]) {
            None => None,
            Some(v) => match first_currency_from(strs, 0) {
                None => None,
                Some(c) => Some(Price { value: v, currency: c }),
            },
        }
    }
}

impl Price {
    pub fn new(value: Decimal, currency: Currency) -> (r: Price)
        ensures
            r == (Price { value, currency }),
    {
        Price { value, currency }
    }

    /// Reads one price out of free text; symbol and magnitude may sit
    /// anywhere in the string, first found wins for each independently.
    #[verifier::loop_isolation(false)]
    pub fn from_string(s: String) -> (r: Option<Price>)
        ensures
            r == spec_price_from_string(s@),
    {
        let (nums, strs) = split_nums_and_strs(s);
        if nums.len() == 0 {
            return None;
        }
        let value = match Decimal::parse_lenient(nums[0].as_str()) {
            Some(v) => v,
            None => {
                return None;
            },
        };
        let n = strs.len();
        let mut i: usize = 0;
        while i < n
            invariant
                i <= n,
                n == strs.len(),
                first_currency_from(views(strs@), 0) == first_currency_from(
                    views(strs@),
                    i as int,
                ),
            decreases n - i,
        {
            let t = str_to_chars(strs[i].as_str());
            let m = t.len();
            assert(views(strs@)[i as int] == t@);
            let mut j: usize = 0;
            while j < m
                invariant
                    j <= m,
                    m == t@.len(),
                    first_currency_char_from(t@, 0) == first_currency_char_from(t@, j as int),
                decreases m - j,
            {
                match Currency::from_symbol(&t[j]) {
                    Some(c) => {
                        assert(first_currency_char_from(t@, j as int) == Some(c));
                        return Some(Price { value, currency: c });
                    },
                    None => {
                        j += 1;
                    },
                }
            }
            assert(first_currency_char_from(t@, 0) is None);
            i += 1;
        }
        assert(first_currency_from(views(strs@), n as int) is None);
        None
    }
}

/// A price needs both halves: text holding no numeric token, or no readable
/// magnitude, or no recognized currency symbol anywhere in its runs, is no
/// price at all.
pub proof fn lemma_price_needs_both(s: Seq<char>)
    ensures
        spec_num_tokens(s).len() == 0 ==> spec_price_from_string(s) is None,
        spec_num_tokens(s).len() > 0 && spec_decimal_of_lenient(spec_num_tokens(s)[0]) is None
            ==> spec_price_from_string(s) is None,
        first_currency_from(spec_alpha_tokens(s), 0) is None ==> spec_price_from_string(s)
            is None,
        spec_price_from_string(s) is Some ==> spec_num_tokens(s).len() > 0
            && first_currency_from(spec_alpha_tokens(s), 0) is Some,
{
}

// ---------------------------------------------------------------------------
// Per-page failure
// ---------------------------------------------------------------------------

/// Why a fetched page yielded no record: a mandatory piece of the document
/// was missing or unreadable.  One bad page is skipped; it never stops the
/// traversal.
#[derive(Debug, PartialEq, Eq, Structural, Clone, Copy)]
pub enum PageSkip {
    MissingName,
    MissingPrice,
    MissingDetail,
    MissingSizeAbv,
    MissingId,
    MissingScore,
}

// ---------------------------------------------------------------------------
// Partially-known dates
// ---------------------------------------------------------------------------

/// A partially-known calendar date: the year is always known, month and day
/// may be absent.  Two weak dates are the same exactly when all three parts
/// match, absent parts included.
#[derive(Debug, PartialEq, Eq, Structural, Clone, Copy)]
pub struct WeakDate {
    pub year: u16,
    pub month: Option<u8>,
    pub day: Option<u8>,
}

/// The canonical period-delimited text of a weak date, most specific layout
/// first; a day without a month cannot be written and falls back to the year
/// alone.
pub open spec fn spec_weakdate_string(d: WeakDate) -> Seq<char> {
    match (d.month, d.day) {
        (Some(m), Some(dd)) => spec_digits(dd as nat) + seq!['.'] + spec_digits(m as nat)
            + seq!['.'] + spec_digits(d.year as nat),
        (Some(m), None) => spec_digits(m as nat) + seq!['.'] + spec_digits(d.year as nat),
        _ => spec_digits(d.year as nat),
    }
}

impl WeakDate {
    pub fn new(year: u16, month: Option<u8>, day: Option<u8>) -> (r: WeakDate)
        ensures
            r == (WeakDate { year, month, day }),
    {
        WeakDate { year, month, day }
    }

    /// Builds a year-only date from text known a priori to carry a year.
    pub fn from_year(s: String) -> (r: WeakDate)
        requires
            spec_parse_u16(s@) is Some,
        ensures
            r == (WeakDate { year: spec_parse_u16(s@)->0, month: None, day: None }),
    {
        match parse_u16_str(s.as_str()) {
            Some(y) => WeakDate { year: y, month: None, day: None },
            None => WeakDate { year: 0, month: None, day: None },
        }
    }

    /// The canonical period-delimited text: day, month and year when all are
    /// known, month and year when the day is absent, the year alone
    /// otherwise.
    pub fn canonical_string(&self) -> (r: String)
        ensures
            r@ == spec_weakdate_string(*self),
    {
        let y = u64_to_digits(self.year as u64);
        match (self.month, self.day) {
            (Some(m), Some(dd)) => {
                let mut out = u64_to_digits(dd as u64);
                out.push('.');
                let mut mv = u64_to_digits(m as u64);
                out.append(&mut mv);
                out.push('.');
                let mut yv = y;
                out.append(&mut yv);
                assert(out@ =~= spec_weakdate_string(*self));
                chars_to_string(&out)
            },
            (Some(m), None) => {
                let mut out = u64_to_digits(m as u64);
                out.push('.');
                let mut yv = y;
                out.append(&mut yv);
                assert(out@ =~= spec_weakdate_string(*self));
                chars_to_string(&out)
            },
            _ => chars_to_string(&y),
        }
    }

    /// As `from_year`, but absent when the text is no year at all.
    pub fn try_from_year(s: &str) -> (r: Option<WeakDate>)
        ensures
            r == match spec_parse_u16(s@) {
                Some(y) => Some(WeakDate { year: y, month: None, day: None }),
                None => None::<WeakDate>,
            },
    {
        match parse_u16_str(s) {
            Some(y) => Some(WeakDate { year: y, month: None, day: None }),
            None => None,
        }
    }
}

} // verus!
