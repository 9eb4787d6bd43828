//! The whiskybase source site: its weak-date and strength parsers, its crawl
//! states, and the extraction of one listing record from a fetched page.

use vstd::prelude::*;

use crate::data::{Decimal, PageSkip, WeakDate, spec_decimal_of, spec_weakdate_string};
use crate::text::{
    collapse_and_trim, lemma_digits_val_spec_digits, lemma_spec_digits_all_digits,
    lemma_split_prepend, lemma_split_single, opt_view, parse_u16_str, parse_u8_str,
    spec_collapse_ws, spec_digits, spec_parse_u16, spec_parse_u8, spec_split, spec_trim,
    split_on_char, views,
};
use crate::util::{
    filter_locs_containing, lookup_labeled, spec_filter_containing, spec_lookup, spec_num_tokens,
    split_nums_and_strs,
};

verus! {

// ---------------------------------------------------------------------------
// Typed-value parsers
// ---------------------------------------------------------------------------

/// What a period-delimited date string denotes, dispatching purely on the
/// token count.  The year must be a parseable unsigned integer or the whole
/// date is absent; an unreadable month or day degrades to absence for that
/// field alone.
pub open spec fn spec_parse_date(s: Seq<char>) -> Option<WeakDate> {
    let parts = spec_split(s, '.');
    if parts.len() == 3 {
        match spec_parse_u16(parts[2]) {
            Some(y) => Some(
                WeakDate { year: y, month: spec_parse_u8(parts[1]), day: spec_parse_u8(parts[0]) },
            ),
            None => None,
        }
    } else if parts.len() == 2 {
        match spec_parse_u16(parts[1]) {
            Some(y) => Some(WeakDate { year: y, month: spec_parse_u8(parts[0]), day: None }),
            None => None,
        }
    } else if parts.len() == 1 {
        match spec_parse_u16(parts[0]) {
            Some(y) => Some(WeakDate { year: y, month: None, day: None }),
            None => None,
        }
    } else {
        None
    }
}

/// Reads a date in one of the layouts `DD.MM.YYYY`, `MM.YYYY` or `YYYY`,
/// most specific first.
pub fn parse_date(value: String) -> (r: Option<WeakDate>)
    ensures
        r == spec_parse_date(value@),
{
    let parts = split_on_char(value.as_str(), '.');
    if parts.len() == 3 {
        match parse_u16_str(parts[2].as_str()) {
            Some(y) => Some(
                WeakDate {
                    year: y,
                    month: parse_u8_str(parts[1].as_str()),
                    day: parse_u8_str(parts[0].as_str()),
                },
            ),
            None => None,
        }
    } else if parts.len() == 2 {
        match parse_u16_str(parts[1].as_str()) {
            Some(y) => Some(
                WeakDate { year: y, month: parse_u8_str(parts[0].as_str()), day: None },
            ),
            None => None,
        }
    } else if parts.len() == 1 {
        match parse_u16_str(parts[0].as_str()) {
            Some(y) => Some(WeakDate { year: y, month: None, day: None }),
            None => None,
        }
    } else {
        None
    }
}

/// What a strength string denotes: the first numeric token read as a decimal,
/// with no comma dropping and no unit check.
pub open spec fn spec_parse_abv(s: Seq<char>) -> Option<Decimal> {
    let nums = spec_num_tokens(s);
    if nums.len() == 0 {
        None
    } else {
        spec_decimal_of(nums[0])
    }
}

/// Reads a percentage-like measurement out of free text.
pub fn parse_abv(value: String) -> (r: Option<Decimal>)
    ensures
        r == spec_parse_abv(value@),
{
    let (nums, _) = split_nums_and_strs(value);
    if nums.len() == 0 {
        None
    } else {
        Decimal::parse(nums[0].as_str())
    }
}

// ---------------------------------------------------------------------------
// Laws of the date parser
// ---------------------------------------------------------------------------

/// For every three-token date string, the parse carries the year when the
/// year token reads as an integer, with month and day read best-effort, and
/// is absent otherwise.
pub proof fn lemma_parse_date_three_tokens(day: Seq<char>, mon: Seq<char>, yr: Seq<char>)
    requires
        forall|k: int| 0 <= k < day.len() ==> day[k] != '.',
        forall|k: int| 0 <= k < mon.len() ==> mon[k] != '.',
        forall|k: int| 0 <= k < yr.len() ==> yr[k] != '.',
    ensures
        spec_parse_date(day + seq!['.'] + mon + seq!['.'] + yr) == match spec_parse_u16(yr) {
            Some(y) => Some(
                WeakDate { year: y, month: spec_parse_u8(mon), day: spec_parse_u8(day) },
            ),
            None => None::<WeakDate>,
        },
{
    let rest = mon + seq!['.'] + yr;
    assert(day + seq!['.'] + mon + seq!['.'] + yr =~= day + seq!['.'] + rest);
    lemma_split_prepend(day, '.', rest);
    lemma_split_prepend(mon, '.', yr);
    lemma_split_single(yr, '.');
    assert(spec_split(day + seq!['.'] + rest, '.') =~= seq![day, mon, yr]);
}

/// For every two-token date string, the parse carries the year and a
/// best-effort month, the day absent.
pub proof fn lemma_parse_date_two_tokens(mon: Seq<char>, yr: Seq<char>)
    requires
        forall|k: int| 0 <= k < mon.len() ==> mon[k] != '.',
        forall|k: int| 0 <= k < yr.len() ==> yr[k] != '.',
    ensures
        spec_parse_date(mon + seq!['.'] + yr) == match spec_parse_u16(yr) {
            Some(y) => Some(WeakDate { year: y, month: spec_parse_u8(mon), day: None }),
            None => None::<WeakDate>,
        },
{
    lemma_split_prepend(mon, '.', yr);
    lemma_split_single(yr, '.');
    assert(spec_split(mon + seq!['.'] + yr, '.') =~= seq![mon, yr]);
}

/// For every one-token date string, the parse carries the year alone, month
/// and day absent.
pub proof fn lemma_parse_date_one_token(yr: Seq<char>)
    requires
        forall|k: int| 0 <= k < yr.len() ==> yr[k] != '.',
    ensures
        spec_parse_date(yr) == match spec_parse_u16(yr) {
            Some(y) => Some(WeakDate { year: y, month: None, day: None }),
            None => None::<WeakDate>,
        },
{
    lemma_split_single(yr, '.');
}

/// An unreadable year token makes the whole date absent, whatever the other
/// tokens hold.
pub proof fn lemma_parse_date_unparseable_year(s: Seq<char>)
    requires
        1 <= spec_split(s, '.').len() <= 3,
        spec_parse_u16(spec_split(s, '.').last()) is None,
    ensures
        spec_parse_date(s) is None,
{
}

/// Idempotence of the date form: parsing a weak date's canonical string gives
/// back exactly that date.  A day is only writable beside a month.
pub proof fn lemma_weakdate_canonical_roundtrip(d: WeakDate)
    requires
        d.day is Some ==> d.month is Some,
    ensures
        spec_parse_date(spec_weakdate_string(d)) == Some(d),
{
    let yr = spec_digits(d.year as nat);
    lemma_spec_digits_all_digits(d.year as nat);
    lemma_digits_val_spec_digits(d.year as nat);
    assert(forall|k: int| 0 <= k < yr.len() ==> yr[k] != '.');
    assert(spec_parse_u16(yr) == Some(d.year));
    match (d.month, d.day) {
        (Some(m), Some(dd)) => {
            let mon = spec_digits(m as nat);
            let day = spec_digits(dd as nat);
            lemma_spec_digits_all_digits(m as nat);
            lemma_digits_val_spec_digits(m as nat);
            lemma_spec_digits_all_digits(dd as nat);
            lemma_digits_val_spec_digits(dd as nat);
            assert(forall|k: int| 0 <= k < mon.len() ==> mon[k] != '.');
            assert(forall|k: int| 0 <= k < day.len() ==> day[k] != '.');
            lemma_parse_date_three_tokens(day, mon, yr);
            assert(spec_parse_u8(mon) == Some(m));
            assert(spec_parse_u8(day) == Some(dd));
            assert(spec_weakdate_string(d) == day + seq!['.'] + mon + seq!['.'] + yr);
        },
        (Some(m), None) => {
            let mon = spec_digits(m as nat);
            lemma_spec_digits_all_digits(m as nat);
            lemma_digits_val_spec_digits(m as nat);
            assert(forall|k: int| 0 <= k < mon.len() ==> mon[k] != '.');
            lemma_parse_date_two_tokens(mon, yr);
            assert(spec_parse_u8(mon) == Some(m));
        },
        _ => {
            lemma_parse_date_one_token(yr);
        },
    }
}

// ---------------------------------------------------------------------------
// Crawl states and sitemap transitions
// ---------------------------------------------------------------------------

/// The stage a pending whiskybase visit is in: the root sitemap index, one
/// sub-sitemap, or one listing page.
#[derive(Debug, PartialEq, Eq, Structural, Clone, Copy)]
pub enum WhiskybaseState {
    RootSitemap,
    SubSitemap,
    WhiskyPage,
}

/// The follow-up visits one fetched whiskybase document demands.  A root
/// sitemap enqueues one sub-sitemap visit per child location that mentions
/// whiskies (the root also lists unrelated sitemaps); a sub-sitemap enqueues
/// one page visit per location, unfiltered; a page enqueues nothing.
pub fn whiskybase_sitemap_visits(state: &WhiskybaseState, locs: &Vec<String>) -> (r: Vec<
    (String, WhiskybaseState),
>)
    ensures
        state is RootSitemap ==> {
            let kept = spec_filter_containing(views(locs@), "whiskies"@);
            &&& r@.len() == kept.len()
            &&& forall|k: int| 0 <= k < r@.len() ==> (#[trigger] r@[k]).0@ == kept[k]
            &&& forall|k: int| 0 <= k < r@.len() ==> (#[trigger] r@[k]).1 is SubSitemap
        },
        state is SubSitemap ==> {
            &&& r@.len() == locs@.len()
            &&& forall|k: int| 0 <= k < r@.len() ==> (#[trigger] r@[k]).0@ == locs@[k]@
            &&& forall|k: int| 0 <= k < r@.len() ==> (#[trigger] r@[k]).1 is WhiskyPage
        },
        state is WhiskyPage ==> r@.len() == 0,
{
    match state {
        WhiskybaseState::RootSitemap => {
            let kept = filter_locs_containing(locs, "whiskies");
            let mut r: Vec<(String, WhiskybaseState)> = Vec::new();
            let n = kept.len();
            let mut i: usize = 0;
            while i < n
                invariant
                    i <= n,
                    n == kept.len(),
                    r@.len() == i,
                    views(kept@) == spec_filter_containing(views(locs@), "whiskies"@),
                    forall|k: int| 0 <= k < i ==> (#[trigger] r@[k]).0@ == kept@[k]@,
                    forall|k: int| 0 <= k < i ==> (#[trigger] r@[k]).1 is SubSitemap,
                decreases n - i,
            {
                r.push((kept[i].clone(), WhiskybaseState::SubSitemap));
                i += 1;
            }
            assert(forall|k: int|
                0 <= k < views(kept@).len() ==> #[trigger] views(kept@)[k] == kept@[k]@);
            r
        },
        WhiskybaseState::SubSitemap => {
            let mut r: Vec<(String, WhiskybaseState)> = Vec::new();
            let n = locs.len();
            let mut i: usize = 0;
            while i < n
                invariant
                    i <= n,
                    n == locs.len(),
                    r@.len() == i,
                    forall|k: int| 0 <= k < i ==> (#[trigger] r@[k]).0@ == locs@[k]@,
                    forall|k: int| 0 <= k < i ==> (#[trigger] r@[k]).1 is WhiskyPage,
                decreases n - i,
            {
                r.push((locs[i].clone(), WhiskybaseState::WhiskyPage));
                i += 1;
            }
            r
        },
        WhiskybaseState::WhiskyPage => Vec::new(),
    }
}

// ---------------------------------------------------------------------------
// Page extraction
// ---------------------------------------------------------------------------

/// What the document primitives hand over from one fetched listing page:
/// the title element's text, the detail block's flattened label/value
/// tokens, and the score element's text, each absent when the element is.
pub struct WhiskybasePage {
    pub title: Option<String>,
    pub detail: Option<Vec<String>>,
    pub score: Option<String>,
}

/// One extracted whiskybase listing.
#[derive(Debug, PartialEq)]
pub struct WhiskyBaseWhisky {
    pub name: String,
    pub distillery: Option<String>,
    pub bottler: Option<String>,
    pub abv: Option<Decimal>,
    pub vintage: Option<WeakDate>,
    pub bottled: Option<WeakDate>,
    pub whiskybase_id: String,
    pub whiskybase_score: String,
}

/// Builds one listing record from a fetched page.  The title, the detail
/// block, the catalog id and the score are mandatory: a page missing one is
/// skipped with the reason.  Every other field degrades to absence.
pub fn extract_whiskybase_whisky(page: &WhiskybasePage) -> (r: Result<
    WhiskyBaseWhisky,
    PageSkip,
>)
    ensures
        page.title is None ==> r == Err::<WhiskyBaseWhisky, PageSkip>(PageSkip::MissingName),
        page.title is Some && page.detail is None ==> r == Err::<WhiskyBaseWhisky, PageSkip>(
            PageSkip::MissingDetail,
        ),
        page.title is Some && page.detail is Some && spec_lookup(
            views((page.detail->0)@),
            "Whiskybase ID"@,
        ) is None ==> r == Err::<WhiskyBaseWhisky, PageSkip>(PageSkip::MissingId),
        page.title is Some && page.detail is Some && spec_lookup(
            views((page.detail->0)@),
            "Whiskybase ID"@,
        ) is Some && page.score is None ==> r == Err::<WhiskyBaseWhisky, PageSkip>(
            PageSkip::MissingScore,
        ),
        r is Ok <==> page.title is Some && page.detail is Some && spec_lookup(
            views((page.detail->0)@),
            "Whiskybase ID"@,
        ) is Some && page.score is Some,
        r is Ok ==> {
            let w = r->Ok_0;
            let detail = views((page.detail->0)@);
            &&& w.name@ == spec_trim(spec_collapse_ws((page.title->0)@))
            &&& opt_view(w.distillery) == spec_lookup(detail, "Distillery"@)
            &&& opt_view(w.bottler) == spec_lookup(detail, "Bottler"@)
            &&& w.abv == (match spec_lookup(detail, "Strength"@) {
                Some(t) => spec_parse_abv(t),
                None => None::<Decimal>,
            })
            &&& w.vintage == (match spec_lookup(detail, "Vintage"@) {
                Some(t) => spec_parse_date(t),
                None => None::<WeakDate>,
            })
            &&& w.bottled == (match spec_lookup(detail, "Bottled"@) {
                Some(t) => spec_parse_date(t),
                None => None::<WeakDate>,
            })
            &&& w.whiskybase_id@ == spec_lookup(detail, "Whiskybase ID"@)->0
            &&& w.whiskybase_score@ == (page.score->0)@
        },
{
    let title = match &page.title {
        Some(t) => t,
        None => {
            return Err(PageSkip::MissingName);
        },
    };
    let detail = match &page.detail {
        Some(d) => d,
        None => {
            return Err(PageSkip::MissingDetail);
        },
    };
    let whiskybase_id = match lookup_labeled(detail, "Whiskybase ID") {
        Some(id) => id,
        None => {
            return Err(PageSkip::MissingId);
        },
    };
    let whiskybase_score = match &page.score {
        Some(s) => s.clone(),
        None => {
            return Err(PageSkip::MissingScore);
        },
    };
    let abv = match lookup_labeled(detail, "Strength") {
        Some(t) => parse_abv(t),
        None => None,
    };
    let vintage = match lookup_labeled(detail, "Vintage") {
        Some(t) => parse_date(t),
        None => None,
    };
    let bottled = match lookup_labeled(detail, "Bottled") {
        Some(t) => parse_date(t),
        None => None,
    };
    Ok(
        WhiskyBaseWhisky {
            name: collapse_and_trim(title.as_str()),
            distillery: lookup_labeled(detail, "Distillery"),
            bottler: lookup_labeled(detail, "Bottler"),
            abv,
            vintage,
            bottled,
            whiskybase_id,
            whiskybase_score,
        },
    )
}

} // verus!
