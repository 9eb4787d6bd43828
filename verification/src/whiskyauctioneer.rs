//! The whiskyauctioneer source site: its crawl states and the extraction of
//! one lot record from a fetched page.

use vstd::prelude::*;

use crate::data::{Decimal, PageSkip, Price, WeakDate, spec_price_from_string};
use crate::text::{
    contains_substr, has_substring, opt_view, parse_u32_str, spec_parse_u16, spec_parse_u32, views,
};
use crate::util::{
    filter_locs_containing, lookup_labeled_na, spec_filter_containing, spec_lookup_na,
    spec_num_tokens, spec_trim_all, split_nums_and_strs, trim_all_tokens,
};
use crate::whiskybase::spec_parse_abv;

verus! {

// ---------------------------------------------------------------------------
// Crawl states and sitemap transitions
// ---------------------------------------------------------------------------

/// The stage a pending whiskyauctioneer visit is in.
#[derive(Debug, PartialEq, Eq, Structural, Clone, Copy)]
pub enum WhiskyAuctioneerState {
    RootSitemap,
    SubSitemap,
    WhiskyPage,
}

/// The follow-up visits one fetched whiskyauctioneer document demands.  The
/// root sitemap enqueues every child sitemap; a sub-sitemap keeps only the
/// locations with a lot path segment; a page enqueues nothing.
pub fn whiskyauctioneer_sitemap_visits(state: &WhiskyAuctioneerState, locs: &Vec<String>) -> (r:
    Vec<(String, WhiskyAuctioneerState)>)
    ensures
        state is RootSitemap ==> {
            &&& r@.len() == locs@.len()
            &&& forall|k: int| 0 <= k < r@.len() ==> (#[trigger] r@[k]).0@ == locs@[k]@
            &&& forall|k: int| 0 <= k < r@.len() ==> (#[trigger] r@[k]).1 is SubSitemap
        },
        state is SubSitemap ==> {
            let kept = spec_filter_containing(views(locs@), "lot/"@);
            &&& r@.len() == kept.len()
            &&& forall|k: int| 0 <= k < r@.len() ==> (#[trigger] r@[k]).0@ == kept[k]
            &&& forall|k: int| 0 <= k < r@.len() ==> (#[trigger] r@[k]).1 is WhiskyPage
        },
        state is WhiskyPage ==> r@.len() == 0,
{
    match state {
        WhiskyAuctioneerState::RootSitemap => {
            let mut r: Vec<(String, WhiskyAuctioneerState)> = Vec::new();
            let n = locs.len();
            let mut i: usize = 0;
            while i < n
                invariant
                    i <= n,
                    n == locs.len(),
                    r@.len() == i,
                    forall|k: int| 0 <= k < i ==> (#[trigger] r@[k]).0@ == locs@[k]@,
                    forall|k: int| 0 <= k < i ==> (#[trigger] r@[k]).1 is SubSitemap,
                decreases n - i,
            {
                r.push((locs[i].clone(), WhiskyAuctioneerState::SubSitemap));
                i += 1;
            }
            r
        },
        WhiskyAuctioneerState::SubSitemap => {
            let kept = filter_locs_containing(locs, "lot/");
            let mut r: Vec<(String, WhiskyAuctioneerState)> = Vec::new();
            let n = kept.len();
            let mut i: usize = 0;
            while i < n
                invariant
                    i <= n,
                    n == kept.len(),
                    r@.len() == i,
                    views(kept@) == spec_filter_containing(views(locs@), "lot/"@),
                    forall|k: int| 0 <= k < i ==> (#[trigger] r@[k]).0@ == kept@[k]@,
                    forall|k: int| 0 <= k < i ==> (#[trigger] r@[k]).1 is WhiskyPage,
                decreases n - i,
            {
                r.push((kept[i].clone(), WhiskyAuctioneerState::WhiskyPage));
                i += 1;
            }
            assert(forall|k: int|
                0 <= k < views(kept@).len() ==> #[trigger] views(kept@)[k] == kept@[k]@);
            r
        },
        WhiskyAuctioneerState::WhiskyPage => Vec::new(),
    }
}

// ---------------------------------------------------------------------------
// Page extraction
// ---------------------------------------------------------------------------

/// What the document primitives hand over from one fetched lot page: the lot
/// name's text, the winning-bid text, the reserve-status text, and the detail
/// block's raw text tokens, each absent when its element is.
pub struct WhiskyAuctioneerPage {
    pub name: Option<String>,
    pub price_text: Option<String>,
    pub reservation_text: Option<String>,
    pub detail: Option<Vec<String>>,
}

/// One extracted whiskyauctioneer lot.
#[derive(Debug, PartialEq)]
pub struct WhiskyAuctioneerWhisky {
    pub name: String,
    pub price: Price,
    pub reservation: Option<bool>,
    pub distilery: Option<String>,
    pub age: Option<u32>,
    pub vintage: Option<WeakDate>,
    pub region: Option<String>,
    pub bottler: Option<String>,
    pub cask_type: Option<String>,
    pub abv: Option<Decimal>,
    pub bottle_size: Option<String>,
}

/// The number of years an age column denotes: the first numeric token read as
/// an unsigned integer.
pub open spec fn spec_age_of(t: Seq<char>) -> Option<u32> {
    let nums = spec_num_tokens(t);
    if nums.len() == 0 {
        None
    } else {
        spec_parse_u32(nums[0])
    }
}

/// Builds one lot record from a fetched page.  The detail block, the name and
/// a readable winning bid are mandatory: a page missing one is skipped with
/// the reason.  Every other field degrades to absence; column values equal to
/// the "not applicable" marker count as absent.  The detail tokens are
/// trimmed (empties kept) before lookup.
pub fn extract_whiskyauctioneer_whisky(page: &WhiskyAuctioneerPage) -> (r: Result<
    WhiskyAuctioneerWhisky,
    PageSkip,
>)
    ensures
        page.detail is None ==> r == Err::<WhiskyAuctioneerWhisky, PageSkip>(
            PageSkip::MissingDetail,
        ),
        page.detail is Some && page.name is None ==> r == Err::<WhiskyAuctioneerWhisky, PageSkip>(
            PageSkip::MissingName,
        ),
        page.detail is Some && page.name is Some && (match opt_view(page.price_text) {
            Some(p) => spec_price_from_string(p) is None,
            None => true,
        }) ==> r == Err::<WhiskyAuctioneerWhisky, PageSkip>(PageSkip::MissingPrice),
        r is Ok <==> page.detail is Some && page.name is Some && (match opt_view(
            page.price_text,
        ) {
            Some(p) => spec_price_from_string(p) is Some,
            None => false,
        }),
        r is Ok ==> {
            let w = r->Ok_0;
            let detail = spec_trim_all(views((page.detail->0)@));
            &&& w.name@ == (page.name->0)@
            &&& Some(w.price) == spec_price_from_string((page.price_text->0)@)
            &&& w.reservation == (match opt_view(page.reservation_text) {
                Some(t) => Some(has_substring(t, "RESERVE HAS BEEN MET"@)),
                None => None::<bool>,
            })
            &&& opt_view(w.distilery) == spec_lookup_na(detail, "Distillery:"@)
            &&& w.age == (match spec_lookup_na(detail, "Age:"@) {
                Some(t) => spec_age_of(t),
                None => None::<u32>,
            })
            &&& w.vintage == (match spec_lookup_na(detail, "Vintage:"@) {
                Some(t) => match spec_parse_u16(t) {
                    Some(y) => Some(WeakDate { year: y, month: None, day: None }),
                    None => None::<WeakDate>,
                },
                None => None::<WeakDate>,
            })
            &&& opt_view(w.region) == spec_lookup_na(detail, "Region:"@)
            &&& opt_view(w.bottler) == spec_lookup_na(detail, "Bottler:"@)
            &&& opt_view(w.cask_type) == spec_lookup_na(detail, "Cask Type:"@)
            &&& w.abv == (match spec_lookup_na(detail, "Bottled Strength:"@) {
                Some(t) => if has_substring(t, "%"@) {
                    spec_parse_abv(t)
                } else {
                    None::<Decimal>
                },
                None => None::<Decimal>,
            })
            &&& opt_view(w.bottle_size) == spec_lookup_na(detail, "Bottle Size::"@)
        },
{
    let detail_raw = match &page.detail {
        Some(d) => d,
        None => {
            return Err(PageSkip::MissingDetail);
        },
    };
    let name = match &page.name {
        Some(t) => t.clone(),
        None => {
            return Err(PageSkip::MissingName);
        },
    };
    let price = match &page.price_text {
        Some(p) => match Price::from_string(p.clone()) {
            Some(pr) => pr,
            None => {
                return Err(PageSkip::MissingPrice);
            },
        },
        None => {
            return Err(PageSkip::MissingPrice);
        },
    };
    let detail = trim_all_tokens(detail_raw);

    let reservation = match &page.reservation_text {
        Some(t) => Some(contains_substr(t.as_str(), "RESERVE HAS BEEN MET")),
        None => None,
    };
    let age = match lookup_labeled_na(&detail, "Age:") {
        Some(t) => {
            let (nums, _) = split_nums_and_strs(t);
            if nums.len() == 0 {
                None
            } else {
                parse_u32_str(nums[0].as_str())
            }
        },
        None => None,
    };
    let vintage = match lookup_labeled_na(&detail, "Vintage:") {
        Some(t) => WeakDate::try_from_year(t.as_str()),
        None => None,
    };
    let abv = match lookup_labeled_na(&detail, "Bottled Strength:") {
        Some(t) => {
            if contains_substr(t.as_str(), "%") {
                let (nums, _) = split_nums_and_strs(t);
                if nums.len() == 0 {
                    None
                } else {
                    Decimal::parse(nums[0].as_str())
                }
            } else {
                None
            }
        },
        None => None,
    };
    Ok(
        WhiskyAuctioneerWhisky {
            name,
            price,
            reservation,
            distilery: lookup_labeled_na(&detail, "Distillery:"),
            age,
            vintage,
            region: lookup_labeled_na(&detail, "Region:"),
            bottler: lookup_labeled_na(&detail, "Bottler:"),
            cask_type: lookup_labeled_na(&detail, "Cask Type:"),
            abv,
            bottle_size: lookup_labeled_na(&detail, "Bottle Size::"),
        },
    )
}

} // verus!
