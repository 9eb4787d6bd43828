//! The whisky.auction source site: its crawl states and the extraction of one
//! lot record from a fetched page.

use vstd::prelude::*;

use crate::data::{Decimal, PageSkip, Price, WeakDate, spec_price_from_string};
use crate::text::{opt_view, spec_parse_u16, spec_parse_u32, spec_split, str_eq, views};
use crate::util::{
    filter_locs_containing, lookup_labeled, spec_filter_containing, spec_lookup, spec_trim_all,
    spec_trim_nonempty, split_nums_and_strs, trim_all_tokens, trim_nonempty_tokens,
};
use crate::whiskybase::spec_parse_abv;
use crate::text::{parse_u32_str, split_on_char};

verus! {

// ---------------------------------------------------------------------------
// Crawl states and sitemap transitions
// ---------------------------------------------------------------------------

/// The stage a pending whisky.auction visit is in.
#[derive(Debug, PartialEq, Eq, Structural, Clone, Copy)]
pub enum WhiskyAuctionState {
    RootSitemap,
    SubSitemap,
    WhiskyPage,
}

/// The follow-up visits one fetched whisky.auction document demands.  The
/// root sitemap keeps only child locations naming an auction batch; a
/// sub-sitemap enqueues every listed page; a page enqueues nothing.
pub fn whiskyauction_sitemap_visits(state: &WhiskyAuctionState, locs: &Vec<String>) -> (r: Vec<
    (String, WhiskyAuctionState),
>)
    ensures
        state is RootSitemap ==> {
            let kept = spec_filter_containing(views(locs@), "auctionId"@);
            &&& r@.len() == kept.len()
            &&& forall|k: int| 0 <= k < r@.len() ==> (#[trigger] r@[k]).0@ == kept[k]
            &&& forall|k: int| 0 <= k < r@.len() ==> (#[trigger] r@[k]).1 is SubSitemap
        },
        state is SubSitemap ==> {
            &&& r@.len() == locs@.len()
            &&& forall|k: int| 0 <= k < r@.len() ==> (#[trigger] r@[k]).0@ == locs@[k]@
            &&& forall|k: int| 0 <= k < r@.len() ==> (#[trigger] r@[k]).1 is WhiskyPage
        },
        state is WhiskyPage ==> r@.len() == 0,
{
    match state {
        WhiskyAuctionState::RootSitemap => {
            let kept = filter_locs_containing(locs, "auctionId");
            let mut r: Vec<(String, WhiskyAuctionState)> = Vec::new();
            let n = kept.len();
            let mut i: usize = 0;
            while i < n
                invariant
                    i <= n,
                    n == kept.len(),
                    r@.len() == i,
                    views(kept@) == spec_filter_containing(views(locs@), "auctionId"@),
                    forall|k: int| 0 <= k < i ==> (#[trigger] r@[k]).0@ == kept@[k]@,
                    forall|k: int| 0 <= k < i ==> (#[trigger] r@[k]).1 is SubSitemap,
                decreases n - i,
            {
                r.push((kept[i].clone(), WhiskyAuctionState::SubSitemap));
                i += 1;
            }
            assert(forall|k: int|
                0 <= k < views(kept@).len() ==> #[trigger] views(kept@)[k] == kept@[k]@);
            r
        },
        WhiskyAuctionState::SubSitemap => {
            let mut r: Vec<(String, WhiskyAuctionState)> = Vec::new();
            let n = locs.len();
            let mut i: usize = 0;
            while i < n
                invariant
                    i <= n,
                    n == locs.len(),
                    r@.len() == i,
                    forall|k: int| 0 <= k < i ==> (#[trigger] r@[k]).0@ == locs@[k]@,
                    forall|k: int| 0 <= k < i ==> (#[trigger] r@[k]).1 is WhiskyPage,
                decreases n - i,
            {
                r.push((locs[i].clone(), WhiskyAuctionState::WhiskyPage));
                i += 1;
            }
            r
        },
        WhiskyAuctionState::WhiskyPage => Vec::new(),
    }
}

// ---------------------------------------------------------------------------
// Page extraction
// ---------------------------------------------------------------------------

/// What the document primitives hand over from one fetched lot page: the lot
/// name's text, the winning-bid text, the detail block's raw text tokens, and
/// the "bottle size / strength" line, each absent when its element is.
pub struct WhiskyAuctionPage {
    pub name: Option<String>,
    pub price_text: Option<String>,
    pub detail: Option<Vec<String>>,
    pub size_and_abv: Option<String>,
}

/// One extracted whisky.auction lot.
#[derive(Debug, PartialEq)]
pub struct WhiskyAuctionWhisky {
    pub name: String,
    pub price: Option<Price>,
    pub age: Option<u32>,
    pub vintage: Option<WeakDate>,
    pub region: Option<String>,
    pub bottler: Option<String>,
    pub cask_type: Option<String>,
    pub abv: Option<Decimal>,
    pub bottle_size: Option<String>,
}

/// The winning bid a lot page carries: absent when no bid text is there, when
/// it is the "not applicable" marker, or when it holds no readable price.
pub open spec fn spec_auction_price(price_text: Option<Seq<char>>) -> Option<Price> {
    match price_text {
        Some(p) => if p == "N/A"@ {
            None
        } else {
            spec_price_from_string(p)
        },
        None => None,
    }
}

/// The trimmed pieces of the "bottle size / strength" line.
pub open spec fn spec_size_abv_parts(line: Seq<char>) -> Seq<Seq<char>> {
    spec_trim_all(spec_split(line, '/'))
}

/// Builds one lot record from a fetched page.  The name, the detail block and
/// the size-and-strength line are mandatory: a page missing one is skipped
/// with the reason.  Every other field degrades to absence.  The detail
/// tokens are trimmed and empties dropped before lookup.
pub fn extract_whiskyauction_whisky(page: &WhiskyAuctionPage) -> (r: Result<
    WhiskyAuctionWhisky,
    PageSkip,
>)
    ensures
        page.name is None ==> r == Err::<WhiskyAuctionWhisky, PageSkip>(PageSkip::MissingName),
        page.name is Some && page.detail is None ==> r == Err::<WhiskyAuctionWhisky, PageSkip>(
            PageSkip::MissingDetail,
        ),
        page.name is Some && page.detail is Some && page.size_and_abv is None ==> r == Err::<
            WhiskyAuctionWhisky,
            PageSkip,
        >(PageSkip::MissingSizeAbv),
        r is Ok <==> page.name is Some && page.detail is Some && page.size_and_abv is Some,
        r is Ok ==> {
            let w = r->Ok_0;
            let detail = spec_trim_nonempty(views((page.detail->0)@));
            let parts = spec_size_abv_parts((page.size_and_abv->0)@);
            &&& w.name@ == (page.name->0)@
            &&& w.price == spec_auction_price(opt_view(page.price_text))
            &&& w.age == (match spec_lookup(detail, "Age"@) {
                Some(t) => spec_parse_u32(t),
                None => None::<u32>,
            })
            &&& w.vintage == (match spec_lookup(detail, "Vintage"@) {
                Some(t) => match spec_parse_u16(t) {
                    Some(y) => Some(WeakDate { year: y, month: None, day: None }),
                    None => None::<WeakDate>,
                },
                None => None::<WeakDate>,
            })
            &&& opt_view(w.region) == spec_lookup(detail, "Region"@)
            &&& opt_view(w.bottler) == spec_lookup(detail, "Bottler"@)
            &&& opt_view(w.cask_type) == spec_lookup(detail, "Cask Type"@)
            &&& w.abv == (if parts.len() >= 2 {
                spec_parse_abv(parts[1])
            } else {
                None::<Decimal>
            })
            &&& opt_view(w.bottle_size) == (if parts.len() >= 1 {
                Some(parts[0])
            } else {
                None::<Seq<char>>
            })
        },
{
    let name = match &page.name {
        Some(t) => t.clone(),
        None => {
            return Err(PageSkip::MissingName);
        },
    };
    let detail_raw = match &page.detail {
        Some(d) => d,
        None => {
            return Err(PageSkip::MissingDetail);
        },
    };
    let line = match &page.size_and_abv {
        Some(l) => l,
        None => {
            return Err(PageSkip::MissingSizeAbv);
        },
    };
    let detail = trim_nonempty_tokens(detail_raw);
    let parts = trim_all_tokens(&split_on_char(line.as_str(), '/'));

    let price = match &page.price_text {
        Some(p) => {
            if str_eq(p.as_str(), "N/A") {
                None
            } else {
                Price::from_string(p.clone())
            }
        },
        None => None,
    };
    let age = match lookup_labeled(&detail, "Age") {
        Some(t) => parse_u32_str(t.as_str()),
        None => None,
    };
    let vintage = match lookup_labeled(&detail, "Vintage") {
        Some(t) => WeakDate::try_from_year(t.as_str()),
        None => None,
    };
    let abv = if parts.len() >= 2 {
        let (nums, _) = split_nums_and_strs(parts[1].clone());
        if nums.len() == 0 {
            None
        } else {
            Decimal::parse(nums[0].as_str())
        }
    } else {
        None
    };
    let bottle_size = if parts.len() >= 1 {
        Some(parts[0].clone())
    } else {
        None
    };
    Ok(
        WhiskyAuctionWhisky {
            name,
            price,
            age,
            vintage,
            region: lookup_labeled(&detail, "Region"),
            bottler: lookup_labeled(&detail, "Bottler"),
            cask_type: lookup_labeled(&detail, "Cask Type"),
            abv,
            bottle_size,
        },
    )
}

} // verus!
