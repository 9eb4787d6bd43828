use whisky_crawler::data::{Currency, Decimal, PageSkip, Price, WeakDate};
use whisky_crawler::whiskyauction::{
    extract_whiskyauction_whisky, whiskyauction_sitemap_visits, WhiskyAuctionPage,
    WhiskyAuctionState,
};
use whisky_crawler::whiskyauctioneer::{
    extract_whiskyauctioneer_whisky, whiskyauctioneer_sitemap_visits, WhiskyAuctioneerPage,
    WhiskyAuctioneerState,
};
use whisky_crawler::whiskybase::{
    extract_whiskybase_whisky, whiskybase_sitemap_visits, WhiskybasePage, WhiskybaseState,
};

fn strings(v: &[&str]) -> Vec<String> {
    v.iter().map(|s| s.to_string()).collect()
}

#[test]
fn test_root_sitemap_fanout_whiskybase() {
    let locs = strings(&[
        "https://example.com/sitemaps/whiskies-1.xml",
        "https://example.com/sitemaps/shops-1.xml",
        "https://example.com/sitemaps/whiskies-2.xml",
    ]);
    let visits = whiskybase_sitemap_visits(&WhiskybaseState::RootSitemap, &locs);
    assert_eq!(visits.len(), 2);
    for (url, state) in &visits {
        assert!(url.contains("whiskies"));
        assert_eq!(*state, WhiskybaseState::SubSitemap);
    }
    assert_eq!(visits[0].0, locs[0]);
    assert_eq!(visits[1].0, locs[2]);
}

#[test]
fn test_sub_sitemap_fanout_whiskybase() {
    let locs = strings(&["https://example.com/whisky/1", "https://example.com/whisky/2"]);
    let visits = whiskybase_sitemap_visits(&WhiskybaseState::SubSitemap, &locs);
    assert_eq!(visits.len(), 2);
    for (_, state) in &visits {
        assert_eq!(*state, WhiskybaseState::WhiskyPage);
    }
}

#[test]
fn test_page_state_enqueues_nothing() {
    let locs = strings(&["https://example.com/whisky/1"]);
    assert_eq!(
        whiskybase_sitemap_visits(&WhiskybaseState::WhiskyPage, &locs).len(),
        0
    );
    assert_eq!(
        whiskyauction_sitemap_visits(&WhiskyAuctionState::WhiskyPage, &locs).len(),
        0
    );
    assert_eq!(
        whiskyauctioneer_sitemap_visits(&WhiskyAuctioneerState::WhiskyPage, &locs).len(),
        0
    );
}

#[test]
fn test_root_sitemap_fanout_whiskyauction() {
    let locs = strings(&[
        "https://whisky.auction/sitemap.xml?auctionId=7",
        "https://whisky.auction/other.xml",
    ]);
    let visits = whiskyauction_sitemap_visits(&WhiskyAuctionState::RootSitemap, &locs);
    assert_eq!(visits.len(), 1);
    assert_eq!(visits[0].0, locs[0]);
    assert_eq!(visits[0].1, WhiskyAuctionState::SubSitemap);
}

#[test]
fn test_sub_sitemap_filter_whiskyauctioneer() {
    let locs = strings(&[
        "https://whiskyauctioneer.com/lot/123",
        "https://whiskyauctioneer.com/about",
    ]);
    let visits = whiskyauctioneer_sitemap_visits(&WhiskyAuctioneerState::SubSitemap, &locs);
    assert_eq!(visits.len(), 1);
    assert_eq!(visits[0].0, locs[0]);
    assert_eq!(visits[0].1, WhiskyAuctioneerState::WhiskyPage);
}

#[test]
fn test_extract_whiskybase_full_page() {
    let page = WhiskybasePage {
        title: Some("  Glen Foo\n   30  Year ".to_string()),
        detail: Some(strings(&[
            "Distillery",
            "Glen Foo",
            "Bottler",
            "Foo Bottling",
            "Strength",
            "52.0 % Vol.",
            "Vintage",
            "06.04.1987",
            "Bottled",
            "09.2011",
            "Whiskybase ID",
            "WB1234",
        ])),
        score: Some("88.5".to_string()),
    };
    let w = extract_whiskybase_whisky(&page).unwrap();
    assert_eq!(w.name, "Glen Foo 30 Year".to_string());
    assert_eq!(w.distillery, Some("Glen Foo".to_string()));
    assert_eq!(w.bottler, Some("Foo Bottling".to_string()));
    assert_eq!(w.abv, Some(Decimal::new(520, 1)));
    assert_eq!(w.vintage, Some(WeakDate::new(1987, Some(4), Some(6))));
    assert_eq!(w.bottled, Some(WeakDate::new(2011, Some(9), None)));
    assert_eq!(w.whiskybase_id, "WB1234".to_string());
    assert_eq!(w.whiskybase_score, "88.5".to_string());
}

#[test]
fn test_extract_whiskybase_missing_mandatory() {
    let detail = strings(&["Whiskybase ID", "WB1"]);
    let page = WhiskybasePage {
        title: None,
        detail: Some(detail.clone()),
        score: Some("80".to_string()),
    };
    assert_eq!(extract_whiskybase_whisky(&page), Err(PageSkip::MissingName));

    let page = WhiskybasePage {
        title: Some("X".to_string()),
        detail: None,
        score: Some("80".to_string()),
    };
    assert_eq!(extract_whiskybase_whisky(&page), Err(PageSkip::MissingDetail));

    let page = WhiskybasePage {
        title: Some("X".to_string()),
        detail: Some(strings(&["Distillery", "Y"])),
        score: Some("80".to_string()),
    };
    assert_eq!(extract_whiskybase_whisky(&page), Err(PageSkip::MissingId));

    let page = WhiskybasePage {
        title: Some("X".to_string()),
        detail: Some(detail),
        score: None,
    };
    assert_eq!(extract_whiskybase_whisky(&page), Err(PageSkip::MissingScore));
}

#[test]
fn test_extract_whiskyauction_full_page() {
    let page = WhiskyAuctionPage {
        name: Some("Glen Foo 30".to_string()),
        price_text: Some("£21,500".to_string()),
        detail: Some(strings(&[
            " Age ", "30", "Vintage", "1987", "Region", "Islay", "Bottler", "Foo", "Cask Type",
            "Sherry", "",
        ])),
        size_and_abv: Some("70cl / 52.0 % Vol.".to_string()),
    };
    let w = extract_whiskyauction_whisky(&page).unwrap();
    assert_eq!(w.name, "Glen Foo 30".to_string());
    assert_eq!(
        w.price,
        Some(Price::new(Decimal::new(21500, 0), Currency::GBP))
    );
    assert_eq!(w.age, Some(30));
    assert_eq!(w.vintage, Some(WeakDate::new(1987, None, None)));
    assert_eq!(w.region, Some("Islay".to_string()));
    assert_eq!(w.bottler, Some("Foo".to_string()));
    assert_eq!(w.cask_type, Some("Sherry".to_string()));
    assert_eq!(w.abv, Some(Decimal::new(520, 1)));
    assert_eq!(w.bottle_size, Some("70cl".to_string()));
}

#[test]
fn test_extract_whiskyauction_na_price_and_skips() {
    let page = WhiskyAuctionPage {
        name: Some("Glen Foo".to_string()),
        price_text: Some("N/A".to_string()),
        detail: Some(vec![]),
        size_and_abv: Some("70cl".to_string()),
    };
    let w = extract_whiskyauction_whisky(&page).unwrap();
    assert_eq!(w.price, None);
    assert_eq!(w.abv, None);
    assert_eq!(w.bottle_size, Some("70cl".to_string()));

    let page = WhiskyAuctionPage {
        name: None,
        price_text: None,
        detail: Some(vec![]),
        size_and_abv: Some("70cl".to_string()),
    };
    assert_eq!(
        extract_whiskyauction_whisky(&page),
        Err(PageSkip::MissingName)
    );

    let page = WhiskyAuctionPage {
        name: Some("X".to_string()),
        price_text: None,
        detail: None,
        size_and_abv: Some("70cl".to_string()),
    };
    assert_eq!(
        extract_whiskyauction_whisky(&page),
        Err(PageSkip::MissingDetail)
    );

    let page = WhiskyAuctionPage {
        name: Some("X".to_string()),
        price_text: None,
        detail: Some(vec![]),
        size_and_abv: None,
    };
    assert_eq!(
        extract_whiskyauction_whisky(&page),
        Err(PageSkip::MissingSizeAbv)
    );
}

#[test]
fn test_extract_whiskyauctioneer_full_page() {
    let page = WhiskyAuctioneerPage {
        name: Some("Glen Bar 12".to_string()),
        price_text: Some("$98.99".to_string()),
        reservation_text: Some("RESERVE HAS BEEN MET".to_string()),
        detail: Some(strings(&[
            "Distillery:",
            " Glen Bar ",
            "Age:",
            "12 Years",
            "Vintage:",
            "2001",
            "Region:",
            "N/A",
            "Bottler:",
            "Bar Ltd",
            "Cask Type:",
            "Bourbon",
            "Bottled Strength:",
            "43.0 %",
            "Bottle Size::",
            "70cl",
        ])),
    };
    let w = extract_whiskyauctioneer_whisky(&page).unwrap();
    assert_eq!(w.name, "Glen Bar 12".to_string());
    assert_eq!(w.price, Price::new(Decimal::new(9899, 2), Currency::USD));
    assert_eq!(w.reservation, Some(true));
    assert_eq!(w.distilery, Some("Glen Bar".to_string()));
    assert_eq!(w.age, Some(12));
    assert_eq!(w.vintage, Some(WeakDate::new(2001, None, None)));
    assert_eq!(w.region, None);
    assert_eq!(w.bottler, Some("Bar Ltd".to_string()));
    assert_eq!(w.cask_type, Some("Bourbon".to_string()));
    assert_eq!(w.abv, Some(Decimal::new(430, 1)));
    assert_eq!(w.bottle_size, Some("70cl".to_string()));
}

#[test]
fn test_extract_whiskyauctioneer_skips() {
    let page = WhiskyAuctioneerPage {
        name: Some("X".to_string()),
        price_text: Some("$1".to_string()),
        reservation_text: None,
        detail: None,
    };
    assert_eq!(
        extract_whiskyauctioneer_whisky(&page),
        Err(PageSkip::MissingDetail)
    );

    let page = WhiskyAuctioneerPage {
        name: None,
        price_text: Some("$1".to_string()),
        reservation_text: None,
        detail: Some(vec![]),
    };
    assert_eq!(
        extract_whiskyauctioneer_whisky(&page),
        Err(PageSkip::MissingName)
    );

    let page = WhiskyAuctioneerPage {
        name: Some("X".to_string()),
        price_text: Some("no price here".to_string()),
        reservation_text: None,
        detail: Some(vec![]),
    };
    assert_eq!(
        extract_whiskyauctioneer_whisky(&page),
        Err(PageSkip::MissingPrice)
    );
}

#[test]
fn test_extract_whiskyauctioneer_abv_needs_percent() {
    let page = WhiskyAuctioneerPage {
        name: Some("X".to_string()),
        price_text: Some("$1".to_string()),
        reservation_text: Some("reserve not met".to_string()),
        detail: Some(strings(&["Bottled Strength:", "86 PROOF"])),
    };
    let w = extract_whiskyauctioneer_whisky(&page).unwrap();
    assert_eq!(w.abv, None);
    assert_eq!(w.reservation, Some(false));
}
