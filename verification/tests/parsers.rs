use whisky_crawler::data::{Currency, Decimal, Price, WeakDate};
use whisky_crawler::util::{select_one_text_by_column, split_nums_and_strs};
use whisky_crawler::whiskybase::{parse_abv, parse_date};

fn decimal_f64(d: &Decimal) -> f64 {
    d.mantissa as f64 / 10f64.powi(d.scale as i32)
}

#[test]
fn test_parse_price() {
    let p = Price::from_string("£21,500".to_string()).unwrap();
    assert_eq!(p, Price::new(Decimal::new(21500, 0), Currency::GBP));
    assert_eq!(decimal_f64(&p.value), 21500f64);

    let p = Price::from_string("$98.99".to_string()).unwrap();
    assert_eq!(p, Price::new(Decimal::new(9899, 2), Currency::USD));
    assert_eq!(decimal_f64(&p.value), 98.99f64);

    let p = Price::from_string("1,280,000₩".to_string()).unwrap();
    assert_eq!(p, Price::new(Decimal::new(1280000, 0), Currency::KRW));
    assert_eq!(decimal_f64(&p.value), 1_280_000f64);
}

#[test]
fn test_price_needs_both_halves() {
    assert_eq!(Price::from_string("21,500".to_string()), None);
    assert_eq!(Price::from_string("no numbers here £".to_string()), None);
    assert_eq!(Price::from_string("".to_string()), None);
}

#[test]
fn test_split_nums_and_strs() {
    assert_eq!(
        split_nums_and_strs("£21,500".to_string()),
        (vec!["21,500".to_string()], vec!["£".to_string()])
    );

    assert_eq!(
        split_nums_and_strs("30 YEAR OLD".to_string()),
        (vec!["30".to_string()], vec!["YEAR OLD".to_string()])
    );

    assert_eq!(
        split_nums_and_strs("66.3 PROOF".to_string()),
        (vec!["66.3".to_string()], vec!["PROOF".to_string()])
    );

    assert_eq!(
        split_nums_and_strs("A 3.41 BC kkk lkjf $€CC 11,34.1029 OK".to_string()),
        (
            vec!["3.41".to_string(), "11,34.1029".to_string()],
            vec![
                "A".to_string(),
                "BC kkk lkjf $€CC".to_string(),
                "OK".to_string()
            ]
        )
    );
}

#[test]
fn test_parse_date() {
    assert_eq!(
        parse_date("06.04.1987".to_string()),
        Some(WeakDate {
            year: 1987,
            month: Some(4),
            day: Some(6)
        })
    );

    assert_eq!(
        parse_date("09.2011".to_string()),
        Some(WeakDate {
            year: 2011,
            month: Some(9),
            day: None
        })
    );

    assert_eq!(
        parse_date("1946".to_string()),
        Some(WeakDate {
            year: 1946,
            month: None,
            day: None
        })
    );
}

#[test]
fn whiskybase_test_parse_date() {
    assert_eq!(
        parse_date("06.04.1987".to_string()),
        Some(WeakDate {
            year: 1987,
            month: Some(4),
            day: Some(6)
        })
    );

    assert_eq!(
        parse_date("09.2011".to_string()),
        Some(WeakDate {
            year: 2011,
            month: Some(9),
            day: None
        })
    );

    assert_eq!(
        parse_date("1946".to_string()),
        Some(WeakDate {
            year: 1946,
            month: None,
            day: None
        })
    );
}

#[test]
fn test_parse_date_bad_year_fails_whole() {
    assert_eq!(parse_date("06.04.198x".to_string()), None);
    assert_eq!(parse_date("ab.cd".to_string()), None);
    assert_eq!(parse_date("".to_string()), None);
    assert_eq!(parse_date("1.2.3.1987".to_string()), None);
}

#[test]
fn test_parse_date_bad_month_degrades() {
    assert_eq!(
        parse_date("xx.2011".to_string()),
        Some(WeakDate {
            year: 2011,
            month: None,
            day: None
        })
    );
    assert_eq!(
        parse_date("31.xx.1987".to_string()),
        Some(WeakDate {
            year: 1987,
            month: None,
            day: Some(31)
        })
    );
}

#[test]
fn test_parse_abv() {
    let d = parse_abv("52.0 % Vol.".to_string());
    assert_eq!(d, Some(Decimal::new(520, 1)));
    assert_eq!(d.map(|x| decimal_f64(&x) as f32), Some(52.0f32));
}

#[test]
fn whiskybase_test_parse_abv() {
    let d = parse_abv("52.0 % Vol.".to_string());
    assert_eq!(d, Some(Decimal::new(520, 1)));
    assert_eq!(d.map(|x| decimal_f64(&x) as f32), Some(52.0f32));
}

#[test]
fn test_parse_abv_no_number() {
    assert_eq!(parse_abv("PROOF".to_string()), None);
}

#[test]
fn test_currency_symbols() {
    assert_eq!(Currency::from_symbol(&'£'), Some(Currency::GBP));
    assert_eq!(Currency::from_symbol(&'₩'), Some(Currency::KRW));
    assert_eq!(Currency::from_symbol(&'$'), Some(Currency::USD));
    assert_eq!(Currency::from_symbol(&'€'), Some(Currency::EUR));
    assert_eq!(Currency::from_symbol(&'¥'), Some(Currency::JPY));
    assert_eq!(Currency::from_symbol(&'x'), None);
}

#[test]
fn test_column_lookup_first_match() {
    let toks = vec!["Distillery", "Glen Foo", "Distillery", "Glen Bar"];
    assert_eq!(
        select_one_text_by_column(&toks, "Distillery"),
        Some("Glen Foo".to_string())
    );
}

#[test]
fn test_column_lookup_absent_label() {
    let toks = vec!["Region", "Islay"];
    assert_eq!(select_one_text_by_column(&toks, "Distillery"), None);
}

#[test]
fn test_column_lookup_label_last() {
    let toks = vec!["Region", "Islay", "Distillery"];
    assert_eq!(select_one_text_by_column(&toks, "Distillery"), None);
}

#[test]
fn test_weakdate_canonical_roundtrip() {
    let d = WeakDate::new(1987, Some(4), Some(6));
    assert_eq!(d.canonical_string(), "6.4.1987".to_string());
    assert_eq!(parse_date(d.canonical_string()), Some(d));

    let d = WeakDate::new(2011, Some(9), None);
    assert_eq!(d.canonical_string(), "9.2011".to_string());
    assert_eq!(parse_date(d.canonical_string()), Some(d));

    let d = WeakDate::new(1946, None, None);
    assert_eq!(d.canonical_string(), "1946".to_string());
    assert_eq!(parse_date(d.canonical_string()), Some(d));
}

#[test]
fn test_decimal_canonical_roundtrip() {
    let d = Decimal::new(9899, 2);
    assert_eq!(d.canonical_string(), "98.99".to_string());
    assert_eq!(Decimal::parse(&d.canonical_string()), Some(d));

    let d = Decimal::new(21500, 0);
    assert_eq!(d.canonical_string(), "21500".to_string());
    assert_eq!(Decimal::parse(&d.canonical_string()), Some(d));

    let d = Decimal::new(5, 3);
    assert_eq!(d.canonical_string(), "0.005".to_string());
    assert_eq!(Decimal::parse(&d.canonical_string()), Some(d));

    let d = Decimal::new(0, 2);
    assert_eq!(d.canonical_string(), "0.00".to_string());
    assert_eq!(Decimal::parse(&d.canonical_string()), Some(d));
}

#[test]
fn test_from_year() {
    assert_eq!(
        WeakDate::from_year("1946".to_string()),
        WeakDate::new(1946, None, None)
    );
    assert_eq!(
        WeakDate::try_from_year("not a year"),
        None
    );
}
