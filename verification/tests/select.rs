use article_migrator::article::YearArticles;
use article_migrator::error::{Field, MigrationError, RecordError};
use article_migrator::record::RawRecord;
use article_migrator::select::{classify, decide, get_articles, parse_u32, Verdict, DATE_TIME_FORMAT};

fn record(created: Option<&str>, catid: Option<&str>, title: &str, introtext: &str) -> RawRecord {
    RawRecord {
        created: created.map(|s| s.to_string()),
        catid: catid.map(|s| s.to_string()),
        title: Some(title.to_string()),
        introtext: Some(introtext.to_string()),
    }
}

fn titles(bundle: &YearArticles) -> Vec<&str> {
    bundle.articles.iter().map(|a| a.title.as_str()).collect()
}

#[test]
fn category_is_a_plain_decimal_number() {
    assert_eq!(parse_u32("5"), Some(5));
    assert_eq!(parse_u32("0"), Some(0));
    assert_eq!(parse_u32("007"), Some(7));
    assert_eq!(parse_u32("+5"), Some(5));
    assert_eq!(parse_u32("4294967295"), Some(4294967295));
    assert_eq!(parse_u32("0000000000004294967295"), Some(4294967295));
}

#[test]
fn category_rejects_everything_else() {
    for text in ["", "+", "-5", "-0", " 5", "5 ", "5a", "a5", "1_000", "4294967296",
        "99999999999999999999999999", "++5", "5+", "٣", "0x10", "1.0"]
    {
        assert_eq!(parse_u32(text), None, "{:?}", text);
    }
}

#[test]
fn category_agrees_with_std() {
    for text in ["", "+", "+0", "-1", "12", "012", "4294967295", "4294967296", "42949672950",
        "18446744073709551616", " 1", "1\n", "１", "+-1", "00", "+00012"]
    {
        assert_eq!(parse_u32(text), text.parse::<u32>().ok(), "{:?}", text);
    }
}

#[test]
fn decision_follows_what_was_read() {
    assert_eq!(decide(Some(2021), Some(5), 2021, 5), Verdict::Included);
    assert_eq!(decide(Some(2020), Some(5), 2021, 5), Verdict::Excluded);
    assert_eq!(decide(Some(2021), Some(6), 2021, 5), Verdict::Excluded);
    assert_eq!(
        decide(None, Some(5), 2021, 5),
        Verdict::Fatal(MigrationError::MalformedField(Field::Created))
    );
    assert_eq!(
        decide(Some(2021), None, 2021, 5),
        Verdict::Fatal(MigrationError::MalformedField(Field::Catid))
    );
    assert_eq!(
        decide(None, None, 2021, 5),
        Verdict::Fatal(MigrationError::MalformedField(Field::Created))
    );
    // A malformed category is fatal whatever the year is.
    assert_eq!(
        decide(Some(1999), None, 2021, 5),
        Verdict::Fatal(MigrationError::MalformedField(Field::Catid))
    );
}

#[test]
fn negative_year_matches_no_year() {
    assert_eq!(decide(Some(-1), Some(5), u32::MAX, 5), Verdict::Excluded);
    assert_eq!(decide(Some(i32::MIN), Some(5), 2147483648, 5), Verdict::Excluded);
    assert_eq!(decide(Some(0), Some(5), 0, 5), Verdict::Included);
}

#[test]
fn classify_reads_the_timestamp() {
    let r = record(Some("2021-02-03 04:05:06"), Some("5"), "t", "x");
    assert_eq!(classify(&r, 2021, 5), Verdict::Included);
    assert_eq!(classify(&r, 2020, 5), Verdict::Excluded);
    assert_eq!(classify(&r, 2021, 4), Verdict::Excluded);
    let other_year = record(Some("1999-12-31 23:59:59"), Some("5"), "t", "x");
    assert_eq!(classify(&other_year, 1999, 5), Verdict::Included);
    assert_eq!(classify(&other_year, 2021, 5), Verdict::Excluded);
}

#[test]
fn classify_leaves_out_records_without_the_fields() {
    assert_eq!(classify(&record(None, Some("5"), "t", "x"), 2021, 5), Verdict::Excluded);
    assert_eq!(classify(&record(Some("2021-02-03 04:05:06"), None, "t", "x"), 2021, 5), Verdict::Excluded);
    assert_eq!(classify(&record(None, None, "t", "x"), 2021, 5), Verdict::Excluded);
    // An absent field hides a malformed one.
    assert_eq!(classify(&record(Some("not-a-date"), None, "t", "x"), 2021, 5), Verdict::Excluded);
    assert_eq!(classify(&record(None, Some("five"), "t", "x"), 2021, 5), Verdict::Excluded);
}

#[test]
fn classify_stops_on_malformed_fields() {
    let created = Verdict::Fatal(MigrationError::MalformedField(Field::Created));
    let catid = Verdict::Fatal(MigrationError::MalformedField(Field::Catid));
    assert_eq!(classify(&record(Some("not-a-date"), Some("5"), "t", "x"), 2021, 5), created);
    assert_eq!(classify(&record(Some("2021-02-30 00:00:00"), Some("5"), "t", "x"), 2021, 5), created);
    assert_eq!(classify(&record(Some("2021-02-03"), Some("5"), "t", "x"), 2021, 5), created);
    assert_eq!(classify(&record(Some("2021-02-03 25:00:00"), Some("5"), "t", "x"), 2021, 5), created);
    assert_eq!(classify(&record(Some(""), Some("5"), "t", "x"), 2021, 5), created);
    assert_eq!(classify(&record(Some("2021-02-03 04:05:06"), Some("five"), "t", "x"), 2021, 5), catid);
    assert_eq!(classify(&record(Some("2000-02-03 04:05:06"), Some(""), "t", "x"), 2021, 5), catid);
    assert_eq!(classify(&record(Some("x"), Some("y"), "t", "x"), 2021, 5), created);
}

#[test]
fn the_format_is_the_fixed_timestamp() {
    assert_eq!(DATE_TIME_FORMAT, "%Y-%m-%d %H:%M:%S");
}

#[test]
fn selects_year_and_category_only() {
    let records = vec![
        record(Some("2021-03-01 10:00:00"), Some("5"), "march", "<p>m</p>"),
        record(Some("2020-03-01 10:00:00"), Some("5"), "last year", "x"),
        record(Some("2021-01-01 10:00:00"), Some("7"), "other category", "x"),
        record(None, Some("5"), "no date", "x"),
        record(Some("2021-01-15 10:00:00"), None, "no category", "x"),
        record(Some("2021-01-01 10:00:00"), Some("5"), "january", "<p>j</p>"),
    ];
    let bundle = get_articles(&records, 2021, 5).unwrap();
    assert_eq!(bundle.year, 2021);
    assert_eq!(titles(&bundle), vec!["january", "march"]);
    assert_eq!(bundle.articles[0].date, "2021-01-01 10:00:00");
    assert_eq!(bundle.articles[0].text, "j");
    assert_eq!(bundle.articles[1].text, "m");

    let bundle = get_articles(&records, 2020, 5).unwrap();
    assert_eq!(titles(&bundle), vec!["last year"]);
    let bundle = get_articles(&records, 2021, 7).unwrap();
    assert_eq!(titles(&bundle), vec!["other category"]);
    let bundle = get_articles(&records, 2019, 5).unwrap();
    assert!(bundle.articles.is_empty());
    assert_eq!(bundle.year, 2019);
}

#[test]
fn result_is_sorted_by_date_and_stable() {
    let records = vec![
        record(Some("2021-12-24 18:00:00"), Some("5"), "d", "x"),
        record(Some("2021-06-01 08:00:00"), Some("5"), "b1", "x"),
        record(Some("2021-01-01 00:00:00"), Some("5"), "a", "x"),
        record(Some("2021-06-01 08:00:00"), Some("5"), "b2", "x"),
        record(Some("2021-06-01 08:00:01"), Some("5"), "c", "x"),
        record(Some("2021-06-01 08:00:00"), Some("5"), "b3", "x"),
    ];
    let bundle = get_articles(&records, 2021, 5).unwrap();
    assert_eq!(titles(&bundle), vec!["a", "b1", "b2", "b3", "c", "d"]);
    for pair in bundle.articles.windows(2) {
        assert!(pair[0].date <= pair[1].date);
    }
}

#[test]
fn selecting_twice_gives_the_same_bundle() {
    let records = vec![
        record(Some("2021-02-01 00:00:00"), Some("5"), "b", "x"),
        record(Some("2021-01-01 00:00:00"), Some("5"), "a", "x"),
    ];
    assert_eq!(get_articles(&records, 2021, 5), get_articles(&records, 2021, 5));
}

#[test]
fn malformed_created_stops_the_run() {
    let records = vec![
        record(Some("2021-02-01 00:00:00"), Some("5"), "fine", "x"),
        record(Some("not-a-date"), Some("5"), "broken", "x"),
    ];
    assert_eq!(
        get_articles(&records, 2021, 5),
        Err(RecordError { record: 1, error: MigrationError::MalformedField(Field::Created) })
    );
    // It stops the run for every year, not only for the year asked for.
    assert_eq!(
        get_articles(&records, 1990, 5),
        Err(RecordError { record: 1, error: MigrationError::MalformedField(Field::Created) })
    );
}

#[test]
fn malformed_category_stops_the_run() {
    let records = vec![record(Some("2021-02-01 00:00:00"), Some("x5"), "broken", "x")];
    assert_eq!(
        get_articles(&records, 2021, 5),
        Err(RecordError { record: 0, error: MigrationError::MalformedField(Field::Catid) })
    );
}

#[test]
fn first_fatal_record_is_reported() {
    let records = vec![
        record(None, None, "left out", "x"),
        record(Some("2021-02-01 00:00:00"), Some("nope"), "first", "x"),
        record(Some("never"), Some("5"), "second", "x"),
    ];
    assert_eq!(
        get_articles(&records, 2021, 5),
        Err(RecordError { record: 1, error: MigrationError::MalformedField(Field::Catid) })
    );
}

#[test]
fn selected_record_without_text_or_title_stops_the_run() {
    let mut no_text = record(Some("2021-02-01 00:00:00"), Some("5"), "t", "x");
    no_text.introtext = None;
    let mut no_title = record(Some("2021-02-01 00:00:00"), Some("5"), "t", "x");
    no_title.title = None;
    assert_eq!(
        get_articles(&vec![no_text.clone()], 2021, 5),
        Err(RecordError { record: 0, error: MigrationError::MissingField(Field::Introtext) })
    );
    assert_eq!(
        get_articles(&vec![no_title.clone()], 2021, 5),
        Err(RecordError { record: 0, error: MigrationError::MissingField(Field::Title) })
    );
    // A record that is not selected may lack them.
    let bundle = get_articles(&vec![no_text, no_title], 2020, 5).unwrap();
    assert!(bundle.articles.is_empty());
}

#[test]
fn no_records_give_an_empty_bundle() {
    let bundle = get_articles(&Vec::new(), 2021, 5).unwrap();
    assert_eq!(bundle, YearArticles { year: 2021, articles: Vec::new() });
}
