use article_migrator::error::{Field, MigrationError};
use article_migrator::normalize::{
    collect_present, get_article, normalize, normalize_line_breaks, remove_char, tidy,
};
use article_migrator::record::RawRecord;

fn text_of(introtext: &str) -> String {
    normalize(introtext, "t", "2021-01-01 00:00:00").unwrap().text
}

fn images_of(introtext: &str) -> Vec<String> {
    normalize(introtext, "t", "2021-01-01 00:00:00").unwrap().images
}

#[test]
fn strips_single_level_tags() {
    assert_eq!(text_of("<p>Hi</p>"), "Hi");
    assert_eq!(text_of("a<br/>b<span class=\"x\">c</span>"), "abc");
}

#[test]
fn leaves_empty_and_nested_brackets() {
    assert_eq!(text_of("a<>b"), "a<>b");
    assert_eq!(text_of("<<b>>"), "<>");
    assert_eq!(text_of("1 < 2 > 0"), "1  0");
    assert_eq!(text_of("x < y"), "x < y");
}

#[test]
fn removes_non_breaking_spaces() {
    assert_eq!(text_of("a\u{a0}b\u{a0}\u{a0}c"), "abc");
    assert_eq!(remove_char("a\u{a0}b\u{a0}", '\u{a0}'), "ab");
    assert_eq!(remove_char("", 'x'), "");
    assert_eq!(remove_char("xxx", 'x'), "");
}

#[test]
fn crlf_becomes_lf() {
    assert_eq!(text_of("a\r\nb\r\nc"), "a\nb\nc");
    assert_eq!(normalize_line_breaks("a\r\nb"), "a\nb");
    assert_eq!(normalize_line_breaks("a\rb\n"), "a\rb\n");
    assert_eq!(normalize_line_breaks("\r\r\n"), "\r\n");
    assert_eq!(normalize_line_breaks("\r\n\r\n"), "\n\n");
    assert_eq!(normalize_line_breaks("\r"), "\r");
    assert_eq!(normalize_line_breaks(""), "");
}

#[test]
fn tidy_deletes_before_it_joins() {
    // The carriage return meets the line feed only once the space between
    // them is gone.
    assert_eq!(tidy("a\r\u{a0}\nb"), "a\nb");
}

#[test]
fn sentences_end_their_lines() {
    assert_eq!(text_of("Hello world. 3.14 is pi."), "Hello world.\n3.14 is pi.");
    let normalized = text_of("Hello world. 3.14 is pi.");
    let lines: Vec<&str> = normalized.lines().collect();
    assert_eq!(lines, vec!["Hello world.", "3.14 is pi."]);
}

#[test]
fn period_after_digit_is_no_sentence_end() {
    assert_eq!(text_of("It was 5. Later"), "It was 5. Later");
    assert_eq!(text_of("pi is 3.14 today"), "pi is 3.14 today");
}

#[test]
fn period_needs_a_character_before_it() {
    assert_eq!(text_of(". a"), ". a");
}

#[test]
fn sentence_ends_do_not_overlap() {
    assert_eq!(text_of("a. . b"), "a.\n. b");
    assert_eq!(text_of("a.\tb.\nc"), "a.\nb.\nc");
}

#[test]
fn leading_line_breaks_are_dropped() {
    assert_eq!(text_of("\n\n\nabc\n"), "abc\n");
    assert_eq!(text_of("<p>\r\n</p>\r\nabc"), "abc");
    assert_eq!(text_of(" \nabc"), " \nabc");
}

#[test]
fn rules_apply_in_order() {
    // The tag goes first, so the period meets the space.
    assert_eq!(text_of("End.<br> Next"), "End.\nNext");
    // The non-breaking space goes before sentences are looked for.
    assert_eq!(text_of("End.\u{a0}Next"), "End.Next");
}

#[test]
fn images_keep_their_order_and_repeats() {
    let markup = "<p><img src=\"images/b.jpg\"/>x<img alt=\"\" src=\"images/a.png\">y\
                  <img src=\"images/b.jpg\"></p>";
    assert_eq!(images_of(markup), vec!["images/b.jpg", "images/a.png", "images/b.jpg"]);
}

#[test]
fn images_are_read_before_tags_are_stripped() {
    let article = normalize("<img src=\"a.jpg\">Text", "T", "D").unwrap();
    assert_eq!(article.text, "Text");
    assert_eq!(article.images, vec!["a.jpg"]);
}

#[test]
fn no_images_in_plain_text() {
    assert!(images_of("no markup at all").is_empty());
    assert!(images_of("src=\"\"").is_empty());
}

#[test]
fn title_and_date_are_taken_over() {
    let article = normalize("x", "A <b>title</b>", "2020-05-06 07:08:09").unwrap();
    assert_eq!(article.title, "A <b>title</b>");
    assert_eq!(article.date, "2020-05-06 07:08:09");
}

#[test]
fn collect_present_wants_every_group() {
    let all = vec![Some("a".to_string()), Some("b".to_string())];
    assert_eq!(collect_present(&all), Some(vec!["a".to_string(), "b".to_string()]));
    let one_missing = vec![Some("a".to_string()), None];
    assert_eq!(collect_present(&one_missing), None);
    assert_eq!(collect_present(&Vec::new()), Some(Vec::new()));
}

fn record(
    created: Option<&str>,
    catid: Option<&str>,
    title: Option<&str>,
    introtext: Option<&str>,
) -> RawRecord {
    RawRecord {
        created: created.map(|s| s.to_string()),
        catid: catid.map(|s| s.to_string()),
        title: title.map(|s| s.to_string()),
        introtext: introtext.map(|s| s.to_string()),
    }
}

#[test]
fn get_article_builds_the_article() {
    let article =
        get_article(&record(Some("2021-02-03 04:05:06"), Some("5"), Some("T"), Some("<p>Hi</p>")))
            .unwrap();
    assert_eq!(article.title, "T");
    assert_eq!(article.date, "2021-02-03 04:05:06");
    assert_eq!(article.text, "Hi");
    assert!(article.images.is_empty());
}

#[test]
fn get_article_reports_missing_fields() {
    assert_eq!(
        get_article(&record(Some("d"), Some("5"), Some("T"), None)),
        Err(MigrationError::MissingField(Field::Introtext))
    );
    assert_eq!(
        get_article(&record(Some("d"), Some("5"), None, Some("x"))),
        Err(MigrationError::MissingField(Field::Title))
    );
    assert_eq!(
        get_article(&record(None, Some("5"), Some("T"), Some("x"))),
        Err(MigrationError::MissingField(Field::Created))
    );
    assert_eq!(
        get_article(&record(None, None, None, None)),
        Err(MigrationError::MissingField(Field::Introtext))
    );
    assert_eq!(
        get_article(&record(None, None, None, Some("x"))),
        Err(MigrationError::MissingField(Field::Title))
    );
}
