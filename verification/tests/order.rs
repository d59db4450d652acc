use article_migrator::article::Article;
use article_migrator::order::{date_le, insert_by_date, sort_by_date};

fn article(title: &str, date: &str) -> Article {
    Article { title: title.to_string(), date: date.to_string(), text: String::new(), images: Vec::new() }
}

fn titles(articles: &[Article]) -> Vec<&str> {
    articles.iter().map(|a| a.title.as_str()).collect()
}

#[test]
fn date_order_is_lexicographic() {
    assert!(date_le("2021-01-01 00:00:00", "2021-01-01 00:00:01"));
    assert!(!date_le("2021-01-01 00:00:01", "2021-01-01 00:00:00"));
    assert!(date_le("2021-01-01 00:00:00", "2021-01-01 00:00:00"));
    assert!(date_le("", ""));
    assert!(date_le("", "a"));
    assert!(!date_le("a", ""));
    assert!(date_le("ab", "abc"));
    assert!(!date_le("abc", "ab"));
    assert!(date_le("10", "9"));
}

#[test]
fn date_order_agrees_with_string_order() {
    let samples = ["", "a", "ab", "b", "ä", "z", "2021-12-31 23:59:59", "2021-02-01 00:00:00", "é", "\u{10000}", "\u{ffff}"];
    for a in samples {
        for b in samples {
            assert_eq!(date_le(a, b), a <= b, "{:?} <= {:?}", a, b);
        }
    }
}

#[test]
fn sort_orders_by_date() {
    let sorted = sort_by_date(vec![
        article("c", "2021-03-01 00:00:00"),
        article("a", "2021-01-01 00:00:00"),
        article("b", "2021-02-01 00:00:00"),
    ]);
    assert_eq!(titles(&sorted), vec!["a", "b", "c"]);
}

#[test]
fn sort_keeps_the_order_of_equal_dates() {
    let sorted = sort_by_date(vec![
        article("late", "2021-05-01 00:00:00"),
        article("first", "2021-01-01 00:00:00"),
        article("second", "2021-01-01 00:00:00"),
        article("early", "2020-12-31 00:00:00"),
        article("third", "2021-01-01 00:00:00"),
    ]);
    assert_eq!(titles(&sorted), vec!["early", "first", "second", "third", "late"]);
}

#[test]
fn sort_agrees_with_std_stable_sort() {
    let dates = ["5", "3", "5", "1", "3", "3", "9", "0", "5", "1"];
    let input: Vec<Article> =
        dates.iter().enumerate().map(|(i, d)| article(&i.to_string(), d)).collect();
    let mut expected = input.clone();
    expected.sort_by_key(|a| a.date.clone());
    assert_eq!(sort_by_date(input), expected);
}

#[test]
fn sort_of_nothing_and_of_one() {
    assert!(sort_by_date(Vec::new()).is_empty());
    assert_eq!(titles(&sort_by_date(vec![article("only", "x")])), vec!["only"]);
}

#[test]
fn insert_goes_behind_equal_dates() {
    let mut sorted = vec![article("a", "1"), article("b", "2"), article("c", "2"), article("d", "3")];
    assert_eq!(insert_by_date(&mut sorted, article("new", "2")), 3);
    assert_eq!(titles(&sorted), vec!["a", "b", "c", "new", "d"]);
    assert_eq!(insert_by_date(&mut sorted, article("first", "0")), 0);
    assert_eq!(insert_by_date(&mut sorted, article("last", "4")), 6);
    assert_eq!(titles(&sorted), vec!["first", "a", "b", "c", "new", "d", "last"]);
}

#[test]
fn insert_into_an_unsorted_list_looks_at_its_end() {
    let mut list = vec![article("z", "9"), article("a", "1"), article("y", "8")];
    assert_eq!(insert_by_date(&mut list, article("new", "5")), 2);
    assert_eq!(titles(&list), vec!["z", "a", "new", "y"]);
}
