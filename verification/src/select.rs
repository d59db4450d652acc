//! Selects the records of one year and one category, and makes the year's
//! bundle of them.
//!
//! The `created` field is read by the `chrono` crate. What it makes of a
//! text is not spelled out here: the contracts name it ([`parsed_year`]).

use vstd::prelude::*;
use chrono::{Datelike, NaiveDateTime};
use crate::article::{articles_view, Article, ArticleView, YearArticles};
use crate::error::{Field, MigrationError, RecordError};
use crate::normalize::{article_of, get_article};
use crate::order::{is_stable_sort, sort_by_date, sorted_by_date};
use crate::record::{records_view, RawRecord, RawRecordView};
use crate::text::{digits_value, is_digit, to_chars};

verus! {

/// The format of the `created` field, as `chrono` writes it.
pub const DATE_TIME_FORMAT: &'static str = "%Y-%m-%d %H:%M:%S";

/// The year of the date and time that
/// `chrono::NaiveDateTime::parse_from_str` reads from `text` under the format
/// `format`; `None` where it returns an error.
pub uninterp spec fn parsed_year(text: Seq<char>, format: Seq<char>) -> Option<i32>;

/// Calls `chrono::NaiveDateTime::parse_from_str` and takes the year of what
/// it returns, by `chrono::Datelike::year`. The result is the one that
/// [`parsed_year`] names: the same text and format always give the same
/// result. Nothing more is claimed of it.
#[verifier::external_body]
fn parse_year(text: &str, format: &str) -> (year: Option<i32>)
    ensures
        year == parsed_year(text@, format@),
{
    match NaiveDateTime::parse_from_str(text, format) {
        Ok(date_time) => Some(date_time.year()),
        Err(_) => None,
    }
}

/// Whether the string holds digits only.
pub open spec fn all_digits(text: Seq<char>) -> bool {
    forall|i: int| 0 <= i < text.len() ==> is_digit(#[trigger] text[i])
}

/// The text without the plus sign that may stand at its start.
pub open spec fn unsigned_part(text: Seq<char>) -> Seq<char> {
    if text.len() > 0 && text[0] == '+' {
        text.skip(1)
    } else {
        text
    }
}

/// The number that `text` writes: an optional plus sign, then one or more
/// digits, with a value that fits in 32 bits. Anything else (the empty
/// string, a lone sign, a minus sign, a blank, a value too large) is no
/// number.
pub open spec fn parsed_u32(text: Seq<char>) -> Option<u32> {
    let digits = unsigned_part(text);
    if digits.len() > 0 && all_digits(digits) && digits_value(digits) <= u32::MAX {
        Some(digits_value(digits) as u32)
    } else {
        None
    }
}

/// A string of digits is worth at least as much as any of its prefixes.
proof fn lemma_digits_value_prefix(digits: Seq<char>, len: int)
    requires
        0 <= len <= digits.len(),
    ensures
        digits_value(digits.take(len)) <= digits_value(digits),
    decreases digits.len(),
{
    if len == digits.len() {
        assert(digits.take(len) =~= digits);
    } else {
        lemma_digits_value_prefix(digits.drop_last(), len);
        assert(digits.drop_last().take(len) =~= digits.take(len));
    }
}

/// Reads a category id.
pub fn parse_u32(text: &str) -> (number: Option<u32>)
    ensures
        number == parsed_u32(text@),
{
    let chars = to_chars(text);
    let start: usize = if chars.len() > 0 && chars[0] == '+' {
        1
    } else {
        0
    };
    let ghost digits = unsigned_part(chars@);
    assert(digits =~= chars@.skip(start as int));
    if start == chars.len() {
        return None;
    }
    let mut value: u64 = 0;
    let mut i: usize = start;
    assert(digits.take(0) =~= Seq::<char>::empty());
    while i < chars.len()
        invariant
            start <= i <= chars.len(),
            start < chars.len(),
            chars@ == text@,
            digits == unsigned_part(text@),
            digits == chars@.skip(start as int),
            all_digits(digits.take(i - start)),
            value == digits_value(digits.take(i - start)),
            value <= u32::MAX,
        decreases chars.len() - i,
    {
        let code: u32 = chars[i] as u32;
        let ghost read = digits.take(i - start + 1);
        proof {
            assert(read.drop_last() =~= digits.take(i - start));
            assert(read.last() == chars[i as int]);
        }
        if code < 0x30 || code > 0x39 {
            assert(!is_digit(digits[i - start]));
            return None;
        }
        value = value * 10 + (code - 0x30) as u64;
        if value > u32::MAX as u64 {
            proof {
                lemma_digits_value_prefix(digits, i - start + 1);
            }
            return None;
        }
        assert forall|k: int| 0 <= k < read.len() implies is_digit(#[trigger] read[k]) by {
            if k < i - start {
                assert(read[k] == digits.take(i - start)[k]);
            }
        }
        i = i + 1;
    }
    assert(digits.take(i - start) =~= digits);
    Some(value as u32)
}

/// What the selector makes of one record.
#[derive(Debug, Clone, Copy, PartialEq, Eq)]
pub enum Verdict {
    /// The record is left out.
    Excluded,
    /// The record belongs to the year and the category.
    Included,
    /// The record ends the run.
    Fatal(MigrationError),
}

/// The verdict on a record whose `created` and `catid` are both there, given
/// what was read from them: a `created` that is no timestamp is fatal, then
/// a `catid` that is no number; else the record is included if and only if
/// the year is `year` and the category is `catid`.
pub open spec fn decision(created_year: Option<i32>, category: Option<u32>, year: u32, catid: u32)
    -> Verdict {
    match created_year {
        None => Verdict::Fatal(MigrationError::MalformedField(Field::Created)),
        Some(y) => match category {
            None => Verdict::Fatal(MigrationError::MalformedField(Field::Catid)),
            Some(c) => if y as int == year as int && c == catid {
                Verdict::Included
            } else {
                Verdict::Excluded
            },
        },
    }
}

/// Whether the record belongs to the year and the category: both fields are
/// there, `created` is a timestamp of the year `year`, and `catid` is the
/// number `catid`.
pub open spec fn matches_filter(record: RawRecordView, year: u32, catid: u32) -> bool {
    &&& record.created is Some
    &&& record.catid is Some
    &&& parsed_year(record.created.unwrap(), DATE_TIME_FORMAT@) matches Some(y) && y as int
        == year as int
    &&& parsed_u32(record.catid.unwrap()) == Some(catid)
}

/// The verdict on a record: one that lacks `created` or `catid` is left
/// out; for the others see [`decision`].
pub open spec fn verdict(record: RawRecordView, year: u32, catid: u32) -> Verdict {
    if record.created is None || record.catid is None {
        Verdict::Excluded
    } else {
        decision(
            parsed_year(record.created.unwrap(), DATE_TIME_FORMAT@),
            parsed_u32(record.catid.unwrap()),
            year,
            catid,
        )
    }
}

/// What a record contributes to the bundle: nothing, an article, or the
/// failure that ends the run.
pub open spec fn outcome(record: RawRecordView, year: u32, catid: u32) -> Result<
    Option<ArticleView>,
    MigrationError,
> {
    match verdict(record, year, catid) {
        Verdict::Excluded => Ok(None),
        Verdict::Fatal(error) => Err(error),
        Verdict::Included => match article_of(record) {
            Ok(article) => Ok(Some(article)),
            Err(error) => Err(error),
        },
    }
}

/// The articles that the records contribute, in the order of the records.
pub open spec fn selected(records: Seq<RawRecordView>, year: u32, catid: u32) -> Seq<ArticleView>
    decreases records.len(),
{
    if records.len() == 0 {
        Seq::empty()
    } else {
        let before = selected(records.drop_last(), year, catid);
        match outcome(records.last(), year, catid) {
            Ok(Some(article)) => before.push(article),
            _ => before,
        }
    }
}

/// Whether `article` is the article of one of the records that belong to
/// the year and the category.
pub open spec fn from_matching_record(
    records: Seq<RawRecordView>,
    year: u32,
    catid: u32,
    article: ArticleView,
) -> bool {
    exists|i: int|
        0 <= i < records.len() && matches_filter(#[trigger] records[i], year, catid) && article_of(
            records[i],
        ) == Ok::<ArticleView, MigrationError>(article)
}

/// Every selected article is the article of a record that belongs to the
/// year and the category.
pub proof fn lemma_selected_matches_filter(
    records: Seq<RawRecordView>,
    year: u32,
    catid: u32,
    k: int,
) -> (i: int)
    requires
        0 <= k < selected(records, year, catid).len(),
    ensures
        0 <= i < records.len(),
        matches_filter(records[i], year, catid),
        article_of(records[i]) == Ok::<ArticleView, MigrationError>(
            selected(records, year, catid)[k],
        ),
    decreases records.len(),
{
    let before = selected(records.drop_last(), year, catid);
    if k < before.len() {
        lemma_selected_matches_filter(records.drop_last(), year, catid, k)
    } else {
        records.len() - 1
    }
}

/// Every record that belongs to the year and the category, and has an
/// article, has that article among the selected ones.
pub proof fn lemma_matching_is_selected(
    records: Seq<RawRecordView>,
    year: u32,
    catid: u32,
    i: int,
) -> (k: int)
    requires
        0 <= i < records.len(),
        matches_filter(records[i], year, catid),
        article_of(records[i]) is Ok,
    ensures
        0 <= k < selected(records, year, catid).len(),
        article_of(records[i]) == Ok::<ArticleView, MigrationError>(
            selected(records, year, catid)[k],
        ),
    decreases records.len(),
{
    let before = selected(records.drop_last(), year, catid);
    if i == records.len() - 1 {
        before.len() as int
    } else {
        lemma_matching_is_selected(records.drop_last(), year, catid, i)
    }
}

/// The verdict that follows from what was read from `created` and `catid`.
pub fn decide(created_year: Option<i32>, category: Option<u32>, year: u32, catid: u32) -> (v:
    Verdict)
    ensures
        v == decision(created_year, category, year, catid),
{
    match created_year {
        None => Verdict::Fatal(MigrationError::MalformedField(Field::Created)),
        Some(y) => match category {
            None => Verdict::Fatal(MigrationError::MalformedField(Field::Catid)),
            Some(c) => if y >= 0 && y as u32 == year && c == catid {
                Verdict::Included
            } else {
                Verdict::Excluded
            },
        },
    }
}

/// The verdict on one record.
pub fn classify(record: &RawRecord, year: u32, catid: u32) -> (v: Verdict)
    ensures
        v == verdict(record@, year, catid),
{
    match (&record.created, &record.catid) {
        (Some(created), Some(category)) => decide(
            parse_year(created.as_str(), DATE_TIME_FORMAT),
            parse_u32(category.as_str()),
            year,
            catid,
        ),
        _ => Verdict::Excluded,
    }
}

/// Selects the records of `year` and `catid` and makes the year's bundle.
///
/// The run fails on the first record, in the order of the source, that is
/// fatal: one whose `created` or `catid` is present and malformed, or one
/// that is selected and has no article. Otherwise the bundle holds the
/// article of every record that belongs to the year and the category, and
/// no other, sorted by date; articles with the same date stand in the order
/// of their records.
pub fn get_articles(records: &Vec<RawRecord>, year: u32, catid: u32) -> (result: Result<
    YearArticles,
    RecordError,
>)
    ensures
        match result {
            Ok(bundle) => {
                &&& forall|i: int|
                    0 <= i < records@.len() ==> outcome((#[trigger] records@[i])@, year, catid)
                        is Ok
                &&& bundle.year == year
                &&& exists|order: Seq<int>|
                    is_stable_sort(
                        selected(records_view(records@), year, catid),
                        bundle@.articles,
                        order,
                    )
                &&& sorted_by_date(bundle@.articles)
                &&& forall|k: int|
                    0 <= k < bundle@.articles.len() ==> from_matching_record(
                        records_view(records@),
                        year,
                        catid,
                        #[trigger] bundle@.articles[k],
                    )
                &&& forall|i: int|
                    0 <= i < records@.len() && matches_filter(
                        (#[trigger] records@[i])@,
                        year,
                        catid,
                    ) ==> bundle@.articles.contains(article_of(records@[i]@).unwrap())
            },
            Err(failure) => {
                &&& failure.record < records@.len()
                &&& outcome(records@[failure.record as int]@, year, catid) == Err::<
                    Option<ArticleView>,
                    MigrationError,
                >(failure.error)
                &&& forall|i: int|
                    0 <= i < failure.record ==> outcome((#[trigger] records@[i])@, year, catid)
                        is Ok
            },
        },
{
    let ghost views = records_view(records@);
    let mut articles: Vec<Article> = Vec::new();
    let mut i: usize = 0;
    assert(views.take(0) =~= Seq::<RawRecordView>::empty());
    while i < records.len()
        invariant
            i <= records.len(),
            views == records_view(records@),
            forall|j: int| 0 <= j < i ==> outcome((#[trigger] records@[j])@, year, catid) is Ok,
            articles_view(articles@) == selected(views.take(i as int), year, catid),
        decreases records.len() - i,
    {
        let record = &records[i];
        proof {
            assert(views.take(i + 1).drop_last() =~= views.take(i as int));
            assert(views.take(i + 1).last() == record@);
        }
        match classify(record, year, catid) {
            Verdict::Excluded => {},
            Verdict::Fatal(error) => {
                return Err(RecordError { record: i, error });
            },
            Verdict::Included => match get_article(record) {
                Ok(article) => {
                    let ghost before = articles_view(articles@);
                    articles.push(article);
                    assert(articles_view(articles@) =~= before.push(article@));
                },
                Err(error) => {
                    return Err(RecordError { record: i, error });
                },
            },
        }
        i = i + 1;
    }
    assert(views.take(records.len() as int) =~= views);
    let ghost chosen = articles_view(articles@);
    let sorted = sort_by_date(articles);
    let bundle = YearArticles { year, articles: sorted };
    proof {
        assert(chosen == selected(records_view(records@), year, catid));
        assert(bundle@.articles == articles_view(sorted@));
        let order = choose|order: Seq<int>| is_stable_sort(chosen, bundle@.articles, order);
        assert(is_stable_sort(chosen, bundle@.articles, order));
        assert(sorted_by_date(bundle@.articles));
        assert forall|k: int| 0 <= k < bundle@.articles.len() implies from_matching_record(
            views,
            year,
            catid,
            #[trigger] bundle@.articles[k],
        ) by {
            assert(bundle@.articles[k] == chosen[order[k]]);
            let i = lemma_selected_matches_filter(views, year, catid, order[k]);
            assert(matches_filter(views[i], year, catid));
        }
        assert forall|i: int|
            0 <= i < records@.len() && matches_filter(
                (#[trigger] records@[i])@,
                year,
                catid,
            ) implies bundle@.articles.contains(article_of(records@[i]@).unwrap()) by {
            assert(views[i] == records@[i]@);
            assert(outcome(records@[i]@, year, catid) is Ok);
            let k = lemma_matching_is_selected(views, year, catid, i);
            assert(order.contains(k));
            let at = choose|at: int| 0 <= at < order.len() && order[at] == k;
            assert(bundle@.articles[at] == chosen[k]);
        }
    }
    Ok(bundle)
}

} // verus!
