//! Turns the markup of a source record into an [`Article`]: plain text with
//! one sentence per line, and the list of the images that the markup names.
//!
//! The patterns are matched by the `regex` crate. What it returns for a
//! pattern and a text is not spelled out here: the contracts name it
//! ([`regex_replace_all`], [`regex_replace`], [`regex_captures`]) and say how
//! the article is put together from it.

use vstd::prelude::*;
use vstd::string::StringExecFns;
use regex::Regex;
use crate::article::{strings_view, Article, ArticleView};
use crate::error::{Field, MigrationError};
use crate::record::{RawRecord, RawRecordView};
use crate::text::to_chars;

verus! {

/// A tag: `<`, then one or more characters other than `<` and `>`, then `>`.
pub const TAG_PATTERN: &'static str = "<[^<>]+>";

/// The value of a `src` attribute.
pub const IMAGE_PATTERN: &'static str = "src=\"([^\"]+)\"";

/// The end of a sentence: a character that is no digit, a period, and one
/// whitespace character.
pub const SENTENCE_END_PATTERN: &'static str = "([^0-9])(\\.\\s)";

/// What replaces the end of a sentence: the character before the period, the
/// period, and a line break.
pub const SENTENCE_END_REPLACEMENT: &'static str = "${1}.\n";

/// The line breaks at the start of the text.
pub const LEADING_NEWLINES_PATTERN: &'static str = "^(\n)+";

/// The capture group of [`IMAGE_PATTERN`] that holds the source.
pub const IMAGE_SOURCE_GROUP: usize = 1;

/// The non-breaking space.
pub const NBSP: char = '\u{a0}';

/// What `regex::Regex::replace_all` returns for the text `haystack` and the
/// replacement `replacement`, called on the regex that `regex::Regex::new`
/// makes of `pattern`; `None` where `Regex::new` rejects the pattern.
pub uninterp spec fn regex_replace_all(
    pattern: Seq<char>,
    haystack: Seq<char>,
    replacement: Seq<char>,
) -> Option<Seq<char>>;

/// What `regex::Regex::replace` returns for the text `haystack` and the
/// replacement `replacement`, called on the regex that `regex::Regex::new`
/// makes of `pattern`; `None` where `Regex::new` rejects the pattern.
pub uninterp spec fn regex_replace(
    pattern: Seq<char>,
    haystack: Seq<char>,
    replacement: Seq<char>,
) -> Option<Seq<char>>;

/// For each match that `regex::Regex::captures_iter` yields on `haystack`,
/// in the order in which it yields them, the text of the capture group
/// `group`, or `None` for a match in which that group took no part. The
/// regex is the one that `regex::Regex::new` makes of `pattern`; the whole
/// is `None` where `Regex::new` rejects the pattern.
pub uninterp spec fn regex_captures(pattern: Seq<char>, haystack: Seq<char>, group: nat) -> Option<
    Seq<Option<Seq<char>>>,
>;

/// The contents of a list of strings of which some may be absent.
pub open spec fn captures_view(captures: Seq<Option<String>>) -> Seq<Option<Seq<char>>> {
    captures.map_values(
        |c: Option<String>|
            match c {
                Some(text) => Some(text@),
                None => None,
            },
    )
}

/// Compiles `pattern` with `regex::Regex::new` and calls
/// `regex::Regex::replace_all` on it. The result is the one that
/// [`regex_replace_all`] names: the same pattern, text and replacement always
/// give the same result. Nothing more is claimed of it.
#[verifier::external_body]
fn replace_all(pattern: &str, haystack: &str, replacement: &str) -> (replaced: Option<String>)
    ensures
        match replaced {
            Some(text) => regex_replace_all(pattern@, haystack@, replacement@) == Some(text@),
            None => regex_replace_all(pattern@, haystack@, replacement@) is None,
        },
{
    match Regex::new(pattern) {
        Ok(regex) => Some(regex.replace_all(haystack, replacement).into_owned()),
        Err(_) => None,
    }
}

/// Compiles `pattern` with `regex::Regex::new` and calls
/// `regex::Regex::replace` on it, which replaces the first match only. The
/// result is the one that [`regex_replace`] names. Nothing more is claimed of
/// it.
#[verifier::external_body]
fn replace_first(pattern: &str, haystack: &str, replacement: &str) -> (replaced: Option<String>)
    ensures
        match replaced {
            Some(text) => regex_replace(pattern@, haystack@, replacement@) == Some(text@),
            None => regex_replace(pattern@, haystack@, replacement@) is None,
        },
{
    match Regex::new(pattern) {
        Ok(regex) => Some(regex.replace(haystack, replacement).into_owned()),
        Err(_) => None,
    }
}

/// Compiles `pattern` with `regex::Regex::new`, walks the matches of
/// `regex::Regex::captures_iter` and copies from each the text of the group
/// `group`, which `regex::Captures::get` hands out. The result is the one
/// that [`regex_captures`] names. Nothing more is claimed of it.
#[verifier::external_body]
fn captures(pattern: &str, haystack: &str, group: usize) -> (found: Option<Vec<Option<String>>>)
    ensures
        match found {
            Some(list) => regex_captures(pattern@, haystack@, group as nat) == Some(
                captures_view(list@),
            ),
            None => regex_captures(pattern@, haystack@, group as nat) is None,
        },
{
    match Regex::new(pattern) {
        Ok(regex) => Some(
            regex.captures_iter(haystack).map(
                |found| found.get(group).map(|text| text.as_str().to_string()),
            ).collect(),
        ),
        Err(_) => None,
    }
}

/// `text` without the occurrences of `unwanted`.
pub open spec fn without_char(text: Seq<char>, unwanted: char) -> Seq<char> {
    text.filter(|c: char| c != unwanted)
}

/// `text` with every carriage return that stands before a line feed taken
/// out. The pairs are found from left to right.
pub open spec fn crlf_to_lf(text: Seq<char>) -> Seq<char>
    decreases text.len(),
{
    if text.len() == 0 {
        text
    } else if text.len() >= 2 && text[0] == '\r' && text[1] == '\n' {
        seq!['\n'] + crlf_to_lf(text.skip(2))
    } else {
        seq![text[0]] + crlf_to_lf(text.skip(1))
    }
}

/// What becomes of the text once the tags are out: the non-breaking spaces
/// are deleted, then each `CR LF` becomes `LF`.
pub open spec fn tidied(stripped: Seq<char>) -> Seq<char> {
    crlf_to_lf(without_char(stripped, NBSP))
}

/// A character that is not in the text, and is no line feed, is not in the
/// text with its line breaks normalized.
proof fn lemma_crlf_to_lf_adds_no_char(text: Seq<char>, absent: char)
    requires
        absent != '\n',
        !text.contains(absent),
    ensures
        !crlf_to_lf(text).contains(absent),
    decreases text.len(),
{
    if text.len() > 0 {
        let pair = text.len() >= 2 && text[0] == '\r' && text[1] == '\n';
        let rest = if pair {
            text.skip(2)
        } else {
            text.skip(1)
        };
        let first = if pair {
            '\n'
        } else {
            text[0]
        };
        assert(!rest.contains(absent)) by {
            if rest.contains(absent) {
                let i = choose|i: int| 0 <= i < rest.len() && rest[i] == absent;
                assert(text[i + text.len() - rest.len()] == absent);
            }
        }
        lemma_crlf_to_lf_adds_no_char(rest, absent);
        assert(text[0] != absent);
        let out = crlf_to_lf(text);
        assert(out =~= seq![first] + crlf_to_lf(rest));
        if out.contains(absent) {
            let i = choose|i: int| 0 <= i < out.len() && out[i] == absent;
            assert(i > 0);
            assert(crlf_to_lf(rest)[i - 1] == absent);
        }
    }
}

/// No non-breaking space is left in the tidied text.
pub proof fn lemma_tidied_has_no_nbsp(stripped: Seq<char>)
    ensures
        !tidied(stripped).contains(NBSP),
{
    let kept = without_char(stripped, NBSP);
    if kept.contains(NBSP) {
        let i = choose|i: int| 0 <= i < kept.len() && kept[i] == NBSP;
        stripped.lemma_filter_pred(|c: char| c != NBSP, i);
    }
    lemma_crlf_to_lf_adds_no_char(kept, NBSP);
}

/// The images of an article are the values that the matches of
/// [`IMAGE_PATTERN`] hold, match for match: as many as there are matches, in
/// the order of the matches, and a value that is matched twice is listed
/// twice. The matches are those in the markup as it came.
pub proof fn lemma_images_follow_the_matches(
    introtext: Seq<char>,
    title: Seq<char>,
    date: Seq<char>,
)
    requires
        normalized(introtext, title, date) is Some,
    ensures
        ({
            let images = normalized(introtext, title, date).unwrap().images;
            let matches = regex_captures(IMAGE_PATTERN@, introtext, IMAGE_SOURCE_GROUP as nat);
            &&& matches is Some
            &&& images.len() == matches.unwrap().len()
            &&& forall|k: int|
                0 <= k < images.len() ==> (#[trigger] matches.unwrap()[k]) == Some(images[k])
        }),
{
}

/// Deletes every occurrence of `unwanted`.
pub fn remove_char(text: &str, unwanted: char) -> (out: String)
    ensures
        out@ == without_char(text@, unwanted),
{
    let chars = to_chars(text);
    let mut out = String::new();
    let mut i: usize = 0;
    proof {
        reveal(Seq::filter);
    }
    while i < chars.len()
        invariant
            i <= chars.len(),
            out@ == without_char(chars@.take(i as int), unwanted),
        decreases chars.len() - i,
    {
        let c = chars[i];
        proof {
            reveal(Seq::filter);
            assert(chars@.take(i + 1).drop_last() =~= chars@.take(i as int));
        }
        if c != unwanted {
            out.push(c);
        }
        i = i + 1;
    }
    assert(chars@.take(chars.len() as int) =~= chars@);
    out
}

/// Replaces each `CR LF` by `LF`.
pub fn normalize_line_breaks(text: &str) -> (out: String)
    ensures
        out@ == crlf_to_lf(text@),
{
    let chars = to_chars(text);
    let mut out = String::new();
    let mut i: usize = 0;
    assert(chars@.skip(0) =~= chars@);
    assert(out@ + crlf_to_lf(chars@) =~= crlf_to_lf(chars@));
    while i < chars.len()
        invariant
            i <= chars.len(),
            out@ + crlf_to_lf(chars@.skip(i as int)) == crlf_to_lf(chars@),
        decreases chars.len() - i,
    {
        let ghost rest = chars@.skip(i as int);
        if chars[i] == '\r' && i + 1 < chars.len() && chars[i + 1] == '\n' {
            out.push('\n');
            proof {
                assert(rest.skip(2) =~= chars@.skip(i + 2));
                assert(out@ + crlf_to_lf(chars@.skip(i + 2)) =~= out@.drop_last() + crlf_to_lf(
                    rest,
                ));
            }
            i = i + 2;
        } else {
            out.push(chars[i]);
            proof {
                assert(rest.skip(1) =~= chars@.skip(i + 1));
                assert(out@ + crlf_to_lf(chars@.skip(i + 1)) =~= out@.drop_last() + crlf_to_lf(
                    rest,
                ));
            }
            i = i + 1;
        }
    }
    assert(out@ + crlf_to_lf(chars@.skip(i as int)) =~= out@);
    out
}

/// Deletes the non-breaking spaces, then replaces each `CR LF` by `LF`.
pub fn tidy(stripped: &str) -> (out: String)
    ensures
        out@ == tidied(stripped@),
{
    let without_nbsp = remove_char(stripped, NBSP);
    normalize_line_breaks(without_nbsp.as_str())
}

/// Whether every match yielded its group.
pub open spec fn all_present(captures: Seq<Option<Seq<char>>>) -> bool {
    forall|i: int| 0 <= i < captures.len() ==> (#[trigger] captures[i]) is Some
}

/// The texts of the groups, in the order of their matches.
pub open spec fn present(captures: Seq<Option<Seq<char>>>) -> Seq<Seq<char>> {
    captures.map_values(|c: Option<Seq<char>>| c.unwrap())
}

/// The text of an article: the tags are deleted, the text is tidied (see
/// [`tidied`]), each end of a sentence becomes the end of a line, and the
/// line breaks at the start are deleted, in that order. `None` where the
/// regular-expression engine rejects a pattern.
pub open spec fn normalized_text(introtext: Seq<char>) -> Option<Seq<char>> {
    match regex_replace_all(TAG_PATTERN@, introtext, ""@) {
        Some(stripped) => match regex_replace_all(
            SENTENCE_END_PATTERN@,
            tidied(stripped),
            SENTENCE_END_REPLACEMENT@,
        ) {
            Some(reflowed) => regex_replace(LEADING_NEWLINES_PATTERN@, reflowed, ""@),
            None => None,
        },
        None => None,
    }
}

/// The image sources of an article: the value of every `src` attribute of
/// the markup as it came, before anything is deleted from it, in the order
/// of the matches and with repeats. `None` where the regular-expression
/// engine rejects the pattern or reports a match without a value.
pub open spec fn image_sources(introtext: Seq<char>) -> Option<Seq<Seq<char>>> {
    match regex_captures(IMAGE_PATTERN@, introtext, IMAGE_SOURCE_GROUP as nat) {
        Some(captures) => if all_present(captures) {
            Some(present(captures))
        } else {
            None
        },
        None => None,
    }
}

/// The article made of a record's markup, title and date.
pub open spec fn normalized(introtext: Seq<char>, title: Seq<char>, date: Seq<char>) -> Option<
    ArticleView,
> {
    match (normalized_text(introtext), image_sources(introtext)) {
        (Some(text), Some(images)) => Some(ArticleView { title, date, text, images }),
        _ => None,
    }
}

/// The article of a record, or the reason why it has none. A missing
/// `introtext` is reported before a missing `title`, and that before a
/// missing `created`.
pub open spec fn article_of(record: RawRecordView) -> Result<ArticleView, MigrationError> {
    if record.introtext is None {
        Err(MigrationError::MissingField(Field::Introtext))
    } else if record.title is None {
        Err(MigrationError::MissingField(Field::Title))
    } else if record.created is None {
        Err(MigrationError::MissingField(Field::Created))
    } else {
        match normalized(record.introtext.unwrap(), record.title.unwrap(), record.created.unwrap()) {
            Some(article) => Ok(article),
            None => Err(MigrationError::PatternFailure),
        }
    }
}

/// The texts of the groups of all matches, or `None` if a match came without
/// its group.
pub fn collect_present(found: &Vec<Option<String>>) -> (sources: Option<Vec<String>>)
    ensures
        match sources {
            Some(list) => all_present(captures_view(found@)) && strings_view(list@) == present(
                captures_view(found@),
            ),
            None => !all_present(captures_view(found@)),
        },
{
    let mut list: Vec<String> = Vec::new();
    let mut i: usize = 0;
    while i < found.len()
        invariant
            i <= found.len(),
            list.len() == i,
            forall|k: int| 0 <= k < i ==> (#[trigger] found@[k]) is Some,
            forall|k: int| 0 <= k < i ==> (#[trigger] list@[k])@ == found@[k].unwrap()@,
        decreases found.len() - i,
    {
        match &found[i] {
            Some(text) => {
                list.push(text.clone());
            },
            None => {
                assert(captures_view(found@)[i as int] is None);
                return None;
            },
        }
        i = i + 1;
    }
    assert(strings_view(list@) =~= present(captures_view(found@)));
    Some(list)
}

/// Makes an article of a record's markup, title and date.
///
/// The text is [`normalized_text`] of the markup and the images are
/// [`image_sources`] of it; title and date are taken over as they are. The
/// one failure is that of the regular-expression engine.
pub fn normalize(introtext: &str, title: &str, date: &str) -> (result: Result<
    Article,
    MigrationError,
>)
    ensures
        match result {
            Ok(article) => normalized(introtext@, title@, date@) == Some(article@),
            Err(error) => error == MigrationError::PatternFailure && normalized(
                introtext@,
                title@,
                date@,
            ) is None,
        },
{
    let stripped = match replace_all(TAG_PATTERN, introtext, "") {
        Some(text) => text,
        None => {
            return Err(MigrationError::PatternFailure);
        },
    };
    let tidy_text = tidy(stripped.as_str());
    let reflowed = match replace_all(
        SENTENCE_END_PATTERN,
        tidy_text.as_str(),
        SENTENCE_END_REPLACEMENT,
    ) {
        Some(text) => text,
        None => {
            return Err(MigrationError::PatternFailure);
        },
    };
    let text = match replace_first(LEADING_NEWLINES_PATTERN, reflowed.as_str(), "") {
        Some(text) => text,
        None => {
            return Err(MigrationError::PatternFailure);
        },
    };
    let found = match captures(IMAGE_PATTERN, introtext, IMAGE_SOURCE_GROUP) {
        Some(found) => found,
        None => {
            return Err(MigrationError::PatternFailure);
        },
    };
    let images = match collect_present(&found) {
        Some(images) => images,
        None => {
            return Err(MigrationError::PatternFailure);
        },
    };
    Ok(Article { title: String::from_str(title), date: String::from_str(date), text, images })
}

/// Makes the article of a record that was selected.
///
/// A record without `introtext`, `title` or `created` breaks the schema; see
/// [`article_of`] for the order in which they are reported.
pub fn get_article(record: &RawRecord) -> (result: Result<Article, MigrationError>)
    ensures
        match result {
            Ok(article) => article_of(record@) == Ok::<ArticleView, MigrationError>(article@),
            Err(error) => article_of(record@) == Err::<ArticleView, MigrationError>(error),
        },
{
    let introtext = match &record.introtext {
        Some(text) => text.as_str(),
        None => {
            return Err(MigrationError::MissingField(Field::Introtext));
        },
    };
    let title = match &record.title {
        Some(text) => text.as_str(),
        None => {
            return Err(MigrationError::MissingField(Field::Title));
        },
    };
    let date = match &record.created {
        Some(text) => text.as_str(),
        None => {
            return Err(MigrationError::MissingField(Field::Created));
        },
    };
    normalize(introtext, title, date)
}

} // verus!
