//! The naming scheme of the output tree. Every path is relative to the
//! output root and uses `/` between its components.
//!
//! ```text
//! content/{year}/_index.md
//! content/{year}/{article}/index.md
//! content/{year}/{article}/img/{year}-{article}-{image}.jpg
//! thumbnail/{year}/{article}.jpg
//! ```
//!
//! `{article}` is the article's position in its year, zero-padded to four
//! digits; `{image}` is the image's position in its article, zero-padded to
//! two digits.

use vstd::prelude::*;
use vstd::string::StringExecFns;
use crate::article::{YearArticles, YearArticlesView};
use crate::text::{
    decimal, decimal_string, lemma_zero_padded_injective, zero_padded, zero_padded_string,
};

verus! {

/// Width to which an article's position is padded.
pub const ARTICLE_INDEX_WIDTH: usize = 4;

/// Width to which an image's position is padded.
pub const IMAGE_INDEX_WIDTH: usize = 2;

/// An article's position as it appears in paths.
pub open spec fn article_index_text(index: nat) -> Seq<char> {
    zero_padded(index, ARTICLE_INDEX_WIDTH as nat)
}

/// An image's position as it appears in file and resource names.
pub open spec fn image_index_text(index: nat) -> Seq<char> {
    zero_padded(index, IMAGE_INDEX_WIDTH as nat)
}

/// `content/{year}`
pub open spec fn series_dir(year: nat) -> Seq<char> {
    "content/"@ + decimal(year)
}

/// `thumbnail/{year}`
pub open spec fn thumbnail_dir(year: nat) -> Seq<char> {
    "thumbnail/"@ + decimal(year)
}

/// `content/{year}/_index.md`
pub open spec fn series_index_path(year: nat) -> Seq<char> {
    series_dir(year) + "/_index.md"@
}

/// `content/{year}/{article}`
pub open spec fn article_dir(year: nat, article_index: nat) -> Seq<char> {
    series_dir(year) + "/"@ + article_index_text(article_index)
}

/// `content/{year}/{article}/index.md`
pub open spec fn markdown_path(year: nat, article_index: nat) -> Seq<char> {
    article_dir(year, article_index) + "/index.md"@
}

/// `content/{year}/{article}/img`
pub open spec fn image_dir(year: nat, article_index: nat) -> Seq<char> {
    article_dir(year, article_index) + "/img"@
}

/// `{year}-{article}-{image}.jpg`: the extension is fixed, whatever the
/// source file's extension was.
pub open spec fn image_file_name(year: nat, article_index: nat, image_index: nat) -> Seq<char> {
    decimal(year) + "-"@ + article_index_text(article_index) + "-"@ + image_index_text(image_index)
        + ".jpg"@
}

/// `content/{year}/{article}/img/{year}-{article}-{image}.jpg`
pub open spec fn image_path(year: nat, article_index: nat, image_index: nat) -> Seq<char> {
    image_dir(year, article_index) + "/"@ + image_file_name(year, article_index, image_index)
}

/// `thumbnail/{year}/{article}.jpg`
pub open spec fn thumbnail_path(year: nat, article_index: nat) -> Seq<char> {
    thumbnail_dir(year) + "/"@ + article_index_text(article_index) + ".jpg"@
}

/// The directory that holds a year's articles.
pub fn series_dir_path(year: u32) -> (path: String)
    ensures
        path@ == series_dir(year as nat),
{
    let mut path = String::from_str("content/");
    path.append(decimal_string(year as u64).as_str());
    path
}

/// The directory that holds a year's thumbnails.
pub fn thumbnail_dir_path(year: u32) -> (path: String)
    ensures
        path@ == thumbnail_dir(year as nat),
{
    let mut path = String::from_str("thumbnail/");
    path.append(decimal_string(year as u64).as_str());
    path
}

/// The file that holds a year's index page.
pub fn series_index_file(year: u32) -> (path: String)
    ensures
        path@ == series_index_path(year as nat),
{
    let mut path = series_dir_path(year);
    path.append("/_index.md");
    path
}

/// The directory of one article.
pub fn article_dir_path(year: u32, article_index: usize) -> (path: String)
    ensures
        path@ == article_dir(year as nat, article_index as nat),
{
    let mut path = series_dir_path(year);
    path.append("/");
    path.append(zero_padded_string(article_index as u64, ARTICLE_INDEX_WIDTH).as_str());
    path
}

/// The markdown file of one article.
pub fn markdown_file(year: u32, article_index: usize) -> (path: String)
    ensures
        path@ == markdown_path(year as nat, article_index as nat),
{
    let mut path = article_dir_path(year, article_index);
    path.append("/index.md");
    path
}

/// The directory that holds one article's images.
pub fn image_dir_path(year: u32, article_index: usize) -> (path: String)
    ensures
        path@ == image_dir(year as nat, article_index as nat),
{
    let mut path = article_dir_path(year, article_index);
    path.append("/img");
    path
}

/// The name under which an article's image is stored.
pub fn image_name(year: u32, article_index: usize, image_index: usize) -> (name: String)
    ensures
        name@ == image_file_name(year as nat, article_index as nat, image_index as nat),
{
    let mut name = decimal_string(year as u64);
    name.append("-");
    name.append(zero_padded_string(article_index as u64, ARTICLE_INDEX_WIDTH).as_str());
    name.append("-");
    name.append(zero_padded_string(image_index as u64, IMAGE_INDEX_WIDTH).as_str());
    name.append(".jpg");
    name
}

/// The file in which an article's image is stored.
pub fn image_file(year: u32, article_index: usize, image_index: usize) -> (path: String)
    ensures
        path@ == image_path(year as nat, article_index as nat, image_index as nat),
{
    let mut path = image_dir_path(year, article_index);
    path.append("/");
    path.append(image_name(year, article_index, image_index).as_str());
    path
}

/// The file in which an article's thumbnail is stored.
pub fn thumbnail_file(year: u32, article_index: usize) -> (path: String)
    ensures
        path@ == thumbnail_path(year as nat, article_index as nat),
{
    let mut path = thumbnail_dir_path(year);
    path.append("/");
    path.append(zero_padded_string(article_index as u64, ARTICLE_INDEX_WIDTH).as_str());
    path.append(".jpg");
    path
}

/// The paths of one article.
#[derive(Debug, Clone, PartialEq, Eq)]
pub struct ArticleLayout {
    /// The article's directory.
    pub directory: String,
    /// The article's markdown file.
    pub markdown: String,
    /// The directory of the article's images.
    pub image_dir: String,
    /// The files of the article's images, in the order of the images.
    pub images: Vec<String>,
    /// The article's thumbnail; none for an article without images.
    pub thumbnail: Option<String>,
}

/// The paths of one year.
#[derive(Debug, Clone, PartialEq, Eq)]
pub struct LayoutPlan {
    /// The year's index page.
    pub year_index: String,
    /// The paths of the articles, in the order of the bundle.
    pub articles: Vec<ArticleLayout>,
}

/// What an [`ArticleLayout`] holds, as mathematical sequences.
pub struct ArticleLayoutView {
    pub directory: Seq<char>,
    pub markdown: Seq<char>,
    pub image_dir: Seq<char>,
    pub images: Seq<Seq<char>>,
    pub thumbnail: Option<Seq<char>>,
}

/// What a [`LayoutPlan`] holds, as mathematical sequences.
pub struct LayoutPlanView {
    pub year_index: Seq<char>,
    pub articles: Seq<ArticleLayoutView>,
}

impl View for ArticleLayout {
    type V = ArticleLayoutView;

    open spec fn view(&self) -> ArticleLayoutView {
        ArticleLayoutView {
            directory: self.directory@,
            markdown: self.markdown@,
            image_dir: self.image_dir@,
            images: self.images@.map_values(|path: String| path@),
            thumbnail: match self.thumbnail {
                Some(path) => Some(path@),
                None => None,
            },
        }
    }
}

impl View for LayoutPlan {
    type V = LayoutPlanView;

    open spec fn view(&self) -> LayoutPlanView {
        LayoutPlanView {
            year_index: self.year_index@,
            articles: self.articles@.map_values(|layout: ArticleLayout| layout@),
        }
    }
}

/// The paths of the article at `article_index` of `year`, which has
/// `image_count` images.
pub open spec fn article_layout(year: nat, article_index: nat, image_count: nat)
    -> ArticleLayoutView {
    ArticleLayoutView {
        directory: article_dir(year, article_index),
        markdown: markdown_path(year, article_index),
        image_dir: image_dir(year, article_index),
        images: Seq::new(image_count, |j: int| image_path(year, article_index, j as nat)),
        thumbnail: if image_count == 0 {
            None
        } else {
            Some(thumbnail_path(year, article_index))
        },
    }
}

/// The paths of a year's bundle: they depend on the year, on each article's
/// position in the bundle and on the number of its images, and on nothing
/// else.
pub open spec fn layout_plan(bundle: YearArticlesView) -> LayoutPlanView {
    LayoutPlanView {
        year_index: series_index_path(bundle.year),
        articles: Seq::new(
            bundle.articles.len(),
            |i: int| article_layout(bundle.year, i as nat, bundle.articles[i].images.len()),
        ),
    }
}

/// The paths of one article.
pub fn plan_article(year: u32, article_index: usize, image_count: usize) -> (layout: ArticleLayout)
    ensures
        layout@ == article_layout(year as nat, article_index as nat, image_count as nat),
{
    let mut images: Vec<String> = Vec::new();
    let mut image_index: usize = 0;
    while image_index < image_count
        invariant
            image_index <= image_count,
            images.len() == image_index,
            forall|j: int|
                0 <= j < image_index ==> (#[trigger] images@[j])@ == image_path(
                    year as nat,
                    article_index as nat,
                    j as nat,
                ),
        decreases image_count - image_index,
    {
        images.push(image_file(year, article_index, image_index));
        image_index = image_index + 1;
    }
    let thumbnail = if image_count == 0 {
        None
    } else {
        Some(thumbnail_file(year, article_index))
    };
    let layout = ArticleLayout {
        directory: article_dir_path(year, article_index),
        markdown: markdown_file(year, article_index),
        image_dir: image_dir_path(year, article_index),
        images,
        thumbnail,
    };
    assert(layout@.images =~= article_layout(
        year as nat,
        article_index as nat,
        image_count as nat,
    ).images);
    layout
}

/// The paths of a year's bundle.
pub fn plan(bundle: &YearArticles) -> (layout: LayoutPlan)
    ensures
        layout@ == layout_plan(bundle@),
{
    let mut articles: Vec<ArticleLayout> = Vec::new();
    let mut article_index: usize = 0;
    while article_index < bundle.articles.len()
        invariant
            article_index <= bundle.articles.len(),
            articles.len() == article_index,
            forall|i: int|
                0 <= i < article_index ==> (#[trigger] articles@[i])@ == article_layout(
                    bundle.year as nat,
                    i as nat,
                    bundle@.articles[i].images.len(),
                ),
        decreases bundle.articles.len() - article_index,
    {
        assert(bundle@.articles[article_index as int] == bundle.articles@[article_index as int]@);
        articles.push(
            plan_article(bundle.year, article_index, bundle.articles[article_index].images.len()),
        );
        article_index = article_index + 1;
    }
    let layout = LayoutPlan { year_index: series_index_file(bundle.year), articles };
    assert(layout@.articles =~= layout_plan(bundle@).articles);
    layout
}

/// Two strings that begin alike and are equal end alike.
proof fn lemma_same_prefix(prefix: Seq<char>, a: Seq<char>, b: Seq<char>)
    requires
        prefix + a == prefix + b,
    ensures
        a == b,
{
    assert((prefix + a).skip(prefix.len() as int) =~= a);
    assert((prefix + b).skip(prefix.len() as int) =~= b);
}

/// Two strings that end alike and are equal begin alike.
proof fn lemma_same_suffix(a: Seq<char>, b: Seq<char>, suffix: Seq<char>)
    requires
        a + suffix == b + suffix,
    ensures
        a == b,
{
    assert((a + suffix).len() == a.len() + suffix.len());
    assert((b + suffix).len() == b.len() + suffix.len());
    assert((a + suffix).take(a.len() as int) =~= a);
    assert((b + suffix).take(b.len() as int) =~= b);
}

/// Different articles of a year have different paths: no two of them share
/// a directory, a markdown file, an image directory or a thumbnail.
pub proof fn lemma_article_paths_are_distinct(year: nat, first: nat, second: nat)
    requires
        first != second,
    ensures
        article_dir(year, first) != article_dir(year, second),
        markdown_path(year, first) != markdown_path(year, second),
        image_dir(year, first) != image_dir(year, second),
        thumbnail_path(year, first) != thumbnail_path(year, second),
{
    let width = ARTICLE_INDEX_WIDTH as nat;
    if zero_padded(first, width) == zero_padded(second, width) {
        lemma_zero_padded_injective(first, second, width);
    }
    if article_dir(year, first) == article_dir(year, second) {
        lemma_same_prefix(
            series_dir(year) + "/"@,
            article_index_text(first),
            article_index_text(second),
        );
    }
    if markdown_path(year, first) == markdown_path(year, second) {
        lemma_same_suffix(article_dir(year, first), article_dir(year, second), "/index.md"@);
    }
    if image_dir(year, first) == image_dir(year, second) {
        lemma_same_suffix(article_dir(year, first), article_dir(year, second), "/img"@);
    }
    if thumbnail_path(year, first) == thumbnail_path(year, second) {
        lemma_same_suffix(
            thumbnail_dir(year) + "/"@ + article_index_text(first),
            thumbnail_dir(year) + "/"@ + article_index_text(second),
            ".jpg"@,
        );
        lemma_same_prefix(
            thumbnail_dir(year) + "/"@,
            article_index_text(first),
            article_index_text(second),
        );
    }
}

/// Different images of an article have different names and different files.
pub proof fn lemma_image_paths_are_distinct(year: nat, article_index: nat, first: nat, second: nat)
    requires
        first != second,
    ensures
        image_file_name(year, article_index, first) != image_file_name(
            year,
            article_index,
            second,
        ),
        image_path(year, article_index, first) != image_path(year, article_index, second),
{
    let width = IMAGE_INDEX_WIDTH as nat;
    let stem = decimal(year) + "-"@ + article_index_text(article_index) + "-"@;
    if zero_padded(first, width) == zero_padded(second, width) {
        lemma_zero_padded_injective(first, second, width);
    }
    if image_file_name(year, article_index, first) == image_file_name(
        year,
        article_index,
        second,
    ) {
        lemma_same_suffix(stem + image_index_text(first), stem + image_index_text(second), ".jpg"@);
        lemma_same_prefix(stem, image_index_text(first), image_index_text(second));
    }
    if image_path(year, article_index, first) == image_path(year, article_index, second) {
        lemma_same_prefix(
            image_dir(year, article_index) + "/"@,
            image_file_name(year, article_index, first),
            image_file_name(year, article_index, second),
        );
    }
}

} // verus!
