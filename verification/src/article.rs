//! The normalized article, the bundle of one year's articles, and the
//! documents rendered from them.

use vstd::prelude::*;
use vstd::string::StringExecFns;
use crate::layout::{
    article_index_text, image_file_name, image_index_text, image_name, thumbnail_file,
    thumbnail_path, ARTICLE_INDEX_WIDTH, IMAGE_INDEX_WIDTH,
};
use crate::text::{decimal, decimal_string, zero_padded_string};

verus! {

/// One article after normalization.
///
/// `images` lists the image sources in the order in which they appear in the
/// source text; a source that appears twice is listed twice.
#[derive(Debug, Clone, PartialEq, Eq)]
pub struct Article {
    pub title: String,
    pub date: String,
    pub text: String,
    pub images: Vec<String>,
}

/// The articles of one year, in ascending order of `date`.
#[derive(Debug, Clone, PartialEq, Eq)]
pub struct YearArticles {
    pub year: u32,
    pub articles: Vec<Article>,
}

/// What an [`Article`] holds, as mathematical sequences.
pub struct ArticleView {
    pub title: Seq<char>,
    pub date: Seq<char>,
    pub text: Seq<char>,
    pub images: Seq<Seq<char>>,
}

/// What a [`YearArticles`] holds, as mathematical sequences.
pub struct YearArticlesView {
    pub year: nat,
    pub articles: Seq<ArticleView>,
}

/// The contents of a list of strings.
pub open spec fn strings_view(strings: Seq<String>) -> Seq<Seq<char>> {
    strings.map_values(|s: String| s@)
}

/// The contents of a list of articles.
pub open spec fn articles_view(articles: Seq<Article>) -> Seq<ArticleView> {
    articles.map_values(|a: Article| a@)
}

impl View for Article {
    type V = ArticleView;

    open spec fn view(&self) -> ArticleView {
        ArticleView {
            title: self.title@,
            date: self.date@,
            text: self.text@,
            images: strings_view(self.images@),
        }
    }
}

impl View for YearArticles {
    type V = YearArticlesView;

    open spec fn view(&self) -> YearArticlesView {
        YearArticlesView { year: self.year as nat, articles: articles_view(self.articles@) }
    }
}

impl Default for Article {
    /// The article with no title, no date, no text and no images.
    fn default() -> (article: Article)
        ensures
            article@ == (ArticleView {
                title: Seq::empty(),
                date: Seq::empty(),
                text: Seq::empty(),
                images: Seq::empty(),
            }),
    {
        let article = Article {
            title: String::new(),
            date: String::new(),
            text: String::new(),
            images: Vec::new(),
        };
        assert(article@.images =~= Seq::<Seq<char>>::empty());
        article
    }
}

/// The thumbnail that an article without images refers to.
pub const DEFAULT_THUMBNAIL: &'static str = "img/default.png";

/// The `title`, `date` and `description` lines that open the front matter.
/// The description repeats the title.
pub open spec fn front_matter_head(article: ArticleView) -> Seq<char> {
    "---\n"@ + "title: "@ + article.title + "\n"@ + "date: "@ + article.date + "\n"@
        + "description: "@ + article.title + "\n"@
}

/// The `thumbnail` line: the placeholder for an article without images, else
/// the article's own thumbnail.
pub open spec fn thumbnail_line(year: nat, article_index: nat, image_count: nat) -> Seq<char> {
    if image_count == 0 {
        "thumbnail: "@ + DEFAULT_THUMBNAIL@ + "\n"@
    } else {
        "thumbnail: "@ + thumbnail_path(year, article_index) + "\n"@
    }
}

/// The name under which the front matter lists an image, and by which the
/// body refers to it.
pub open spec fn resource_name(image_index: nat) -> Seq<char> {
    "img-"@ + image_index_text(image_index)
}

/// The two lines that list one image among the resources.
pub open spec fn resource_entry(year: nat, article_index: nat, image_index: nat) -> Seq<char> {
    "- name: "@ + resource_name(image_index) + "\n"@ + "  src: img/"@ + image_file_name(
        year,
        article_index,
        image_index,
    ) + "\n"@
}

/// The entries of the first `count` images, in order.
pub open spec fn resource_entries(year: nat, article_index: nat, count: nat) -> Seq<char>
    decreases count,
{
    if count == 0 {
        Seq::empty()
    } else {
        resource_entries(year, article_index, (count - 1) as nat) + resource_entry(
            year,
            article_index,
            (count - 1) as nat,
        )
    }
}

/// The `resources` key with its entries; nothing at all for an article
/// without images.
pub open spec fn resources_block(year: nat, article_index: nat, image_count: nat) -> Seq<char> {
    if image_count == 0 {
        Seq::empty()
    } else {
        "resources:\n"@ + resource_entries(year, article_index, image_count)
    }
}

/// The marker that embeds one image in the body.
pub open spec fn image_marker(image_index: nat) -> Seq<char> {
    "{{< image src=\""@ + resource_name(image_index) + "\" >}}  \n"@
}

/// The markers of the first `count` images, in order.
pub open spec fn image_markers(count: nat) -> Seq<char>
    decreases count,
{
    if count == 0 {
        Seq::empty()
    } else {
        image_markers((count - 1) as nat) + image_marker((count - 1) as nat)
    }
}

/// The document of an article: the front matter, the normalized text, and one
/// marker for each image.
pub open spec fn markdown(article: ArticleView, year: nat, article_index: nat) -> Seq<char> {
    front_matter_head(article) + thumbnail_line(year, article_index, article.images.len())
        + resources_block(year, article_index, article.images.len()) + "---\n\n"@ + article.text
        + image_markers(article.images.len())
}

/// The index page of a year.
pub open spec fn series_index(year: nat) -> Seq<char> {
    "---\n"@ + "title: Einsätze "@ + decimal(year) + "\n"@ + "nested: false\n"@ + "---\n"@
}

fn render_front_matter_head(article: &Article) -> (out: String)
    ensures
        out@ == front_matter_head(article@),
{
    let mut out = String::from_str("---\n");
    out.append("title: ");
    out.append(article.title.as_str());
    out.append("\n");
    out.append("date: ");
    out.append(article.date.as_str());
    out.append("\n");
    out.append("description: ");
    out.append(article.title.as_str());
    out.append("\n");
    out
}

fn render_thumbnail_line(year: u32, article_index: usize, image_count: usize) -> (out: String)
    ensures
        out@ == thumbnail_line(year as nat, article_index as nat, image_count as nat),
{
    let mut out = String::from_str("thumbnail: ");
    if image_count == 0 {
        out.append(DEFAULT_THUMBNAIL);
    } else {
        out.append(thumbnail_file(year, article_index).as_str());
    }
    out.append("\n");
    out
}

fn render_resource_name(image_index: usize) -> (out: String)
    ensures
        out@ == resource_name(image_index as nat),
{
    let mut out = String::from_str("img-");
    out.append(Article::format_image_index(image_index).as_str());
    out
}

fn render_resource_entry(year: u32, article_index: usize, image_index: usize) -> (out: String)
    ensures
        out@ == resource_entry(year as nat, article_index as nat, image_index as nat),
{
    let mut out = String::from_str("- name: ");
    out.append(render_resource_name(image_index).as_str());
    out.append("\n");
    out.append("  src: img/");
    out.append(image_name(year, article_index, image_index).as_str());
    out.append("\n");
    out
}

fn render_resources_block(year: u32, article_index: usize, image_count: usize) -> (out: String)
    ensures
        out@ == resources_block(year as nat, article_index as nat, image_count as nat),
{
    if image_count == 0 {
        return String::new();
    }
    let mut entries = String::new();
    let mut image_index: usize = 0;
    while image_index < image_count
        invariant
            image_index <= image_count,
            entries@ == resource_entries(year as nat, article_index as nat, image_index as nat),
        decreases image_count - image_index,
    {
        entries.append(render_resource_entry(year, article_index, image_index).as_str());
        image_index = image_index + 1;
    }
    let mut out = String::from_str("resources:\n");
    out.append(entries.as_str());
    out
}

fn render_image_marker(image_index: usize) -> (out: String)
    ensures
        out@ == image_marker(image_index as nat),
{
    let mut out = String::from_str("{{< image src=\"");
    out.append(render_resource_name(image_index).as_str());
    out.append("\" >}}  \n");
    out
}

fn render_image_markers(image_count: usize) -> (out: String)
    ensures
        out@ == image_markers(image_count as nat),
{
    let mut out = String::new();
    let mut image_index: usize = 0;
    while image_index < image_count
        invariant
            image_index <= image_count,
            out@ == image_markers(image_index as nat),
        decreases image_count - image_index,
    {
        out.append(render_image_marker(image_index).as_str());
        image_index = image_index + 1;
    }
    out
}

impl Article {
    /// The document of this article, as the `index`-th article of `year`.
    pub fn to_markdown(&self, year: u32, index: usize) -> (output: String)
        ensures
            output@ == markdown(self@, year as nat, index as nat),
    {
        let image_count: usize = self.images.len();
        let mut output = render_front_matter_head(self);
        output.append(render_thumbnail_line(year, index, image_count).as_str());
        output.append(render_resources_block(year, index, image_count).as_str());
        output.append("---\n\n");
        output.append(self.text.as_str());
        output.append(render_image_markers(image_count).as_str());
        output
    }

    /// An article's position, zero-padded to four digits.
    pub fn format_article_index(index: usize) -> (text: String)
        ensures
            text@ == article_index_text(index as nat),
    {
        zero_padded_string(index as u64, ARTICLE_INDEX_WIDTH)
    }

    /// An image's position, zero-padded to two digits.
    pub fn format_image_index(index: usize) -> (text: String)
        ensures
            text@ == image_index_text(index as nat),
    {
        zero_padded_string(index as u64, IMAGE_INDEX_WIDTH)
    }
}

impl YearArticles {
    /// The index page of this year.
    pub fn series_index(&self) -> (output: String)
        ensures
            output@ == series_index(self.year as nat),
    {
        let mut output = String::from_str("---\n");
        output.append("title: Einsätze ");
        output.append(decimal_string(self.year as u64).as_str());
        output.append("\n");
        output.append("nested: false\n");
        output.append("---\n");
        output
    }
}

} // verus!
