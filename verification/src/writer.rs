//! The writer: what is written where, and in which order.
//!
//! The library touches no file. It hands out one [`Action`] at a time; the
//! caller carries it out and reports what came of it as an [`Event`]. The
//! paths in an action are relative: destinations to the output root, the
//! source of a copy to the root of the legacy assets.
//!
//! A year whose directory exists is left alone. Within a year, an article
//! whose markdown file exists is left alone. The first failure ends the run.

use vstd::prelude::*;
use crate::article::{markdown, series_index, strings_view, Article, ArticleView, YearArticles,
    YearArticlesView};
use crate::layout::{
    article_dir, article_dir_path, image_dir, image_dir_path, image_file, image_path,
    markdown_file, markdown_path, series_dir, series_dir_path, series_index_file,
    series_index_path, thumbnail_dir, thumbnail_dir_path, thumbnail_file, thumbnail_path,
};

verus! {

/// One thing for the caller to do.
#[derive(Debug, Clone, PartialEq, Eq)]
pub enum Action {
    /// Find out whether the path exists, and answer with [`Event::Exists`].
    Probe { path: String },
    /// Create the directory and the directories above it that are missing.
    CreateDirAll { path: String },
    /// Create the directory; it is a failure if it exists.
    CreateDir { path: String },
    /// Write the file.
    WriteFile { path: String, content: String },
    /// Copy a legacy asset to the output tree.
    CopyFile { source: String, destination: String },
    /// Nothing is left to do for this year.
    Finish,
    /// The run has failed; nothing more is to be done.
    Abort,
}

/// What an [`Action`] holds, as mathematical sequences.
pub enum ActionView {
    Probe { path: Seq<char> },
    CreateDirAll { path: Seq<char> },
    CreateDir { path: Seq<char> },
    WriteFile { path: Seq<char>, content: Seq<char> },
    CopyFile { source: Seq<char>, destination: Seq<char> },
    Finish,
    Abort,
}

impl View for Action {
    type V = ActionView;

    open spec fn view(&self) -> ActionView {
        match self {
            Action::Probe { path } => ActionView::Probe { path: path@ },
            Action::CreateDirAll { path } => ActionView::CreateDirAll { path: path@ },
            Action::CreateDir { path } => ActionView::CreateDir { path: path@ },
            Action::WriteFile { path, content } => ActionView::WriteFile {
                path: path@,
                content: content@,
            },
            Action::CopyFile { source, destination } => ActionView::CopyFile {
                source: source@,
                destination: destination@,
            },
            Action::Finish => ActionView::Finish,
            Action::Abort => ActionView::Abort,
        }
    }
}

impl ActionView {
    /// Whether carrying out the action changes the output tree.
    pub open spec fn changes_files(self) -> bool {
        self is CreateDirAll || self is CreateDir || self is WriteFile || self is CopyFile
    }
}

/// The contents of a list of actions.
pub open spec fn actions_view(actions: Seq<Action>) -> Seq<ActionView> {
    actions.map_values(|a: Action| a@)
}

/// What the caller reports.
#[derive(Debug, Clone, Copy, PartialEq, Eq)]
pub enum Event {
    /// The run begins.
    Start,
    /// The answer to a [`Action::Probe`].
    Exists(bool),
    /// The action was carried out.
    Completed,
    /// The action failed.
    Failed,
}

/// Where the writer stands. Each stage but the first and the last two waits
/// for the outcome of the action that was handed out last.
#[derive(Debug, Clone, Copy, PartialEq, Eq)]
pub enum Stage {
    NotStarted,
    /// Asked whether the year's directory exists.
    ProbingYear,
    /// Asked for the year's directory.
    CreatingSeriesDir,
    /// Asked for the year's thumbnail directory.
    CreatingThumbnailDir,
    /// Asked whether the article's markdown file exists.
    ProbingArticle { article: usize },
    /// Asked for the step `step` of the article; `skipped` tells whether its
    /// markdown file was found.
    Writing { article: usize, skipped: bool, step: usize },
    Finished,
    Aborted,
}

/// A list of no action or one.
pub open spec fn optional(action: Option<ActionView>) -> Seq<ActionView> {
    match action {
        Some(action) => seq![action],
        None => Seq::empty(),
    }
}

/// The write of an article's markdown file; none if the file exists.
pub open spec fn markdown_write(article: ArticleView, year: nat, article_index: nat, exists: bool)
    -> Option<ActionView> {
    if exists {
        None
    } else {
        Some(
            ActionView::WriteFile {
                path: markdown_path(year, article_index),
                content: markdown(article, year, article_index),
            },
        )
    }
}

/// The write of the year's index page.
pub open spec fn series_index_write(year: nat) -> ActionView {
    ActionView::WriteFile { path: series_index_path(year), content: series_index(year) }
}

/// The copy of the article's first image to its thumbnail; none for an
/// article without images.
pub open spec fn thumbnail_copy(article: ArticleView, year: nat, article_index: nat) -> Option<
    ActionView,
> {
    if article.images.len() == 0 {
        None
    } else {
        Some(
            ActionView::CopyFile {
                source: article.images[0],
                destination: thumbnail_path(year, article_index),
            },
        )
    }
}

/// The copy of one image under its new name.
pub open spec fn image_copy(year: nat, article_index: nat, image_index: nat, source: Seq<char>)
    -> ActionView {
    ActionView::CopyFile { source, destination: image_path(year, article_index, image_index) }
}

/// The copies of an article's images, in the order of the images.
pub open spec fn image_copies(year: nat, article_index: nat, images: Seq<Seq<char>>) -> Seq<
    ActionView,
> {
    Seq::new(images.len(), |j: int| image_copy(year, article_index, j as nat, images[j]))
}

/// What writes an article: its directory, its markdown file, its image
/// directory, and the copies of its images. Nothing if the markdown file
/// exists.
pub open spec fn article_write(article: ArticleView, year: nat, article_index: nat, exists: bool)
    -> Seq<ActionView> {
    if exists {
        Seq::empty()
    } else {
        seq![ActionView::CreateDir { path: article_dir(year, article_index) }] + optional(
            markdown_write(article, year, article_index, exists),
        ) + seq![ActionView::CreateDir { path: image_dir(year, article_index) }] + image_copies(
            year,
            article_index,
            article.images,
        )
    }
}

/// The steps that an article takes, in order: what writes it, the copy of
/// its thumbnail, and the refresh of the year's index page. An article whose
/// markdown file exists takes the last step only.
pub open spec fn article_steps(article: ArticleView, year: nat, article_index: nat, exists: bool)
    -> Seq<ActionView> {
    article_write(article, year, article_index, exists) + (if exists {
        Seq::empty()
    } else {
        optional(thumbnail_copy(article, year, article_index))
    }) + seq![series_index_write(year)]
}

/// The probe of the article `article`, or the end of the year if there is
/// no such article.
pub open spec fn begin_article(bundle: YearArticlesView, article: usize) -> (Stage, ActionView) {
    if article < bundle.articles.len() {
        (
            Stage::ProbingArticle { article },
            ActionView::Probe { path: markdown_path(bundle.year, article as nat) },
        )
    } else {
        (Stage::Finished, ActionView::Finish)
    }
}

/// The writer's next stage and action.
///
/// - The run begins with the probe of the year's directory. If it exists,
///   the year is finished at once.
/// - Else the year's directory and its thumbnail directory are created, and
///   the articles follow in order: the probe of the markdown file, then the
///   article's steps (see [`article_steps`]), one by one.
/// - A failure, or an event that answers nothing that was asked, aborts the
///   run. A run that is finished or aborted stays so.
pub open spec fn step(bundle: YearArticlesView, stage: Stage, event: Event) -> (Stage, ActionView) {
    match (stage, event) {
        (Stage::Finished, _) => (Stage::Finished, ActionView::Finish),
        (Stage::NotStarted, Event::Start) => (
            Stage::ProbingYear,
            ActionView::Probe { path: series_dir(bundle.year) },
        ),
        (Stage::ProbingYear, Event::Exists(true)) => (Stage::Finished, ActionView::Finish),
        (Stage::ProbingYear, Event::Exists(false)) => (
            Stage::CreatingSeriesDir,
            ActionView::CreateDirAll { path: series_dir(bundle.year) },
        ),
        (Stage::CreatingSeriesDir, Event::Completed) => (
            Stage::CreatingThumbnailDir,
            ActionView::CreateDirAll { path: thumbnail_dir(bundle.year) },
        ),
        (Stage::CreatingThumbnailDir, Event::Completed) => begin_article(bundle, 0),
        (Stage::ProbingArticle { article }, Event::Exists(skipped)) => if article
            < bundle.articles.len() {
            (
                Stage::Writing { article, skipped, step: 0 },
                article_steps(
                    bundle.articles[article as int],
                    bundle.year,
                    article as nat,
                    skipped,
                )[0],
            )
        } else {
            (Stage::Aborted, ActionView::Abort)
        },
        (Stage::Writing { article, skipped, step }, Event::Completed) => if article
            < bundle.articles.len() {
            let steps = article_steps(
                bundle.articles[article as int],
                bundle.year,
                article as nat,
                skipped,
            );
            if step + 1 < steps.len() {
                (
                    Stage::Writing { article, skipped, step: (step + 1) as usize },
                    steps[step + 1],
                )
            } else {
                begin_article(bundle, (article + 1) as usize)
            }
        } else {
            (Stage::Aborted, ActionView::Abort)
        },
        _ => (Stage::Aborted, ActionView::Abort),
    }
}

/// The actions that the writer hands out for a sequence of events, from the
/// stage `stage` on.
pub open spec fn trace(bundle: YearArticlesView, stage: Stage, events: Seq<Event>) -> Seq<
    ActionView,
>
    decreases events.len(),
{
    if events.len() == 0 {
        Seq::empty()
    } else {
        let (next, action) = step(bundle, stage, events[0]);
        seq![action] + trace(bundle, next, events.skip(1))
    }
}

impl Article {
    /// The write of this article's markdown file, as the `article_index`-th
    /// article of `year`. If the file exists it is not written again.
    pub fn write(&self, year: u32, article_index: usize, exists: bool) -> (action: Option<Action>)
        ensures
            match action {
                Some(action) => markdown_write(self@, year as nat, article_index as nat, exists)
                    == Some(action@),
                None => markdown_write(self@, year as nat, article_index as nat, exists) is None,
            },
    {
        if exists {
            None
        } else {
            Some(
                Action::WriteFile {
                    path: markdown_file(year, article_index),
                    content: self.to_markdown(year, article_index),
                },
            )
        }
    }
}

impl YearArticles {
    /// The write of the year's index page.
    pub fn write_series_index(&self) -> (action: Action)
        ensures
            action@ == series_index_write(self.year as nat),
    {
        Action::WriteFile { path: series_index_file(self.year), content: self.series_index() }
    }

    /// The copy of the article's first image to its thumbnail; none for an
    /// article without images.
    pub fn copy_thumbnail(&self, article: &Article, article_index: usize) -> (action: Option<
        Action,
    >)
        ensures
            match action {
                Some(action) => thumbnail_copy(article@, self.year as nat, article_index as nat)
                    == Some(action@),
                None => thumbnail_copy(article@, self.year as nat, article_index as nat) is None,
            },
    {
        if article.images.len() == 0 {
            None
        } else {
            Some(
                Action::CopyFile {
                    source: article.images[0].clone(),
                    destination: thumbnail_file(self.year, article_index),
                },
            )
        }
    }

    /// The copies of an article's images under their new names, in the order
    /// of the images.
    pub fn copy_images(&self, article_index: usize, images: &Vec<String>) -> (actions: Vec<
        Action,
    >)
        ensures
            actions_view(actions@) == image_copies(
                self.year as nat,
                article_index as nat,
                strings_view(images@),
            ),
    {
        let mut actions: Vec<Action> = Vec::new();
        let mut image_index: usize = 0;
        while image_index < images.len()
            invariant
                image_index <= images.len(),
                actions.len() == image_index,
                forall|k: int|
                    0 <= k < image_index ==> (#[trigger] actions@[k])@ == image_copy(
                        self.year as nat,
                        article_index as nat,
                        k as nat,
                        images@[k]@,
                    ),
            decreases images.len() - image_index,
        {
            actions.push(
                Action::CopyFile {
                    source: images[image_index].clone(),
                    destination: image_file(self.year, article_index, image_index),
                },
            );
            image_index = image_index + 1;
        }
        assert(actions_view(actions@) =~= image_copies(
            self.year as nat,
            article_index as nat,
            strings_view(images@),
        ));
        actions
    }

    /// What writes an article: its directory, its markdown file, its image
    /// directory, and the copies of its images. Nothing if the markdown file
    /// exists.
    pub fn write_article(&self, article: &Article, article_index: usize, exists: bool) -> (actions:
        Vec<Action>)
        ensures
            actions_view(actions@) == article_write(
                article@,
                self.year as nat,
                article_index as nat,
                exists,
            ),
    {
        let mut actions: Vec<Action> = Vec::new();
        if exists {
            assert(actions_view(actions@) =~= Seq::<ActionView>::empty());
            return actions;
        }
        actions.push(Action::CreateDir { path: article_dir_path(self.year, article_index) });
        match article.write(self.year, article_index, exists) {
            Some(action) => {
                actions.push(action);
            },
            None => {},
        }
        actions.push(Action::CreateDir { path: image_dir_path(self.year, article_index) });
        let ghost head = actions_view(actions@);
        let mut copies = self.copy_images(article_index, &article.images);
        let ghost tail = actions_view(copies@);
        actions.append(&mut copies);
        assert(actions_view(actions@) =~= head + tail);
        assert(head =~= seq![
            ActionView::CreateDir { path: article_dir(self.year as nat, article_index as nat) },
        ] + optional(markdown_write(article@, self.year as nat, article_index as nat, exists))
            + seq![
            ActionView::CreateDir { path: image_dir(self.year as nat, article_index as nat) },
        ]);
        actions
    }

    /// The steps that `article` takes as the article at `article_index`, in
    /// order.
    pub fn article_steps(&self, article: &Article, article_index: usize, exists: bool) -> (actions:
        Vec<Action>)
        ensures
            actions_view(actions@) == article_steps(
                article@,
                self.year as nat,
                article_index as nat,
                exists,
            ),
            actions@.len() >= 1,
    {
        let mut actions = self.write_article(article, article_index, exists);
        let ghost written = actions_view(actions@);
        if !exists {
            match self.copy_thumbnail(article, article_index) {
                Some(action) => {
                    actions.push(action);
                },
                None => {},
            }
        }
        let ghost copied = actions_view(actions@);
        assert(copied =~= written + (if exists {
            Seq::empty()
        } else {
            optional(thumbnail_copy(article@, self.year as nat, article_index as nat))
        }));
        actions.push(self.write_series_index());
        assert(actions_view(actions@) =~= copied + seq![series_index_write(self.year as nat)]);
        actions
    }

    /// The probe of the article at `article`, or the end of the year.
    fn begin_article(&self, article: usize) -> (next: (Stage, Action))
        ensures
            (next.0, next.1@) == begin_article(self@, article),
    {
        if article < self.articles.len() {
            (
                Stage::ProbingArticle { article },
                Action::Probe { path: markdown_file(self.year, article) },
            )
        } else {
            (Stage::Finished, Action::Finish)
        }
    }

    /// Takes the writer from `stage` to its next stage, given what the
    /// caller reports, and says what the caller is to do next. See [`step`].
    ///
    /// A run starts at [`Stage::NotStarted`] with [`Event::Start`] and is
    /// over when the action is [`Action::Finish`] or [`Action::Abort`].
    pub fn write_articles(&self, stage: Stage, event: Event) -> (next: (Stage, Action))
        ensures
            (next.0, next.1@) == step(self@, stage, event),
    {
        match (stage, event) {
            (Stage::Finished, _) => (Stage::Finished, Action::Finish),
            (Stage::NotStarted, Event::Start) => (
                Stage::ProbingYear,
                Action::Probe { path: series_dir_path(self.year) },
            ),
            (Stage::ProbingYear, Event::Exists(true)) => (Stage::Finished, Action::Finish),
            (Stage::ProbingYear, Event::Exists(false)) => (
                Stage::CreatingSeriesDir,
                Action::CreateDirAll { path: series_dir_path(self.year) },
            ),
            (Stage::CreatingSeriesDir, Event::Completed) => (
                Stage::CreatingThumbnailDir,
                Action::CreateDirAll { path: thumbnail_dir_path(self.year) },
            ),
            (Stage::CreatingThumbnailDir, Event::Completed) => self.begin_article(0),
            (Stage::ProbingArticle { article }, Event::Exists(skipped)) => {
                if article < self.articles.len() {
                    assert(self@.articles[article as int] == self.articles@[article as int]@);
                    let mut steps = self.article_steps(&self.articles[article], article, skipped);
                    let action = steps.swap_remove(0);
                    (Stage::Writing { article, skipped, step: 0 }, action)
                } else {
                    (Stage::Aborted, Action::Abort)
                }
            },
            (Stage::Writing { article, skipped, step }, Event::Completed) => {
                if article < self.articles.len() {
                    assert(self@.articles[article as int] == self.articles@[article as int]@);
                    let mut steps = self.article_steps(&self.articles[article], article, skipped);
                    if step < steps.len() - 1 {
                        let action = steps.swap_remove(step + 1);
                        (Stage::Writing { article, skipped, step: step + 1 }, action)
                    } else {
                        self.begin_article(article + 1)
                    }
                } else {
                    (Stage::Aborted, Action::Abort)
                }
            },
            _ => (Stage::Aborted, Action::Abort),
        }
    }
}

/// A run that is finished hands out nothing but [`Action::Finish`].
pub proof fn lemma_finished_stays_finished(bundle: YearArticlesView, events: Seq<Event>)
    ensures
        trace(bundle, Stage::Finished, events).len() == events.len(),
        forall|k: int|
            0 <= k < events.len() ==> (#[trigger] trace(bundle, Stage::Finished, events)[k])
                is Finish,
    decreases events.len(),
{
    if events.len() > 0 {
        lemma_finished_stays_finished(bundle, events.skip(1));
    }
}

/// A run that is aborted hands out nothing but [`Action::Abort`].
pub proof fn lemma_aborted_stays_aborted(bundle: YearArticlesView, events: Seq<Event>)
    ensures
        trace(bundle, Stage::Aborted, events).len() == events.len(),
        forall|k: int|
            0 <= k < events.len() ==> (#[trigger] trace(bundle, Stage::Aborted, events)[k])
                is Abort,
    decreases events.len(),
{
    if events.len() > 0 {
        lemma_aborted_stays_aborted(bundle, events.skip(1));
    }
}

/// A year that was migrated is left alone: if the year's directory exists
/// when the run starts, the run asks for that directory and then is
/// finished, and whatever the caller reports afterwards, no action of the
/// run changes a file.
pub proof fn lemma_migrated_year_is_left_alone(bundle: YearArticlesView, later: Seq<Event>)
    ensures
        ({
            let actions = trace(
                bundle,
                Stage::NotStarted,
                seq![Event::Start, Event::Exists(true)] + later,
            );
            &&& actions.len() == later.len() + 2
            &&& actions[0] == (ActionView::Probe { path: series_dir(bundle.year) })
            &&& forall|k: int| 1 <= k < actions.len() ==> (#[trigger] actions[k]) is Finish
            &&& forall|k: int| 0 <= k < actions.len() ==> !(#[trigger] actions[k]).changes_files()
        }),
{
    let events = seq![Event::Start, Event::Exists(true)] + later;
    assert(events.skip(1).skip(1) =~= later);
    lemma_finished_stays_finished(bundle, later);
    let actions = trace(bundle, Stage::NotStarted, events);
    let second = trace(bundle, Stage::ProbingYear, events.skip(1));
    assert(second =~= seq![ActionView::Finish] + trace(bundle, Stage::Finished, later));
    assert(actions =~= seq![ActionView::Probe { path: series_dir(bundle.year) }] + second);
    assert forall|k: int| 1 <= k < actions.len() implies (#[trigger] actions[k]) is Finish by {
        if k >= 2 {
            assert(actions[k] == trace(bundle, Stage::Finished, later)[k - 2]);
        }
    }
}

/// A run that is not skipped begins its changes with the year's directory:
/// the directory that the next run asks for. Its creation is the first
/// action after the probe.
pub proof fn lemma_run_creates_year_directory_first(bundle: YearArticlesView)
    ensures
        trace(bundle, Stage::NotStarted, seq![Event::Start, Event::Exists(false)]) == seq![
            ActionView::Probe { path: series_dir(bundle.year) },
            ActionView::CreateDirAll { path: series_dir(bundle.year) },
        ],
{
    let events = seq![Event::Start, Event::Exists(false)];
    assert(events.skip(1).skip(1) =~= Seq::<Event>::empty());
    let second = trace(bundle, Stage::ProbingYear, events.skip(1));
    assert(events.skip(1)[0] == Event::Exists(false));
    assert(trace(bundle, Stage::CreatingSeriesDir, events.skip(1).skip(1)) =~= Seq::<
        ActionView,
    >::empty());
    assert(second =~= seq![ActionView::CreateDirAll { path: series_dir(bundle.year) }]);
    assert(trace(bundle, Stage::NotStarted, events) =~= seq![
        ActionView::Probe { path: series_dir(bundle.year) },
    ] + second);
}

/// An article that was written is left alone: if its markdown file exists,
/// the one step that the article takes is the refresh of the year's index
/// page, and the next article follows. Neither its markdown file nor its
/// directories nor its images are touched.
pub proof fn lemma_written_article_is_left_alone(bundle: YearArticlesView, article: usize)
    requires
        article < bundle.articles.len(),
    ensures
        article_steps(bundle.articles[article as int], bundle.year, article as nat, true) == seq![
            series_index_write(bundle.year),
        ],
        step(bundle, Stage::ProbingArticle { article }, Event::Exists(true)) == (
            Stage::Writing { article, skipped: true, step: 0 },
            series_index_write(bundle.year),
        ),
        step(bundle, Stage::Writing { article, skipped: true, step: 0 }, Event::Completed)
            == begin_article(bundle, (article + 1) as usize),
{
    let steps = article_steps(bundle.articles[article as int], bundle.year, article as nat, true);
    assert(steps =~= seq![series_index_write(bundle.year)]);
}

/// The first failure ends the run: from any stage but the finished one, a
/// failure is answered with [`Action::Abort`], and so is whatever the caller
/// reports afterwards. No file is changed after a failure.
pub proof fn lemma_failure_ends_the_run(bundle: YearArticlesView, stage: Stage, later: Seq<Event>)
    requires
        stage != Stage::Finished,
    ensures
        ({
            let actions = trace(bundle, stage, seq![Event::Failed] + later);
            &&& actions.len() == later.len() + 1
            &&& forall|k: int| 0 <= k < actions.len() ==> (#[trigger] actions[k]) is Abort
        }),
{
    let events = seq![Event::Failed] + later;
    assert(events.skip(1) =~= later);
    lemma_aborted_stays_aborted(bundle, later);
    let actions = trace(bundle, stage, events);
    assert(actions =~= seq![ActionView::Abort] + trace(bundle, Stage::Aborted, later));
    assert forall|k: int| 0 <= k < actions.len() implies (#[trigger] actions[k]) is Abort by {
        if k >= 1 {
            assert(actions[k] == trace(bundle, Stage::Aborted, later)[k - 1]);
        }
    }
}

/// The stage that the writer has reached after a sequence of events.
pub open spec fn stage_after(bundle: YearArticlesView, stage: Stage, events: Seq<Event>) -> Stage
    decreases events.len(),
{
    if events.len() == 0 {
        stage
    } else {
        stage_after(bundle, step(bundle, stage, events[0]).0, events.skip(1))
    }
}

/// `count` reports that an action was carried out.
pub open spec fn completions(count: nat) -> Seq<Event> {
    Seq::new(count, |k: int| Event::Completed)
}

/// Whether the bundle's step lists can be counted by the machine: an
/// article has five steps besides the copies of its images.
pub open spec fn steps_fit(bundle: YearArticlesView) -> bool {
    &&& bundle.articles.len() <= usize::MAX
    &&& forall|i: int|
        0 <= i < bundle.articles.len() ==> (#[trigger] bundle.articles[i]).images.len() + 5
            <= usize::MAX
}

/// What the caller reports from the article `from` on, in a run in which
/// nothing fails and `written(i)` tells whether the markdown file of the
/// article `i` exists. For each article: that the action before it was
/// carried out, the answer to the probe, and that each step but the last was
/// carried out. At the end: that the last action was carried out.
pub open spec fn events_from(bundle: YearArticlesView, from: nat, written: spec_fn(int) -> bool)
    -> Seq<Event>
    decreases bundle.articles.len() - from,
{
    if from >= bundle.articles.len() {
        seq![Event::Completed]
    } else {
        let steps = article_steps(
            bundle.articles[from as int],
            bundle.year,
            from,
            written(from as int),
        );
        seq![Event::Completed, Event::Exists(written(from as int))] + completions(
            (steps.len() - 1) as nat,
        ) + events_from(bundle, from + 1, written)
    }
}

/// What is to be done from the article `from` on: for each article in
/// order, the probe of its markdown file and then its steps; at the end,
/// nothing more.
pub open spec fn actions_from(bundle: YearArticlesView, from: nat, written: spec_fn(int) -> bool)
    -> Seq<ActionView>
    decreases bundle.articles.len() - from,
{
    if from >= bundle.articles.len() {
        seq![ActionView::Finish]
    } else {
        seq![ActionView::Probe { path: markdown_path(bundle.year, from) }] + article_steps(
            bundle.articles[from as int],
            bundle.year,
            from,
            written(from as int),
        ) + actions_from(bundle, from + 1, written)
    }
}

/// The actions for two sequences of events, one after the other, are those
/// for the first, and then those for the second from the stage that the
/// first has led to.
pub proof fn lemma_trace_of_two(
    bundle: YearArticlesView,
    stage: Stage,
    first: Seq<Event>,
    second: Seq<Event>,
)
    ensures
        trace(bundle, stage, first + second) == trace(bundle, stage, first) + trace(
            bundle,
            stage_after(bundle, stage, first),
            second,
        ),
        stage_after(bundle, stage, first + second) == stage_after(
            bundle,
            stage_after(bundle, stage, first),
            second,
        ),
    decreases first.len(),
{
    if first.len() == 0 {
        assert(first + second =~= second);
        assert(trace(bundle, stage, first) + trace(bundle, stage, second) =~= trace(
            bundle,
            stage,
            second,
        ));
    } else {
        let next = step(bundle, stage, first[0]).0;
        assert((first + second)[0] == first[0]);
        assert((first + second).skip(1) =~= first.skip(1) + second);
        lemma_trace_of_two(bundle, next, first.skip(1), second);
        assert(trace(bundle, stage, first + second) =~= trace(bundle, stage, first) + trace(
            bundle,
            stage_after(bundle, stage, first),
            second,
        ));
    }
}

/// Once a step of an article is handed out, the steps behind it follow one
/// by one as each is reported done, and the writer then waits for the last
/// of them.
proof fn lemma_steps_follow(bundle: YearArticlesView, article: usize, skipped: bool, at: usize)
    requires
        steps_fit(bundle),
        article < bundle.articles.len(),
        at < article_steps(
            bundle.articles[article as int],
            bundle.year,
            article as nat,
            skipped,
        ).len(),
    ensures
        ({
            let steps = article_steps(
                bundle.articles[article as int],
                bundle.year,
                article as nat,
                skipped,
            );
            let stage = Stage::Writing { article, skipped, step: at };
            let events = completions((steps.len() - 1 - at) as nat);
            &&& trace(bundle, stage, events) == steps.skip(at + 1)
            &&& stage_after(bundle, stage, events) == Stage::Writing {
                article,
                skipped,
                step: (steps.len() - 1) as usize,
            }
        }),
    decreases
            article_steps(
                bundle.articles[article as int],
                bundle.year,
                article as nat,
                skipped,
            ).len() - at,
{
    let steps = article_steps(
        bundle.articles[article as int],
        bundle.year,
        article as nat,
        skipped,
    );
    lemma_steps_count(bundle.articles[article as int], bundle.year, article as nat, skipped);
    let stage = Stage::Writing { article, skipped, step: at };
    let events = completions((steps.len() - 1 - at) as nat);
    if at + 1 < steps.len() {
        let next = Stage::Writing { article, skipped, step: (at + 1) as usize };
        assert(events[0] == Event::Completed);
        assert(step(bundle, stage, events[0]) == (next, steps[at + 1]));
        assert(events.skip(1) =~= completions((steps.len() - 2 - at) as nat));
        lemma_steps_follow(bundle, article, skipped, (at + 1) as usize);
        assert(trace(bundle, stage, events) =~= steps.skip(at + 1));
    } else {
        assert(trace(bundle, stage, events) =~= steps.skip(at + 1));
    }
}

/// An article takes one step if its markdown file exists; else five steps
/// and the copies of its images, or four for an article without images.
pub proof fn lemma_steps_count(article: ArticleView, year: nat, article_index: nat, written: bool)
    ensures
        article_steps(article, year, article_index, written).len() == (if written {
            1
        } else if article.images.len() == 0 {
            4
        } else {
            article.images.len() + 5
        }),
{
}

/// The action for one event, and the stage that it leads to.
proof fn lemma_trace_of_one(bundle: YearArticlesView, stage: Stage, event: Event)
    ensures
        trace(bundle, stage, seq![event]) == seq![step(bundle, stage, event).1],
        stage_after(bundle, stage, seq![event]) == step(bundle, stage, event).0,
{
    let events = seq![event];
    let next = step(bundle, stage, event).0;
    assert(events[0] == event);
    assert(events.skip(1) =~= Seq::<Event>::empty());
    assert(trace(bundle, next, events.skip(1)) =~= Seq::<ActionView>::empty());
    assert(stage_after(bundle, next, events.skip(1)) == next);
    assert(trace(bundle, stage, events) =~= seq![step(bundle, stage, event).1]);
}

/// The actions for two events, and the stage that they lead to.
proof fn lemma_trace_of_pair(bundle: YearArticlesView, stage: Stage, first: Event, second: Event)
    ensures
        trace(bundle, stage, seq![first, second]) == seq![
            step(bundle, stage, first).1,
            step(bundle, step(bundle, stage, first).0, second).1,
        ],
        stage_after(bundle, stage, seq![first, second]) == step(
            bundle,
            step(bundle, stage, first).0,
            second,
        ).0,
{
    let next = step(bundle, stage, first).0;
    lemma_trace_of_one(bundle, stage, first);
    lemma_trace_of_one(bundle, next, second);
    lemma_trace_of_two(bundle, stage, seq![first], seq![second]);
    assert(seq![first] + seq![second] =~= seq![first, second]);
    assert(seq![step(bundle, stage, first).1] + seq![step(bundle, next, second).1] =~= seq![
        step(bundle, stage, first).1,
        step(bundle, next, second).1,
    ]);
}

/// From a stage that waits for the last action before the article `from`,
/// that article is probed and takes its steps, and the writer then waits for
/// the last of them.
proof fn lemma_article_follows(bundle: YearArticlesView, stage: Stage, from: nat, skipped: bool)
    requires
        steps_fit(bundle),
        from < bundle.articles.len(),
        stage != Stage::Finished,
        step(bundle, stage, Event::Completed) == begin_article(bundle, from as usize),
    ensures
        ({
            let steps = article_steps(bundle.articles[from as int], bundle.year, from, skipped);
            let events = seq![Event::Completed, Event::Exists(skipped)] + completions(
                (steps.len() - 1) as nat,
            );
            let last = Stage::Writing {
                article: from as usize,
                skipped,
                step: (steps.len() - 1) as usize,
            };
            &&& trace(bundle, stage, events) == seq![
                ActionView::Probe { path: markdown_path(bundle.year, from) },
            ] + steps
            &&& stage_after(bundle, stage, events) == last
            &&& step(bundle, last, Event::Completed) == begin_article(
                bundle,
                (from + 1) as usize,
            )
        }),
{
    let article = from as usize;
    let steps = article_steps(bundle.articles[from as int], bundle.year, from, skipped);
    lemma_steps_count(bundle.articles[from as int], bundle.year, from, skipped);
    let head = seq![Event::Completed, Event::Exists(skipped)];
    let tail = completions((steps.len() - 1) as nat);
    let probing = Stage::ProbingArticle { article };
    let first = Stage::Writing { article, skipped, step: 0 };
    let probe = ActionView::Probe { path: markdown_path(bundle.year, from) };
    assert(step(bundle, stage, Event::Completed) == (probing, probe));
    assert(step(bundle, probing, Event::Exists(skipped)) == (first, steps[0]));
    lemma_trace_of_pair(bundle, stage, Event::Completed, Event::Exists(skipped));
    lemma_steps_follow(bundle, article, skipped, 0);
    lemma_trace_of_two(bundle, stage, head, tail);
    assert(seq![probe, steps[0]] + steps.skip(1) =~= seq![probe] + steps);
}

/// From a stage that waits for the last action before the article `from`,
/// the articles are written in order.
proof fn lemma_articles_follow(
    bundle: YearArticlesView,
    stage: Stage,
    from: nat,
    written: spec_fn(int) -> bool,
)
    requires
        steps_fit(bundle),
        from <= bundle.articles.len(),
        stage != Stage::Finished,
        step(bundle, stage, Event::Completed) == begin_article(bundle, from as usize),
    ensures
        trace(bundle, stage, events_from(bundle, from, written)) == actions_from(
            bundle,
            from,
            written,
        ),
    decreases bundle.articles.len() - from,
{
    if from >= bundle.articles.len() {
        lemma_trace_of_one(bundle, stage, Event::Completed);
    } else {
        let skipped = written(from as int);
        let steps = article_steps(bundle.articles[from as int], bundle.year, from, skipped);
        let block = seq![Event::Completed, Event::Exists(skipped)] + completions(
            (steps.len() - 1) as nat,
        );
        let rest = events_from(bundle, from + 1, written);
        let last = Stage::Writing {
            article: from as usize,
            skipped,
            step: (steps.len() - 1) as usize,
        };
        lemma_article_follows(bundle, stage, from, skipped);
        lemma_articles_follow(bundle, last, from + 1, written);
        lemma_trace_of_two(bundle, stage, block, rest);
    }
}

/// A year that was not migrated is written in order: after the probe of the
/// year's directory, that directory and the thumbnail directory are created;
/// then, for each article in the order of the bundle, its markdown file is
/// probed and its steps are taken (see [`article_steps`]: the article is
/// written, its images and its thumbnail are copied, and the year's index
/// page is refreshed; an article whose markdown file exists takes the last
/// step only); then the run is finished. This holds in every run in which
/// nothing fails, whichever markdown files exist.
pub proof fn lemma_new_year_is_written_in_order(
    bundle: YearArticlesView,
    written: spec_fn(int) -> bool,
)
    requires
        steps_fit(bundle),
    ensures
        trace(
            bundle,
            Stage::NotStarted,
            seq![Event::Start, Event::Exists(false), Event::Completed] + events_from(
                bundle,
                0,
                written,
            ),
        ) == seq![
            ActionView::Probe { path: series_dir(bundle.year) },
            ActionView::CreateDirAll { path: series_dir(bundle.year) },
            ActionView::CreateDirAll { path: thumbnail_dir(bundle.year) },
        ] + actions_from(bundle, 0, written),
{
    let opening = seq![Event::Start, Event::Exists(false)];
    let head = seq![Event::Start, Event::Exists(false), Event::Completed];
    let rest = events_from(bundle, 0, written);
    let series = ActionView::CreateDirAll { path: series_dir(bundle.year) };
    let thumbnails = ActionView::CreateDirAll { path: thumbnail_dir(bundle.year) };
    let probe = ActionView::Probe { path: series_dir(bundle.year) };
    lemma_trace_of_pair(bundle, Stage::NotStarted, Event::Start, Event::Exists(false));
    lemma_trace_of_one(bundle, Stage::CreatingSeriesDir, Event::Completed);
    lemma_trace_of_two(bundle, Stage::NotStarted, opening, seq![Event::Completed]);
    assert(opening + seq![Event::Completed] =~= head);
    assert(seq![probe, series] + seq![thumbnails] =~= seq![probe, series, thumbnails]);
    lemma_articles_follow(bundle, Stage::CreatingThumbnailDir, 0, written);
    lemma_trace_of_two(bundle, Stage::NotStarted, head, rest);
}

/// A model of the caller in a run in which nothing fails: `tree` is the set
/// of the paths that exist below the output root. A probe is answered from
/// the tree; every other action is carried out and leaves its destination in
/// the tree.
pub open spec fn carried_out(tree: Set<Seq<char>>, action: ActionView) -> (Event, Set<Seq<char>>) {
    match action {
        ActionView::Probe { path } => (Event::Exists(tree.contains(path)), tree),
        ActionView::CreateDirAll { path } => (Event::Completed, tree.insert(path)),
        ActionView::CreateDir { path } => (Event::Completed, tree.insert(path)),
        ActionView::WriteFile { path, content } => (Event::Completed, tree.insert(path)),
        ActionView::CopyFile { source, destination } => (
            Event::Completed,
            tree.insert(destination),
        ),
        ActionView::Finish => (Event::Completed, tree),
        ActionView::Abort => (Event::Completed, tree),
    }
}

/// The actions of a run against the model of [`carried_out`], and the tree
/// that it leaves. The run goes on from `stage` with `event` until it is
/// finished or aborted, or until `limit` actions were handed out.
pub open spec fn run(
    bundle: YearArticlesView,
    stage: Stage,
    event: Event,
    tree: Set<Seq<char>>,
    limit: nat,
) -> (Seq<ActionView>, Set<Seq<char>>)
    decreases limit,
{
    if limit == 0 {
        (Seq::empty(), tree)
    } else {
        let (next, action) = step(bundle, stage, event);
        if action is Finish || action is Abort {
            (seq![action], tree)
        } else {
            let (answer, grown) = carried_out(tree, action);
            let (later, last) = run(bundle, next, answer, grown, (limit - 1) as nat);
            (seq![action] + later, last)
        }
    }
}

/// A run takes no path out of the tree.
proof fn lemma_run_keeps_paths(
    bundle: YearArticlesView,
    stage: Stage,
    event: Event,
    tree: Set<Seq<char>>,
    limit: nat,
    path: Seq<char>,
)
    requires
        tree.contains(path),
    ensures
        run(bundle, stage, event, tree, limit).1.contains(path),
    decreases limit,
{
    if limit > 0 {
        let (next, action) = step(bundle, stage, event);
        if !(action is Finish || action is Abort) {
            let (answer, grown) = carried_out(tree, action);
            lemma_run_keeps_paths(bundle, next, answer, grown, (limit - 1) as nat, path);
        }
    }
}

/// Running twice changes nothing the second time: after a run on any tree,
/// a second run of the same bundle asks for the year's directory, finds it,
/// and is finished; it hands out no action that changes a file, and leaves
/// the tree as the first run left it. This holds of every first run that got
/// as far as its second action, whether or not it came to its end.
pub proof fn lemma_second_run_changes_nothing(
    bundle: YearArticlesView,
    tree: Set<Seq<char>>,
    first_limit: nat,
    second_limit: nat,
)
    requires
        first_limit >= 2,
        second_limit >= 2,
    ensures
        ({
            let after = run(bundle, Stage::NotStarted, Event::Start, tree, first_limit).1;
            let second = run(bundle, Stage::NotStarted, Event::Start, after, second_limit);
            &&& second.0 == seq![
                ActionView::Probe { path: series_dir(bundle.year) },
                ActionView::Finish,
            ]
            &&& second.1 == after
        }),
{
    let year_dir = series_dir(bundle.year);
    let probe = ActionView::Probe { path: year_dir };
    let after = run(bundle, Stage::NotStarted, Event::Start, tree, first_limit);
    // The first run leaves the year's directory in the tree.
    assert(step(bundle, Stage::NotStarted, Event::Start) == (Stage::ProbingYear, probe));
    let found = Event::Exists(tree.contains(year_dir));
    let rest = run(bundle, Stage::ProbingYear, found, tree, (first_limit - 1) as nat);
    assert(after.1 == rest.1);
    if tree.contains(year_dir) {
        assert(rest.1 == tree);
    } else {
        let create = ActionView::CreateDirAll { path: year_dir };
        assert(step(bundle, Stage::ProbingYear, found) == (Stage::CreatingSeriesDir, create));
        let grown = tree.insert(year_dir);
        lemma_run_keeps_paths(
            bundle,
            Stage::CreatingSeriesDir,
            Event::Completed,
            grown,
            (first_limit - 2) as nat,
            year_dir,
        );
    }
    assert(after.1.contains(year_dir));
    // The second run finds it.
    let again = run(
        bundle,
        Stage::ProbingYear,
        Event::Exists(true),
        after.1,
        (second_limit - 1) as nat,
    );
    assert(again == (seq![ActionView::Finish], after.1));
    assert(seq![probe] + seq![ActionView::Finish] =~= seq![probe, ActionView::Finish]);
}

} // verus!
