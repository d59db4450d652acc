use article_migrator::article::{Article, YearArticles};
use article_migrator::layout::{
    article_dir_path, image_dir_path, image_file, image_name, markdown_file, plan, plan_article,
    series_dir_path, series_index_file, thumbnail_dir_path, thumbnail_file,
};

fn article(date: &str, images: usize) -> Article {
    Article {
        title: "t".to_string(),
        date: date.to_string(),
        text: "x".to_string(),
        images: (0..images).map(|i| format!("old/{}.png", i)).collect(),
    }
}

fn bundle_of_twelve(year: u32) -> YearArticles {
    let articles = (0..12)
        .map(|i| article(&format!("{}-01-{:0>2} 00:00:00", year, i + 1), if i == 2 { 1 } else { 0 }))
        .collect();
    YearArticles { year, articles }
}

#[test]
fn naming_of_the_third_of_twelve() {
    for year in [2018u32, 2021] {
        let layout = plan(&bundle_of_twelve(year));
        assert_eq!(layout.articles.len(), 12);
        let third = &layout.articles[2];
        assert_eq!(third.markdown, format!("content/{}/0002/index.md", year));
        assert_eq!(third.images, vec![format!("content/{}/0002/img/{}-0002-00.jpg", year, year)]);
        assert_eq!(third.thumbnail, Some(format!("thumbnail/{}/0002.jpg", year)));
        assert_eq!(layout.year_index, format!("content/{}/_index.md", year));
    }
}

#[test]
fn planning_twice_gives_the_same_paths() {
    let bundle = bundle_of_twelve(2020);
    assert_eq!(plan(&bundle), plan(&bundle));
    assert_eq!(plan(&bundle), plan(&bundle.clone()));
}

#[test]
fn paths_of_the_year() {
    assert_eq!(series_dir_path(2021), "content/2021");
    assert_eq!(thumbnail_dir_path(2021), "thumbnail/2021");
    assert_eq!(series_index_file(2021), "content/2021/_index.md");
    assert_eq!(series_dir_path(0), "content/0");
}

#[test]
fn paths_of_an_article() {
    assert_eq!(article_dir_path(2021, 0), "content/2021/0000");
    assert_eq!(article_dir_path(2021, 11), "content/2021/0011");
    assert_eq!(markdown_file(2021, 11), "content/2021/0011/index.md");
    assert_eq!(image_dir_path(2021, 11), "content/2021/0011/img");
    assert_eq!(thumbnail_file(2021, 11), "thumbnail/2021/0011.jpg");
    assert_eq!(article_dir_path(2021, 12345), "content/2021/12345");
}

#[test]
fn images_are_renamed_to_jpg() {
    assert_eq!(image_name(2019, 3, 0), "2019-0003-00.jpg");
    assert_eq!(image_name(2019, 3, 10), "2019-0003-10.jpg");
    assert_eq!(image_file(2019, 3, 1), "content/2019/0003/img/2019-0003-01.jpg");
}

#[test]
fn article_without_images_has_no_thumbnail() {
    let layout = plan_article(2021, 4, 0);
    assert_eq!(layout.directory, "content/2021/0004");
    assert_eq!(layout.image_dir, "content/2021/0004/img");
    assert!(layout.images.is_empty());
    assert_eq!(layout.thumbnail, None);
}

#[test]
fn article_with_images_lists_them_in_order() {
    let layout = plan_article(2021, 4, 3);
    assert_eq!(
        layout.images,
        vec![
            "content/2021/0004/img/2021-0004-00.jpg",
            "content/2021/0004/img/2021-0004-01.jpg",
            "content/2021/0004/img/2021-0004-02.jpg",
        ]
    );
    assert_eq!(layout.thumbnail, Some("thumbnail/2021/0004.jpg".to_string()));
}

#[test]
fn empty_bundle_has_only_the_index() {
    let layout = plan(&YearArticles { year: 2017, articles: Vec::new() });
    assert_eq!(layout.year_index, "content/2017/_index.md");
    assert!(layout.articles.is_empty());
}
