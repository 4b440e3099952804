use tagesschau::{
    collect_articles, sort_by_date, text_articles, video_articles, Articles, Content, Error,
    TextArticle, Video,
};

fn text(title: &str, date: i64) -> TextArticle {
    TextArticle {
        title: title.to_string(),
        first_sentence: "s".to_string(),
        date,
        url: "https://example.org/a".to_string(),
        tags: None,
        ressort: None,
        kind: "story".to_string(),
        breaking_news: None,
        image: None,
    }
}

fn video(title: &str, date: i64) -> Video {
    Video {
        title: title.to_string(),
        date,
        streams: vec![("h264".to_string(), "https://example.org/v".to_string())],
        tags: None,
        ressort: None,
        kind: "video".to_string(),
        breaking_news: None,
        image: None,
    }
}

fn titles(list: &[Content]) -> Vec<String> {
    list.iter()
        .map(|c| match c {
            Content::TextArticle(t) => t.title().to_string(),
            Content::Video(v) => v.title().to_string(),
        })
        .collect()
}

#[test]
fn sort_orders_by_publish_instant() {
    let sorted = sort_by_date(vec![
        Content::TextArticle(text("late", 30)),
        Content::Video(video("early", 10)),
        Content::TextArticle(text("middle", 20)),
    ]);
    assert_eq!(titles(&sorted), vec!["early", "middle", "late"]);
}

#[test]
fn sort_is_stable_on_equal_instants() {
    let sorted = sort_by_date(vec![
        Content::TextArticle(text("b", 20)),
        Content::TextArticle(text("first-of-ties", 10)),
        Content::Video(video("second-of-ties", 10)),
        Content::TextArticle(text("third-of-ties", 10)),
    ]);
    assert_eq!(
        titles(&sorted),
        vec!["first-of-ties", "second-of-ties", "third-of-ties", "b"]
    );
}

#[test]
fn collect_concatenates_and_sorts() {
    let outcomes = vec![
        Ok(Articles {
            news: vec![Content::TextArticle(text("day1", 50))],
        }),
        Ok(Articles {
            news: vec![
                Content::Video(video("day2-a", 40)),
                Content::TextArticle(text("day2-b", 60)),
            ],
        }),
    ];
    let merged = collect_articles(outcomes).unwrap();
    assert_eq!(titles(&merged), vec!["day2-a", "day1", "day2-b"]);
}

#[test]
fn first_failing_date_aborts_the_whole_aggregate() {
    let outcomes = vec![
        Ok(Articles {
            news: vec![Content::TextArticle(text("day1", 1))],
        }),
        Err(Error::InvalidResponse(404)),
        Ok(Articles {
            news: vec![Content::TextArticle(text("day3", 3))],
        }),
        Err(Error::RequestFailed),
    ];
    let r = collect_articles(outcomes);
    assert!(matches!(r, Err(Error::InvalidResponse(404))));
}

#[test]
fn collect_of_no_outcomes_is_empty() {
    let r = collect_articles(vec![]).unwrap();
    assert!(r.is_empty());
}

#[test]
fn text_only_keeps_the_text_items_in_order() {
    let mixed = vec![
        Content::Video(video("v1", 1)),
        Content::TextArticle(text("t1", 2)),
        Content::Video(video("v2", 3)),
        Content::TextArticle(text("t2", 4)),
        Content::Video(video("v3", 5)),
    ];
    let texts = text_articles(mixed.clone());
    assert_eq!(texts.len(), 2);
    assert_eq!(texts[0].title(), "t1");
    assert_eq!(texts[1].title(), "t2");

    let videos = video_articles(mixed);
    assert_eq!(videos.len(), 3);
    assert_eq!(videos[0].title(), "v1");
    assert_eq!(videos[1].title(), "v2");
    assert_eq!(videos[2].title(), "v3");
}

#[test]
fn content_variant_tests_and_conversions() {
    let t = Content::TextArticle(text("t", 1));
    let v = Content::Video(video("v", 2));
    assert!(t.is_text());
    assert!(!t.is_video());
    assert!(v.is_video());
    assert!(!v.is_text());
    assert_eq!(t.clone().to_text().unwrap().title(), "t");
    assert_eq!(v.clone().to_video().unwrap().title(), "v");
    assert!(matches!(t.to_video(), Err(Error::ConversionError)));
    assert!(matches!(v.to_text(), Err(Error::ConversionError)));
}
