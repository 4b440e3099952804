use tagesschau::{decode_item, decode_response, Content, Error, RawItem, Ressort};

fn text_item_json() -> &'static str {
    r#"{
        "title": "Headline",
        "firstSentence": "It begins.",
        "date": "2023-05-17T12:00:00Z",
        "detailsweb": "https://example.org/article",
        "type": "story",
        "ressort": "inland",
        "breakingNews": true,
        "tags": [{"tag": "alpha"}, {"tag": "beta"}]
    }"#
}

fn video_item_json() -> &'static str {
    r#"{
        "title": "Clip",
        "date": "2023-05-17T12:00:00+02:00",
        "type": "video",
        "streams": {"h264": "https://example.org/v.mp4", "adaptive": "https://example.org/v.m3u8"}
    }"#
}

fn body_with(items: &[&str]) -> String {
    format!(r#"{{"news": [{}]}}"#, items.join(","))
}

#[test]
fn text_item_decodes_as_text_article() {
    let body = body_with(&[text_item_json()]);
    let articles = decode_response(200, &body).unwrap();
    assert_eq!(articles.news.len(), 1);
    match &articles.news[0] {
        Content::TextArticle(t) => {
            assert_eq!(t.title(), "Headline");
            assert_eq!(t.first_sentence(), "It begins.");
            assert_eq!(t.url(), "https://example.org/article");
            assert_eq!(t.kind(), "story");
            assert_eq!(t.date(), 1684324800);
            assert_eq!(t.ressort(), Some(Ressort::Inland));
            assert_eq!(t.breaking_news(), Some(true));
            assert_eq!(
                t.tags(),
                &Some(vec!["alpha".to_string(), "beta".to_string()])
            );
            assert!(t.image().is_none());
        }
        Content::Video(_) => panic!("expected a text article"),
    }
}

#[test]
fn streams_without_detailsweb_decodes_as_video() {
    let body = body_with(&[video_item_json()]);
    let articles = decode_response(200, &body).unwrap();
    assert_eq!(articles.news.len(), 1);
    match &articles.news[0] {
        Content::Video(v) => {
            assert_eq!(v.title(), "Clip");
            assert_eq!(v.kind(), "video");
            // The instant 12:00 at offset +02:00 is 10:00 UTC.
            assert_eq!(v.date(), 1684317600);
            // Stream entries arrive sorted by key.
            assert_eq!(
                v.streams(),
                &vec![
                    (
                        "adaptive".to_string(),
                        "https://example.org/v.m3u8".to_string()
                    ),
                    ("h264".to_string(), "https://example.org/v.mp4".to_string())
                ]
            );
            assert_eq!(v.ressort(), None);
            assert_eq!(v.breaking_news(), None);
            assert_eq!(v.tags(), &None);
        }
        Content::TextArticle(_) => panic!("expected a video"),
    }
}

#[test]
fn item_with_both_shapes_decodes_as_text_article() {
    let item = r#"{
        "title": "Both",
        "firstSentence": "Text wins.",
        "date": "2023-05-17T12:00:00Z",
        "detailsweb": "https://example.org/a",
        "streams": {"h264": "https://example.org/v.mp4"},
        "type": "story"
    }"#;
    let articles = decode_response(200, &body_with(&[item])).unwrap();
    assert!(matches!(articles.news[0], Content::TextArticle(_)));
}

#[test]
fn missing_date_fails_deserialization() {
    let item = r#"{
        "title": "No date",
        "firstSentence": "x",
        "detailsweb": "https://example.org/a",
        "type": "story"
    }"#;
    let r = decode_response(200, &body_with(&[item]));
    assert!(matches!(r, Err(Error::DeserializationError)));
}

#[test]
fn malformed_date_fails_deserialization() {
    let item = r#"{
        "title": "Bad date",
        "firstSentence": "x",
        "date": "17.05.2023 12:00",
        "detailsweb": "https://example.org/a",
        "type": "story"
    }"#;
    let r = decode_response(200, &body_with(&[item]));
    assert!(matches!(r, Err(Error::DeserializationError)));
}

#[test]
fn item_with_neither_shape_fails() {
    let item = r#"{
        "title": "Shapeless",
        "date": "2023-05-17T12:00:00Z",
        "type": "story"
    }"#;
    let r = decode_response(200, &body_with(&[item]));
    assert!(matches!(r, Err(Error::DeserializationError)));
}

#[test]
fn non_object_body_fails() {
    assert!(matches!(
        decode_response(200, "[1, 2]"),
        Err(Error::DeserializationError)
    ));
    assert!(matches!(
        decode_response(200, "not json"),
        Err(Error::DeserializationError)
    ));
    assert!(matches!(
        decode_response(200, r#"{"news": 7}"#),
        Err(Error::DeserializationError)
    ));
}

#[test]
fn non_200_status_fails_without_reading_the_body() {
    let r = decode_response(404, &body_with(&[text_item_json()]));
    assert!(matches!(r, Err(Error::InvalidResponse(404))));
    // Even a body that would not parse is never looked at.
    let r = decode_response(500, "garbage");
    assert!(matches!(r, Err(Error::InvalidResponse(500))));
}

#[test]
fn unknown_ressort_is_tolerated_as_absent() {
    let item = r#"{
        "title": "Odd ressort",
        "firstSentence": "x",
        "date": "2023-05-17T12:00:00Z",
        "detailsweb": "https://example.org/a",
        "type": "story",
        "ressort": "weltall"
    }"#;
    let articles = decode_response(200, &body_with(&[item])).unwrap();
    match &articles.news[0] {
        Content::TextArticle(t) => assert_eq!(t.ressort(), None),
        Content::Video(_) => panic!("expected a text article"),
    }
}

#[test]
fn teaser_image_is_extracted() {
    let item = r#"{
        "title": "With image",
        "firstSentence": "x",
        "date": "2023-05-17T12:00:00Z",
        "detailsweb": "https://example.org/a",
        "type": "story",
        "teaserImage": {
            "title": "A scene",
            "copyright": "somebody",
            "alttext": "alt",
            "type": "image",
            "imageVariants": {"1x1-144": "https://example.org/i.jpg"}
        }
    }"#;
    let articles = decode_response(200, &body_with(&[item])).unwrap();
    match &articles.news[0] {
        Content::TextArticle(t) => {
            let img = t.image().as_ref().unwrap();
            assert_eq!(img.title(), Some("A scene"));
            assert_eq!(img.copyright(), Some("somebody"));
            assert_eq!(img.alttext(), Some("alt"));
            assert_eq!(img.kind(), "image");
            assert_eq!(
                img.image_variants(),
                &vec![(
                    "1x1-144".to_string(),
                    "https://example.org/i.jpg".to_string()
                )]
            );
        }
        Content::Video(_) => panic!("expected a text article"),
    }
}

#[test]
fn malformed_teaser_image_is_tolerated_as_absent() {
    let item = r#"{
        "title": "Bad image",
        "firstSentence": "x",
        "date": "2023-05-17T12:00:00Z",
        "detailsweb": "https://example.org/a",
        "type": "story",
        "teaserImage": {"title": "no type tag"}
    }"#;
    let articles = decode_response(200, &body_with(&[item])).unwrap();
    match &articles.news[0] {
        Content::TextArticle(t) => assert!(t.image().is_none()),
        Content::Video(_) => panic!("expected a text article"),
    }
}

#[test]
fn decode_item_requires_title_and_kind() {
    let missing_title = RawItem {
        title: None,
        first_sentence: Some("x".to_string()),
        date: Some("2023-05-17T12:00:00Z".to_string()),
        details_url: Some("u".to_string()),
        streams: None,
        tags: None,
        ressort: None,
        kind: Some("story".to_string()),
        breaking_news: None,
        image: None,
    };
    assert!(matches!(
        decode_item(missing_title),
        Err(Error::DeserializationError)
    ));

    let missing_kind = RawItem {
        title: Some("t".to_string()),
        first_sentence: Some("x".to_string()),
        date: Some("2023-05-17T12:00:00Z".to_string()),
        details_url: Some("u".to_string()),
        streams: None,
        tags: None,
        ressort: None,
        kind: None,
        breaking_news: None,
        image: None,
    };
    assert!(matches!(
        decode_item(missing_kind),
        Err(Error::DeserializationError)
    ));
}

#[test]
fn ressort_text_mapping() {
    assert_eq!(tagesschau::ressort_from_str(""), Some(Ressort::Unspecified));
    assert_eq!(
        tagesschau::ressort_from_str("wirtschaft"),
        Some(Ressort::Wirtschaft)
    );
    assert_eq!(tagesschau::ressort_from_str("sport"), Some(Ressort::Sport));
    assert_eq!(tagesschau::ressort_from_str("SPORT"), None);
    assert_eq!(tagesschau::ressort_from_str("weltall"), None);
}

#[test]
fn error_messages_are_stable() {
    assert_eq!(
        Error::InvalidResponse(404).message(),
        "invalid response status"
    );
    assert_eq!(Error::InvalidDate.message(), "invalid calendar date");
}
