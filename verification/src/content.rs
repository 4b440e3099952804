//! The typed records a response decodes into: text articles, videos, their
//! shared teaser image, and the tagged union over the two.

use vstd::prelude::*;
use crate::errors::Error;
use crate::request::Ressort;

verus! {

/// An image attached to an article or video: optional metadata and a
/// mapping from resolution label to URL.
#[derive(Clone, Debug, PartialEq)]
pub struct Image {
    /// The image title, if the provider sent one.
    pub title: Option<String>,
    /// The copyright note, if the provider sent one.
    pub copyright: Option<String>,
    /// The alternative text, if the provider sent one.
    pub alttext: Option<String>,
    /// (resolution label, URL) pairs, if the provider sent any.
    pub image_variants: Option<Vec<(String, String)>>,
    /// The provider's type tag of the image.
    pub kind: String,
}

impl Image {
    /// Get the title of this `Image`.
    pub fn title(&self) -> (r: Option<&str>)
        ensures
            match r {
                Some(t) => self.title matches Some(s) && t@ == s@,
                None => self.title is None,
            },
    {
        match &self.title {
            Some(t) => Some(t.as_str()),
            None => None,
        }
    }

    /// Get the copyright of this `Image`.
    pub fn copyright(&self) -> (r: Option<&str>)
        ensures
            match r {
                Some(t) => self.copyright matches Some(s) && t@ == s@,
                None => self.copyright is None,
            },
    {
        match &self.copyright {
            Some(t) => Some(t.as_str()),
            None => None,
        }
    }

    /// Get the alt-text of this `Image`.
    pub fn alttext(&self) -> (r: Option<&str>)
        ensures
            match r {
                Some(t) => self.alttext matches Some(s) && t@ == s@,
                None => self.alttext is None,
            },
    {
        match &self.alttext {
            Some(t) => Some(t.as_str()),
            None => None,
        }
    }

    /// Get the (resolution label, URL) pairs of this `Image`.
    pub fn image_variants(&self) -> (r: &Vec<(String, String)>)
        requires
            self.image_variants is Some,
        ensures
            self.image_variants matches Some(m) && *r == m,
    {
        match &self.image_variants {
            Some(m) => m,
            None => unreached(),
        }
    }

    /// Get the type of `Image` this is.
    pub fn kind(&self) -> (r: &str)
        ensures
            r@ == self.kind@,
    {
        self.kind.as_str()
    }
}

/// A text article returned by the provider.
#[derive(Clone, Debug, PartialEq)]
pub struct TextArticle {
    /// The headline.
    pub title: String,
    /// The first sentence of the article.
    pub first_sentence: String,
    /// The publish instant as a Unix timestamp in seconds.
    pub date: i64,
    /// The URL of the article's detail page.
    pub url: String,
    /// The tag list, if the provider sent one.
    pub tags: Option<Vec<String>>,
    /// The article's ressort, if the provider sent a known one.
    pub ressort: Option<Ressort>,
    /// The provider's type tag of the record.
    pub kind: String,
    /// Whether the article is breaking news, if the provider said.
    pub breaking_news: Option<bool>,
    /// The teaser image, if the provider sent one.
    pub image: Option<Image>,
}

impl TextArticle {
    /// Get the title of this `TextArticle`.
    pub fn title(&self) -> (r: &str)
        ensures
            r@ == self.title@,
    {
        self.title.as_str()
    }

    /// Get the first sentence of this `TextArticle`.
    pub fn first_sentence(&self) -> (r: &str)
        ensures
            r@ == self.first_sentence@,
    {
        self.first_sentence.as_str()
    }

    /// Get the publish instant of this `TextArticle` as a Unix timestamp.
    pub fn date(&self) -> (r: i64)
        ensures
            r == self.date,
    {
        self.date
    }

    /// Get the URL to this `TextArticle`.
    pub fn url(&self) -> (r: &str)
        ensures
            r@ == self.url@,
    {
        self.url.as_str()
    }

    /// Get the tags of this `TextArticle`.
    pub fn tags(&self) -> (r: &Option<Vec<String>>)
        ensures
            *r == self.tags,
    {
        &self.tags
    }

    /// Get the `Ressort` of this `TextArticle`.
    pub fn ressort(&self) -> (r: Option<Ressort>)
        ensures
            r == self.ressort,
    {
        self.ressort
    }

    /// Get the type of `TextArticle` this is.
    pub fn kind(&self) -> (r: &str)
        ensures
            r@ == self.kind@,
    {
        self.kind.as_str()
    }

    /// Get whether this `TextArticle` is breaking news.
    pub fn breaking_news(&self) -> (r: Option<bool>)
        ensures
            r == self.breaking_news,
    {
        self.breaking_news
    }

    /// Get the image attached to this `TextArticle`.
    pub fn image(&self) -> (r: &Option<Image>)
        ensures
            *r == self.image,
    {
        &self.image
    }
}

/// A video returned by the provider.
#[derive(Clone, Debug, PartialEq)]
pub struct Video {
    /// The headline.
    pub title: String,
    /// The publish instant as a Unix timestamp in seconds.
    pub date: i64,
    /// (stream type, URL) pairs.
    pub streams: Vec<(String, String)>,
    /// The tag list, if the provider sent one.
    pub tags: Option<Vec<String>>,
    /// The video's ressort, if the provider sent a known one.
    pub ressort: Option<Ressort>,
    /// The provider's type tag of the record.
    pub kind: String,
    /// Whether the video is breaking news, if the provider said.
    pub breaking_news: Option<bool>,
    /// The teaser image, if the provider sent one.
    pub image: Option<Image>,
}

impl Video {
    /// Get the title of this `Video`.
    pub fn title(&self) -> (r: &str)
        ensures
            r@ == self.title@,
    {
        self.title.as_str()
    }

    /// Get the publish instant of this `Video` as a Unix timestamp.
    pub fn date(&self) -> (r: i64)
        ensures
            r == self.date,
    {
        self.date
    }

    /// Get the (stream type, URL) pairs of this `Video`.
    pub fn streams(&self) -> (r: &Vec<(String, String)>)
        ensures
            *r == self.streams,
    {
        &self.streams
    }

    /// Get the tags of this `Video`.
    pub fn tags(&self) -> (r: &Option<Vec<String>>)
        ensures
            *r == self.tags,
    {
        &self.tags
    }

    /// Get the `Ressort` of this `Video`.
    pub fn ressort(&self) -> (r: Option<Ressort>)
        ensures
            r == self.ressort,
    {
        self.ressort
    }

    /// Get the type of `Video` this is.
    pub fn kind(&self) -> (r: &str)
        ensures
            r@ == self.kind@,
    {
        self.kind.as_str()
    }

    /// Get whether this `Video` is breaking news.
    pub fn breaking_news(&self) -> (r: Option<bool>)
        ensures
            r == self.breaking_news,
    {
        self.breaking_news
    }

    /// Get the image attached to this `Video`.
    pub fn image(&self) -> (r: &Option<Image>)
        ensures
            *r == self.image,
    {
        &self.image
    }
}

/// A decoded record: either a text article or a video.
#[derive(Clone, Debug, PartialEq)]
pub enum Content {
    TextArticle(TextArticle),
    Video(Video),
}

impl Content {
    /// The publish instant of the record, whichever variant it is.
    pub open spec fn spec_date(self) -> i64 {
        match self {
            Content::TextArticle(t) => t.date,
            Content::Video(v) => v.date,
        }
    }

    /// The publish instant of the record, whichever variant it is.
    pub fn date(&self) -> (r: i64)
        ensures
            r == self.spec_date(),
    {
        match self {
            Content::TextArticle(t) => t.date,
            Content::Video(v) => v.date,
        }
    }

    /// Checks if the `Content` is a `TextArticle`.
    pub fn is_text(&self) -> (r: bool)
        ensures
            r == (self is TextArticle),
    {
        match self {
            Content::TextArticle(_) => true,
            Content::Video(_) => false,
        }
    }

    /// Checks if the `Content` is a `Video`.
    pub fn is_video(&self) -> (r: bool)
        ensures
            r == (self is Video),
    {
        match self {
            Content::TextArticle(_) => false,
            Content::Video(_) => true,
        }
    }

    /// Unpacks and returns the `TextArticle`; fails on a `Video`.
    pub fn to_text(self) -> (r: Result<TextArticle, Error>)
        ensures
            self matches Content::TextArticle(t) ==> r == Ok::<TextArticle, Error>(t),
            self is Video ==> (r matches Err(e) && e == Error::ConversionError),
    {
        match self {
            Content::TextArticle(t) => Ok(t),
            Content::Video(_) => Err(Error::ConversionError),
        }
    }

    /// Unpacks and returns the `Video`; fails on a `TextArticle`.
    pub fn to_video(self) -> (r: Result<Video, Error>)
        ensures
            self matches Content::Video(v) ==> r == Ok::<Video, Error>(v),
            self is TextArticle ==> (r matches Err(e) && e == Error::ConversionError),
    {
        match self {
            Content::Video(v) => Ok(v),
            Content::TextArticle(_) => Err(Error::ConversionError),
        }
    }
}

/// The envelope a response body decodes into.
#[derive(Clone, Debug, PartialEq)]
pub struct Articles {
    /// The decoded news items, in the order the provider sent them.
    pub news: Vec<Content>,
}

} // verus!
