//! Decoding a response body into content records: the JSON engine is an
//! outside collaborator reached through a small trusted layer, and every
//! decision about shapes, required fields and tolerated absences is made
//! here, in verified code.

use vstd::prelude::*;
use crate::content::{Articles, Content, Image, TextArticle, Video};
use crate::errors::Error;
use crate::request::{pairs_view, Ressort};
use crate::wire::str_eq;

verus! {

/// The JSON document a body text parses to, if it parses.
pub uninterp spec fn json_doc(s: Seq<char>) -> Option<serde_json::Value>;

/// The elements of the array under a key of a JSON value, if that key holds
/// an array.
pub uninterp spec fn json_array_field(v: serde_json::Value, key: Seq<char>) -> Option<
    Seq<serde_json::Value>,
>;

/// The text under a key of a JSON value, if that key holds a string.
pub uninterp spec fn json_str_field(v: serde_json::Value, key: Seq<char>) -> Option<Seq<char>>;

/// The truth value under a key of a JSON value, if that key holds a boolean.
pub uninterp spec fn json_bool_field(v: serde_json::Value, key: Seq<char>) -> Option<bool>;

/// The (key, text) entries of the object under a key of a JSON value, in
/// the object's iteration order, if that key holds an object whose values
/// are all strings.
pub uninterp spec fn json_strmap_field(v: serde_json::Value, key: Seq<char>) -> Option<
    Seq<(Seq<char>, Seq<char>)>,
>;

/// The texts found under `item_key` in each element of the array under
/// `key`, if that key holds an array whose elements all carry a string
/// under `item_key`.
pub uninterp spec fn json_str_list_field(
    v: serde_json::Value,
    key: Seq<char>,
    item_key: Seq<char>,
) -> Option<Seq<Seq<char>>>;

/// The object under a key of a JSON value, if that key holds an object.
pub uninterp spec fn json_obj_field(v: serde_json::Value, key: Seq<char>) -> Option<
    serde_json::Value,
>;

/// The instant a text names in RFC 3339 form, as a Unix timestamp in
/// seconds, if the text is well-formed.
pub uninterp spec fn rfc3339_unix(s: Seq<char>) -> Option<i64>;

#[verifier::external_type_specification]
#[verifier::external_body]
pub struct ExValue(serde_json::Value);

/// Relies on `serde_json::from_str::<Value>`: whether a body parses as
/// JSON, and to which document, depends on the text alone.
#[verifier::external_body]
fn parse_json(s: &str) -> (r: Option<serde_json::Value>)
    ensures
        r == json_doc(s@),
{
    serde_json::from_str(s).ok()
}

/// Relies on `serde_json::Value::get` and `Value::as_array`: the array
/// under the key, cloned element for element.
#[verifier::external_body]
fn get_array_field(v: &serde_json::Value, key: &str) -> (r: Option<Vec<serde_json::Value>>)
    ensures
        match r {
            Some(items) => json_array_field(*v, key@) == Some(items@),
            None => json_array_field(*v, key@) is None,
        },
{
    match v.get(key) {
        Some(x) => x.as_array().cloned(),
        None => None,
    }
}

/// Relies on `serde_json::Value::get` and `Value::as_str`: the string under
/// the key, owned.
#[verifier::external_body]
fn get_str_field(v: &serde_json::Value, key: &str) -> (r: Option<String>)
    ensures
        match r {
            Some(s) => json_str_field(*v, key@) == Some(s@),
            None => json_str_field(*v, key@) is None,
        },
{
    match v.get(key) {
        Some(x) => x.as_str().map(|s| s.to_string()),
        None => None,
    }
}

/// Relies on `serde_json::Value::get` and `Value::as_bool`: the boolean
/// under the key.
#[verifier::external_body]
fn get_bool_field(v: &serde_json::Value, key: &str) -> (r: Option<bool>)
    ensures
        r == json_bool_field(*v, key@),
{
    match v.get(key) {
        Some(x) => x.as_bool(),
        None => None,
    }
}

/// Relies on `serde_json::Value::get`, `Value::as_object`, the object's
/// iteration order (sorted by key) and `Value::as_str`: the (key, text)
/// entries of the object under the key, or nothing if any value there is
/// not a string.
#[verifier::external_body]
fn get_strmap_field(v: &serde_json::Value, key: &str) -> (r: Option<Vec<(String, String)>>)
    ensures
        match r {
            Some(m) => json_strmap_field(*v, key@) == Some(pairs_view(m@)),
            None => json_strmap_field(*v, key@) is None,
        },
{
    let obj = v.get(key)?.as_object()?;
    let mut out: Vec<(String, String)> = Vec::new();
    for (k, val) in obj.iter() {
        out.push((k.clone(), val.as_str()?.to_string()));
    }
    Some(out)
}

/// Relies on `serde_json::Value::get`, `Value::as_array` and `Value::as_str`:
/// the text under `item_key` in each element of the array under `key`, or
/// nothing if any element carries none.
#[verifier::external_body]
fn get_str_list_field(v: &serde_json::Value, key: &str, item_key: &str) -> (r: Option<Vec<String>>)
    ensures
        match r {
            Some(t) => json_str_list_field(*v, key@, item_key@) == Some(strings_view(t@)),
            None => json_str_list_field(*v, key@, item_key@) is None,
        },
{
    let arr = v.get(key)?.as_array()?;
    let mut out: Vec<String> = Vec::new();
    for el in arr.iter() {
        out.push(el.get(item_key)?.as_str()?.to_string());
    }
    Some(out)
}

/// Relies on `serde_json::Value::get` and `Value::is_object`: the object
/// under the key, cloned, or nothing if the key holds no object.
#[verifier::external_body]
fn get_obj_field(v: &serde_json::Value, key: &str) -> (r: Option<serde_json::Value>)
    ensures
        r == json_obj_field(*v, key@),
{
    match v.get(key) {
        Some(x) => if x.is_object() { Some(x.clone()) } else { None },
        None => None,
    }
}

/// Relies on `time::OffsetDateTime::parse` with the RFC 3339 well-known
/// format and `OffsetDateTime::unix_timestamp`: whether a text parses, and
/// to which instant, depends on the text alone.
#[verifier::external_body]
fn parse_rfc3339_unix(s: &str) -> (r: Option<i64>)
    ensures
        r == rfc3339_unix(s@),
{
    match time::OffsetDateTime::parse(s, &time::format_description::well_known::Rfc3339) {
        Ok(t) => Some(t.unix_timestamp()),
        Err(_) => None,
    }
}

/// The view of an optional owned string.
pub open spec fn opt_str_view(o: Option<String>) -> Option<Seq<char>> {
    match o {
        Some(s) => Some(s@),
        None => None,
    }
}

/// The views of a list of owned strings.
pub open spec fn strings_view(s: Seq<String>) -> Seq<Seq<char>> {
    s.map_values(|x: String| x@)
}

/// The view of an optional list of owned strings.
pub open spec fn opt_strings_view(o: Option<Vec<String>>) -> Option<Seq<Seq<char>>> {
    match o {
        Some(v) => Some(strings_view(v@)),
        None => None,
    }
}

/// The view of an optional list of key/value string pairs.
pub open spec fn opt_pairs_view(o: Option<Vec<(String, String)>>) -> Option<
    Seq<(Seq<char>, Seq<char>)>,
> {
    match o {
        Some(v) => Some(pairs_view(v@)),
        None => None,
    }
}

/// The ressort a text names, if it names one: the empty text selects the
/// unspecified ressort, any unknown text none at all.
pub open spec fn ressort_of_str(s: Seq<char>) -> Option<Ressort> {
    if s == ""@ { Some(Ressort::Unspecified) }
    else if s == "inland"@ { Some(Ressort::Inland) }
    else if s == "ausland"@ { Some(Ressort::Ausland) }
    else if s == "wirtschaft"@ { Some(Ressort::Wirtschaft) }
    else if s == "sport"@ { Some(Ressort::Sport) }
    else if s == "video"@ { Some(Ressort::Video) }
    else if s == "investigativ"@ { Some(Ressort::Investigativ) }
    else if s == "wissen"@ { Some(Ressort::Wissen) }
    else { None }
}

/// Maps a ressort text to the ressort it names.
pub fn ressort_from_str(s: &str) -> (r: Option<Ressort>)
    ensures
        r == ressort_of_str(s@),
{
    if str_eq(s, "") { Some(Ressort::Unspecified) }
    else if str_eq(s, "inland") { Some(Ressort::Inland) }
    else if str_eq(s, "ausland") { Some(Ressort::Ausland) }
    else if str_eq(s, "wirtschaft") { Some(Ressort::Wirtschaft) }
    else if str_eq(s, "sport") { Some(Ressort::Sport) }
    else if str_eq(s, "video") { Some(Ressort::Video) }
    else if str_eq(s, "investigativ") { Some(Ressort::Investigativ) }
    else if str_eq(s, "wissen") { Some(Ressort::Wissen) }
    else { None }
}

/// The ressort of an optional ressort text: absent text, or an unknown one,
/// decodes to no ressort.
pub open spec fn decoded_ressort(o: Option<String>) -> Option<Ressort> {
    match o {
        Some(s) => ressort_of_str(s@),
        None => None,
    }
}

/// The fields one news item can carry, each as sent or absent; which of
/// them must be present, and what that makes the item, is decided by
/// `decode_item`.
pub struct RawItem {
    /// The headline, required.
    pub title: Option<String>,
    /// The first sentence; text articles require it.
    pub first_sentence: Option<String>,
    /// The publish instant in RFC 3339 form, required.
    pub date: Option<String>,
    /// The article detail URL; its presence makes the item a text article.
    pub details_url: Option<String>,
    /// The stream map; its presence makes the item a video.
    pub streams: Option<Vec<(String, String)>>,
    /// The tag list, tolerated absent.
    pub tags: Option<Vec<String>>,
    /// The ressort text, tolerated absent.
    pub ressort: Option<String>,
    /// The provider's type tag, required.
    pub kind: Option<String>,
    /// The breaking-news flag, tolerated absent.
    pub breaking_news: Option<bool>,
    /// The teaser image, tolerated absent or malformed.
    pub image: Option<Image>,
}

/// The publish instant of an item, if its date field is present and
/// well-formed.
pub open spec fn item_timestamp(raw: RawItem) -> Option<i64> {
    match raw.date {
        Some(s) => rfc3339_unix(s@),
        None => None,
    }
}

/// Whether an item carries the text-only required fields.
pub open spec fn text_shape(raw: RawItem) -> bool {
    raw.details_url is Some && raw.first_sentence is Some
}

/// Whether an item carries the video-only required field.
pub open spec fn video_shape(raw: RawItem) -> bool {
    raw.streams is Some
}

/// Whether an item decodes at all: the shared required fields are present,
/// the publish instant is well-formed, and one of the two shapes matches.
pub open spec fn item_decodable(raw: RawItem) -> bool {
    &&& raw.title is Some
    &&& raw.kind is Some
    &&& item_timestamp(raw) is Some
    &&& (text_shape(raw) || video_shape(raw))
}

/// Decodes one news item: attempts the text-article shape first and falls
/// back to the video shape, failing if neither matches or a required field
/// is absent or malformed.
pub fn decode_item(raw: RawItem) -> (r: Result<Content, Error>)
    ensures
        !item_decodable(raw) ==> (r matches Err(e) && e == Error::DeserializationError),
        item_decodable(raw) && text_shape(raw) ==> (
            r matches Ok(c) && c matches Content::TextArticle(t)
            && (raw.title matches Some(ti) && t.title == ti)
            && (raw.first_sentence matches Some(fs) && t.first_sentence == fs)
            && Some(t.date) == item_timestamp(raw)
            && (raw.details_url matches Some(u) && t.url == u)
            && t.tags == raw.tags
            && t.ressort == decoded_ressort(raw.ressort)
            && (raw.kind matches Some(k) && t.kind == k)
            && t.breaking_news == raw.breaking_news
            && t.image == raw.image
        ),
        item_decodable(raw) && !text_shape(raw) ==> (
            r matches Ok(c) && c matches Content::Video(v)
            && (raw.title matches Some(ti) && v.title == ti)
            && Some(v.date) == item_timestamp(raw)
            && (raw.streams matches Some(st) && v.streams == st)
            && v.tags == raw.tags
            && v.ressort == decoded_ressort(raw.ressort)
            && (raw.kind matches Some(k) && v.kind == k)
            && v.breaking_news == raw.breaking_news
            && v.image == raw.image
        ),
{
    let title = match raw.title {
        Some(t) => t,
        None => {
            return Err(Error::DeserializationError);
        }
    };
    let kind = match raw.kind {
        Some(k) => k,
        None => {
            return Err(Error::DeserializationError);
        }
    };
    let date = match &raw.date {
        Some(d) => match parse_rfc3339_unix(d.as_str()) {
            Some(t) => t,
            None => {
                return Err(Error::DeserializationError);
            }
        },
        None => {
            return Err(Error::DeserializationError);
        }
    };
    let ressort = match &raw.ressort {
        Some(s) => ressort_from_str(s.as_str()),
        None => None,
    };
    if raw.details_url.is_some() && raw.first_sentence.is_some() {
        Ok(Content::TextArticle(TextArticle {
            title,
            first_sentence: raw.first_sentence.unwrap(),
            date,
            url: raw.details_url.unwrap(),
            tags: raw.tags,
            ressort,
            kind,
            breaking_news: raw.breaking_news,
            image: raw.image,
        }))
    } else if raw.streams.is_some() {
        Ok(Content::Video(Video {
            title,
            date,
            streams: raw.streams.unwrap(),
            tags: raw.tags,
            ressort,
            kind,
            breaking_news: raw.breaking_news,
            image: raw.image,
        }))
    } else {
        Err(Error::DeserializationError)
    }
}

/// How an extracted image relates to the JSON object it came from: absent
/// exactly when the object carries no type tag, and otherwise carrying the
/// object's fields as the trusted layer reports them.
pub open spec fn image_extraction(img: Option<Image>, obj: serde_json::Value) -> bool {
    match json_str_field(obj, "type"@) {
        Option::None => img is None,
        Option::Some(k) => img matches Some(i)
            && i.kind@ == k
            && opt_str_view(i.title) == json_str_field(obj, "title"@)
            && opt_str_view(i.copyright) == json_str_field(obj, "copyright"@)
            && opt_str_view(i.alttext) == json_str_field(obj, "alttext"@)
            && opt_pairs_view(i.image_variants) == json_strmap_field(obj, "imageVariants"@),
    }
}

/// Extracts a teaser image from its JSON object; an object without the
/// required type tag is tolerated as no image at all.
fn extract_image(v: &serde_json::Value) -> (r: Option<Image>)
    ensures
        image_extraction(r, *v),
{
    let kind = match get_str_field(v, "type") {
        Some(k) => k,
        None => {
            return None;
        }
    };
    Some(Image {
        title: get_str_field(v, "title"),
        copyright: get_str_field(v, "copyright"),
        alttext: get_str_field(v, "alttext"),
        image_variants: get_strmap_field(v, "imageVariants"),
        kind,
    })
}

/// How an extracted item relates to the JSON value it came from: every
/// field holds exactly what the trusted layer reports under the item's
/// wire name.
pub open spec fn item_extraction(raw: RawItem, v: serde_json::Value) -> bool {
    &&& opt_str_view(raw.title) == json_str_field(v, "title"@)
    &&& opt_str_view(raw.first_sentence) == json_str_field(v, "firstSentence"@)
    &&& opt_str_view(raw.date) == json_str_field(v, "date"@)
    &&& opt_str_view(raw.details_url) == json_str_field(v, "detailsweb"@)
    &&& opt_pairs_view(raw.streams) == json_strmap_field(v, "streams"@)
    &&& opt_strings_view(raw.tags) == json_str_list_field(v, "tags"@, "tag"@)
    &&& opt_str_view(raw.ressort) == json_str_field(v, "ressort"@)
    &&& opt_str_view(raw.kind) == json_str_field(v, "type"@)
    &&& raw.breaking_news == json_bool_field(v, "breakingNews"@)
    &&& match json_obj_field(v, "teaserImage"@) {
        Option::None => raw.image is None,
        Option::Some(obj) => image_extraction(raw.image, obj),
    }
}

/// Extracts the fields of one news item from its JSON value.
fn extract_item(v: &serde_json::Value) -> (r: RawItem)
    ensures
        item_extraction(r, *v),
{
    let image = match get_obj_field(v, "teaserImage") {
        Some(obj) => extract_image(&obj),
        None => None,
    };
    RawItem {
        title: get_str_field(v, "title"),
        first_sentence: get_str_field(v, "firstSentence"),
        date: get_str_field(v, "date"),
        details_url: get_str_field(v, "detailsweb"),
        streams: get_strmap_field(v, "streams"),
        tags: get_str_list_field(v, "tags", "tag"),
        ressort: get_str_field(v, "ressort"),
        kind: get_str_field(v, "type"),
        breaking_news: get_bool_field(v, "breakingNews"),
        image,
    }
}

/// The publish instant a news item's JSON value names, if well-formed.
pub open spec fn value_timestamp(v: serde_json::Value) -> Option<i64> {
    match json_str_field(v, "date"@) {
        Option::None => Option::None,
        Option::Some(s) => rfc3339_unix(s),
    }
}

/// Whether a news item's JSON value carries the text-only required fields.
pub open spec fn value_text_shape(v: serde_json::Value) -> bool {
    json_str_field(v, "detailsweb"@) is Some && json_str_field(v, "firstSentence"@) is Some
}

/// Whether a news item's JSON value carries the video-only required field.
pub open spec fn value_video_shape(v: serde_json::Value) -> bool {
    json_strmap_field(v, "streams"@) is Some
}

/// Whether a news item's JSON value decodes at all.
pub open spec fn value_decodable(v: serde_json::Value) -> bool {
    &&& json_str_field(v, "title"@) is Some
    &&& json_str_field(v, "type"@) is Some
    &&& value_timestamp(v) is Some
    &&& (value_text_shape(v) || value_video_shape(v))
}

/// The ressort a news item's JSON value selects, if any.
pub open spec fn value_ressort(v: serde_json::Value) -> Option<Ressort> {
    match json_str_field(v, "ressort"@) {
        Option::None => Option::None,
        Option::Some(s) => ressort_of_str(s),
    }
}

/// How a decoded text article relates to the JSON value it came from.
pub open spec fn text_from_value(t: TextArticle, v: serde_json::Value) -> bool {
    &&& Some(t.title@) == json_str_field(v, "title"@)
    &&& Some(t.first_sentence@) == json_str_field(v, "firstSentence"@)
    &&& Some(t.date) == value_timestamp(v)
    &&& Some(t.url@) == json_str_field(v, "detailsweb"@)
    &&& opt_strings_view(t.tags) == json_str_list_field(v, "tags"@, "tag"@)
    &&& t.ressort == value_ressort(v)
    &&& Some(t.kind@) == json_str_field(v, "type"@)
    &&& t.breaking_news == json_bool_field(v, "breakingNews"@)
    &&& match json_obj_field(v, "teaserImage"@) {
        Option::None => t.image is None,
        Option::Some(obj) => image_extraction(t.image, obj),
    }
}

/// How a decoded video relates to the JSON value it came from.
pub open spec fn video_from_value(w: Video, v: serde_json::Value) -> bool {
    &&& Some(w.title@) == json_str_field(v, "title"@)
    &&& Some(w.date) == value_timestamp(v)
    &&& Some(pairs_view(w.streams@)) == json_strmap_field(v, "streams"@)
    &&& opt_strings_view(w.tags) == json_str_list_field(v, "tags"@, "tag"@)
    &&& w.ressort == value_ressort(v)
    &&& Some(w.kind@) == json_str_field(v, "type"@)
    &&& w.breaking_news == json_bool_field(v, "breakingNews"@)
    &&& match json_obj_field(v, "teaserImage"@) {
        Option::None => w.image is None,
        Option::Some(obj) => image_extraction(w.image, obj),
    }
}

/// How a decoded record relates to the JSON value it came from: the text
/// shape is attempted first, the video shape is the fallback.
pub open spec fn content_from_value(c: Content, v: serde_json::Value) -> bool {
    match c {
        Content::TextArticle(t) => value_text_shape(v) && text_from_value(t, v),
        Content::Video(w) => !value_text_shape(v) && value_video_shape(v) && video_from_value(
            w,
            v,
        ),
    }
}

/// The news items of a body text: the elements of the array under `news`,
/// if the text parses to a document carrying one.
pub open spec fn body_items(s: Seq<char>) -> Option<Seq<serde_json::Value>> {
    match json_doc(s) {
        Option::None => Option::None,
        Option::Some(doc) => json_array_field(doc, "news"@),
    }
}

/// Decodes a response body: the envelope's `news` array, each item decoded
/// in order; the whole body fails if it is not the expected JSON shape or
/// any single item fails.
pub fn decode_body(body: &str) -> (r: Result<Vec<Content>, Error>)
    ensures
        body_items(body@) is None ==> (r matches Err(e) && e == Error::DeserializationError),
        body_items(body@) matches Some(items) ==> {
            &&& r is Ok <==> (forall |i: int|
                0 <= i < items.len() ==> value_decodable(#[trigger] items[i]))
            &&& (r matches Ok(cs) ==> cs@.len() == items.len() && (forall |i: int|
                0 <= i < items.len() ==> content_from_value(#[trigger] cs@[i], items[i])))
            &&& (r matches Err(e) ==> e == Error::DeserializationError)
        },
{
    let doc = match parse_json(body) {
        Some(d) => d,
        None => {
            return Err(Error::DeserializationError);
        }
    };
    let items = match get_array_field(&doc, "news") {
        Some(a) => a,
        None => {
            return Err(Error::DeserializationError);
        }
    };
    let mut out: Vec<Content> = Vec::new();
    let mut i: usize = 0;
    while i < items.len()
        invariant
            body_items(body@) == Some(items@),
            i <= items@.len(),
            out@.len() == i as int,
            forall |k: int| 0 <= k < i ==> value_decodable(#[trigger] items@[k]),
            forall |k: int| 0 <= k < i ==> content_from_value(#[trigger] out@[k], items@[k]),
        decreases items@.len() - i,
    {
        let raw = extract_item(&items[i]);
        match decode_item(raw) {
            Ok(c) => {
                proof {
                    assert(value_decodable(items@[i as int]));
                    assert(content_from_value(c, items@[i as int]));
                }
                out.push(c);
            }
            Err(e) => {
                proof {
                    assert(!item_decodable(raw));
                    assert(e == Error::DeserializationError);
                    assert(!value_decodable(items@[i as int]));
                    let its = body_items(body@).unwrap();
                    assert(its == items@);
                    assert(!(forall |k: int|
                        0 <= k < its.len() ==> value_decodable(#[trigger] its[k]))) by {
                        if forall |k: int|
                            0 <= k < its.len() ==> value_decodable(#[trigger] its[k]) {
                            assert(value_decodable(its[i as int]));
                        }
                    }
                }
                return Err(e);
            }
        }
        i += 1;
    }
    Ok(out)
}

/// Classifies one HTTP response and decodes its body: any status other
/// than 200 fails with that status, without the body being looked at; a 200
/// body is decoded as `decode_body` does.
pub fn decode_response(status: u16, body: &str) -> (r: Result<Articles, Error>)
    ensures
        status != 200 ==> (r matches Err(e) && e == Error::InvalidResponse(status)),
        status == 200 && body_items(body@) is None ==> (
            r matches Err(e) && e == Error::DeserializationError
        ),
        status == 200 ==> (body_items(body@) matches Some(items) ==> {
            &&& r is Ok <==> (forall |i: int|
                0 <= i < items.len() ==> value_decodable(#[trigger] items[i]))
            &&& (r matches Ok(a) ==> a.news@.len() == items.len() && (forall |i: int|
                0 <= i < items.len() ==> content_from_value(#[trigger] a.news@[i], items[i])))
            &&& (r matches Err(e) ==> e == Error::DeserializationError)
        }),
{
    if status != 200 {
        return Err(Error::InvalidResponse(status));
    }
    match decode_body(body) {
        Ok(news) => Ok(Articles { news }),
        Err(e) => Err(e),
    }
}

} // verus!
