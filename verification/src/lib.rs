//! Client-side logic for a news provider's public JSON endpoint: calendar
//! dates and date ranges, query-URL construction, response decoding into
//! typed article and video records, and aggregation of per-date results.

pub mod aggregate;
pub mod content;
pub mod dates;
pub mod decode;
pub mod errors;
pub mod request;
pub mod wire;

pub use aggregate::{collect_articles, sort_by_date, text_articles, video_articles};
pub use content::{Articles, Content, Image, TextArticle, Video};
pub use dates::{current_date, date_from_parts, DateRange, Month, TDate};
pub use decode::{decode_body, decode_item, decode_response, ressort_from_str, RawItem};
pub use errors::Error;
pub use request::{Region, Ressort, TRequestBuilder, Timeframe, BASE_URL};
