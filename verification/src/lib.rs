//! Resolving a free-text reference to an aeronautical procedure chart
//! against the catalog of an airport's charts.
//!
//! What the user types is normalized ([`names`], [`query`]), every record of
//! the catalog is scored against it and one match, several or none are
//! decided on ([`matching`], with what holds of every outcome in
//! [`match_laws`]), the pages of the chart that matches are put together
//! ([`pages`]) and given their addresses ([`url`]); [`resolve`] does all of
//! it in one call. [`reply`] reads the catalog out of the chart service's
//! answer.
//!
//! Every function states what it returns over sequences of characters.
//! Scores are whole numbers of millionths, so that no comparison depends on
//! rounding. What is taken on trust are five functions from outside: the
//! case conversions and `String::push` of the standard library in [`text`],
//! the edit distance of `strsim` in [`similarity`], and the match of a
//! pattern by `regex` in [`digits`], which is asked only of characters
//! beyond ASCII.

pub mod catalog;
pub mod chart_type;
pub mod digits;
pub mod json;
pub mod match_laws;
pub mod matching;
pub mod names;
pub mod order;
pub mod pages;
pub mod query;
pub mod reply;
pub mod resolve;
pub mod similarity;
pub mod text;
pub mod tokens;
pub mod url;
pub mod walk;

pub use catalog::ChartInfo;
pub use chart_type::ChartType;
pub use matching::{find_chart_by_name, ChartMatch, DEFAULT_AMBIGUITY_GAP};
pub use names::{airport_name_map, norm_airport_for_routes, normalize_alias, normalize_chart_name};
pub use pages::find_all_chart_pages;
pub use query::ChartQuery;
pub use resolve::{resolve_chart, Resolution};
pub use url::absolute_pdf_url;
