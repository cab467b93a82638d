//! A line-oriented text search: find the lines of a text that contain a
//! query, and render them with an optional line-number gutter.

pub mod config;
pub mod render;
pub mod search;
pub mod text;

pub use config::{is_line_number_flag, Config};
pub use render::render;
pub use search::{search, search_case_insensitive, search_case_sensitive, Line};
pub use text::has_substring;

use vstd::prelude::*;

use crate::render::rendered;
use crate::search::search_result;

verus! {

/// The output of one search: the lines of `contents` that match the
/// configured query, rendered as configured.
pub fn run(config: &Config, contents: &str) -> (r: String)
    ensures
        r@ == rendered(search_result(config.query@, config.case_sensitive, contents@), config.ln),
{
    let lines = if config.case_sensitive {
        search_case_sensitive(config.query.as_str(), contents)
    } else {
        search_case_insensitive(config.query.as_str(), contents)
    };
    render(&lines, config.ln)
}

} // verus!
