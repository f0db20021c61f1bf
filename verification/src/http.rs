//! What the scrape endpoint answers.

use vstd::prelude::*;
use vstd::utf8::{decode_utf8, valid_utf8};
use crate::text::{str_eq, str_from_utf8};

verus! {

/// What a path of the endpoint leads to.
#[derive(Clone, Copy, Debug, PartialEq, Eq, Structural)]
pub enum Route {
    /// The metrics, as text.
    Metrics,
    /// Nothing.
    NotFound,
}

impl Route {
    /// The HTTP status of the answer.
    pub fn status(&self) -> (r: u16)
        ensures
            r == (if *self == Route::Metrics {
                200u16
            } else {
                404u16
            }),
    {
        match self {
            Route::Metrics => 200,
            Route::NotFound => 404,
        }
    }
}

/// Where a path leads: `/metrics` to the metrics, any other path nowhere.
pub fn route(path: &str) -> (r: Route)
    ensures
        r == (if path@ == "/metrics"@ {
            Route::Metrics
        } else {
            Route::NotFound
        }),
{
    if str_eq(path, "/metrics") {
        Route::Metrics
    } else {
        Route::NotFound
    }
}

/// The body of the answer to a scrape: the encoded metrics as text, or a comment
/// in their place where they are not UTF-8.
pub fn metrics_body(encoded: &[u8]) -> (r: String)
    ensures
        r@ == (if valid_utf8(encoded@) {
            decode_utf8(encoded@)
        } else {
            "# Error encoding metrics"@
        }),
{
    match str_from_utf8(encoded) {
        Some(text) => text.to_owned(),
        None => "# Error encoding metrics".to_owned(),
    }
}

} // verus!
