//! Client-side helpers for reaching the service.

use vstd::prelude::*;

use crate::text::{decimal_int, i32_to_string};

verus! {

/// The URL a screen subscribes to for its feed.
pub fn get_screen_feed_url(screen_id: i32) -> (r: String)
    ensures
        r@ == "/api/feed/"@ + decimal_int(screen_id as int),
{
    let mut r = String::from_str("/api/feed/");
    let num = i32_to_string(screen_id);
    r.append(num.as_str());
    r
}

} // verus!
