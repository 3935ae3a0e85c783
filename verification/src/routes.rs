//! Small pieces shared by the request handlers: the health probe, the
//! Created response, and the language selector.

use vstd::prelude::*;

use crate::dtos::CreatedDto;
use crate::text::{decimal_int, i32_to_string};

verus! {

/// Health probe: the service reports that it is alive.
pub fn health() -> (r: &'static str)
    ensures
        r@ == "OK"@,
{
    "OK"
}

/// A Created response: where the new resource lives, and its id.
#[derive(Debug, PartialEq, Eq)]
pub struct CreatedResponse {
    pub location: String,
    pub body: CreatedDto,
}

/// Builds the Created response for a new record: the location is the route
/// prefix followed by a slash and the record's id.
pub fn build_created_response(route_prefix: &str, id: i32) -> (r: CreatedResponse)
    ensures
        r.location@ == route_prefix@ + "/"@ + decimal_int(id as int),
        r.body.id == id,
{
    let mut location = String::from_str(route_prefix);
    location.append("/");
    let num = i32_to_string(id);
    location.append(num.as_str());
    proof {
        assert(location@ =~= route_prefix@ + "/"@ + decimal_int(id as int));
    }
    CreatedResponse { location, body: CreatedDto { id } }
}

/// The admin surface's display language.
#[derive(Clone, Copy, Debug, PartialEq, Eq, Structural)]
pub enum Lang {
    En,
    Sv,
}

impl Default for Lang {
    /// Swedish is the default language.
    fn default() -> (r: Self)
        ensures
            r == Lang::Sv,
    {
        Lang::Sv
    }
}

} // verus!
