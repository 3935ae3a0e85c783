//! Small display helpers shared by the admin surface.

use vstd::prelude::*;

verus! {

/// Picks one of two renderings by a flag.
pub fn fmt_if<T>(b: bool, yes: T, no: T) -> (r: T)
    ensures
        b ==> r == yes,
        !b ==> r == no,
{
    if b {
        yes
    } else {
        no
    }
}

} // verus!
