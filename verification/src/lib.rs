use vstd::prelude::*;

pub mod codec;
pub mod store;

verus! {

/// Greeting served at the root path.
pub fn index() -> (r: &'static str)
    ensures
        r@ == "Hello world!"@,
{
    "Hello world!"
}

} // verus!
