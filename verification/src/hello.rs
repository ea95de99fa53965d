//! The health-check service.
use vstd::prelude::*;

verus! {

/// A service whose one call answers with a fixed greeting, used as a
/// liveness check.
#[derive(Debug)]
pub struct HelloService {}

impl HelloService {
    /// The greeting every health-check request is answered with.
    pub fn say_hello(&self) -> (r: String)
        ensures
            r@ == "Hello, world!"@,
    {
        ("Hello, world!").to_owned()
    }
}

} // verus!
