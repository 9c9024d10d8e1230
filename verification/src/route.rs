use vstd::prelude::*;

verus! {

/// One configured route: the address this relay listens on and the
/// destination it dials for each accepted connection. Both are host:port
/// address strings, kept as their bytes; the pair is created once at
/// startup and never mutated.
#[derive(Debug)]
pub struct RouteDefinition {
    pub source: Vec<u8>,
    pub destination: Vec<u8>,
}

impl RouteDefinition {
    /// Builds a route from its two addresses.
    pub fn new(source: Vec<u8>, destination: Vec<u8>) -> (r: RouteDefinition)
        ensures
            r.source@ == source@,
            r.destination@ == destination@,
    {
        RouteDefinition { source, destination }
    }
}

} // verus!
