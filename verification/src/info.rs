//! Information about the service, served on its own route beside the
//! proxied traffic.

use vstd::prelude::*;

verus! {

/// Information about the service.
#[derive(Debug)]
pub struct Info {
    pub version: String,
}

impl Info {
    /// Create a new instance of the `Info` struct, carrying the crate's
    /// version.
    pub fn new() -> (r: Info)
        ensures
            r.version@ == "0.1.0"@,
    {
        Info { version: "0.1.0".to_owned() }
    }
}

} // verus!
