//! Where a mock server listens.

use vstd::prelude::*;

verus! {

/// The bind address of a mock server: a host name or address and a port.
/// Port `0` asks the operating system for a free port.
#[derive(Clone, Debug)]
pub struct MockServerOptions {
    pub host: String,
    pub port: u16,
}

impl Default for MockServerOptions {
    /// Listens on `localhost`, on a port that the operating system picks.
    fn default() -> (options: Self)
        ensures
            options.host@ == "localhost"@,
            options.port == 0,
    {
        MockServerOptions { host: "localhost".to_owned(), port: 0 }
    }
}

} // verus!
