//! The server's configuration.
use vstd::prelude::*;

verus! {

#[derive(Clone)]
pub struct ServerConfiguration {
    pub port: u16,
    pub name: String,
    pub max_clients: usize,
}

impl ServerConfiguration {
    /// The configuration the server runs with: port 8100, the name
    /// "A test server" and room for six clients.
    pub fn load() -> (r: ServerConfiguration)
        ensures
            r.port == 8100,
            r.name@ == "A test server"@,
            r.max_clients == 6,
    {
        ServerConfiguration { port: 8100, name: "A test server".to_owned(), max_clients: 6 }
    }
}

} // verus!
