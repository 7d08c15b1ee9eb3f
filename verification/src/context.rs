//! Information about the backend a request is about to be sent to.
//!
//! A [`Context`] stores the base URL and the port of the server under test.
//! Performing the request itself is I/O and lives outside this library; the
//! context only carries the two configuration values.

use vstd::prelude::*;

verus! {

/// Backend configuration: a host base URL and a port.
pub struct Context {
    host: &'static str,
    port: u16,
}

impl Context {
    /// The host a freshly created context points at.
    pub open spec fn default_host() -> Seq<char> {
        "http://localhost"@
    }

    /// The host this context points at.
    pub closed spec fn spec_host(&self) -> Seq<char> {
        self.host@
    }

    /// The port this context points at.
    pub closed spec fn spec_port(&self) -> u16 {
        self.port
    }

    /// Creates a new context with default values: host `http://localhost`,
    /// port `80`.
    pub fn new() -> (r: Context)
        ensures
            r.spec_host() == Context::default_host(),
            r.spec_port() == 80u16,
    {
        Context { host: "http://localhost", port: 80 }
    }

    /// Sets a host value. The previously-set host is discarded.
    pub fn with_host(self, host: &'static str) -> (r: Context)
        ensures
            r.spec_host() == host@,
            r.spec_port() == self.spec_port(),
    {
        let port = self.port;

        Context { host, port }
    }

    /// Sets a port value. The previously-set port is discarded.
    pub fn with_port(self, port: u16) -> (r: Context)
        ensures
            r.spec_host() == self.spec_host(),
            r.spec_port() == port,
    {
        let host = self.host;

        Context { host, port }
    }

    /// Read accessor for the host, for the I/O layer that composes the
    /// request URL.
    pub fn host(&self) -> (r: &'static str)
        ensures
            r@ == self.spec_host(),
    {
        self.host
    }

    /// Read accessor for the port, for the I/O layer that composes the
    /// request URL.
    pub fn port(&self) -> (r: u16)
        ensures
            r == self.spec_port(),
    {
        self.port
    }
}

} // verus!
