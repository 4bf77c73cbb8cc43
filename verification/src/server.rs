//! The bind address of the serving process. The listening socket and
//! the HTTP loop live outside the library; this type only carries the
//! address and renders it.

use vstd::prelude::*;
use crate::text::{chars_of, dec_rep, string_from_chars, u64_to_chars};

verus! {

/// Where the process serves: an IP (or host name) and a port.
pub struct Server {
    pub ip: String,
    pub port: u64,
}

impl Server {
    /// A server at the given address.
    pub fn new(ip: String, port: u64) -> (s: Server)
        ensures
            s.ip@ == ip@,
            s.port == port,
    {
        Server { ip, port }
    }

    /// The address as `ip:port` text.
    pub fn get_address(&self) -> (r: String)
        ensures
            r@ == self.ip@ + seq![':'] + dec_rep(self.port as nat),
    {
        let mut chars = chars_of(self.ip.as_str());
        chars.push(':');
        let digits = u64_to_chars(self.port);
        crate::ser::append_chars(&mut chars, &digits);
        proof {
            assert(chars@ =~= self.ip@ + seq![':'] + dec_rep(self.port as nat));
        }
        string_from_chars(&chars)
    }
}

} // verus!
