//! The server's configuration record and its validation. Reading the
//! command line and the environment happens outside the library; this
//! module holds the values and the rules they must satisfy.

use vstd::prelude::*;
use vstd::string::*;
use vstd::utf8::encode_utf8;
use crate::ascii;

verus! {

/// The configuration: bind address, file-serving root, pool size and
/// log verbosity.
#[derive(Debug, Clone)]
pub struct Config {
    pub port: u16,
    pub host: String,
    pub directory: String,
    pub workers: usize,
    pub verbose: bool,
}

impl Config {
    /// The full bind address, `host:port`, as bytes.
    pub fn server_address(&self) -> (r: Vec<u8>)
        ensures
            r@ == encode_utf8(self.host@) + (":").spec_bytes() + ascii::dec_rep(self.port as nat),
    {
        let mut v = self.host.as_str().as_bytes_vec();
        ascii::append_bytes(&mut v, ":".as_bytes());
        let d = ascii::dec_u64(self.port as u64);
        ascii::append_bytes(&mut v, d.as_slice());
        assert(v@ =~= encode_utf8(self.host@) + (":").spec_bytes() + ascii::dec_rep(
            self.port as nat,
        ));
        v
    }

    /// A configuration is valid exactly when the port and the worker
    /// count are both nonzero; each violation has its fixed message.
    pub fn validate(&self) -> (r: Result<(), String>)
        ensures
            r is Ok <==> (self.port != 0 && self.workers != 0),
            self.port == 0 ==> (r matches Err(msg) && msg@ == ("Port must be greater than 0")@),
            self.port != 0 && self.workers == 0 ==> (r matches Err(msg) && msg@ == (
            "Number of workers must be greater than 0")@),
    {
        if self.port == 0 {
            return Err(String::from_str("Port must be greater than 0"));
        }
        if self.workers == 0 {
            return Err(String::from_str("Number of workers must be greater than 0"));
        }
        Ok(())
    }
}

} // verus!
