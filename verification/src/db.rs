//! Where the document store is reached; the connection itself is made by
//! the caller.

use vstd::prelude::*;

use crate::text::dec_digits;
use crate::text::usize_to_decimal;

verus! {

/// The document store's endpoint.
#[derive(Clone, Debug, PartialEq, Eq)]
pub struct MongoDB {
    pub db_ip: String,
    pub db_port: u16,
}

impl MongoDB {
    pub fn new(db_ip: String, db_port: u16) -> (r: MongoDB)
        ensures
            r.db_ip == db_ip,
            r.db_port == db_port,
    {
        MongoDB { db_ip, db_port }
    }

    /// The store's connection string: the scheme, its host, its port.
    pub fn connection_uri(&self) -> (r: String)
        ensures
            r@ == "mongodb://"@ + self.db_ip@ + ":"@ + dec_digits(self.db_port as nat),
    {
        let mut out = "mongodb://".to_owned();
        out.append(self.db_ip.as_str());
        out.append(":");
        let port = usize_to_decimal(self.db_port as usize);
        out.append(port.as_str());
        proof {
            assert(out@ =~= "mongodb://"@ + self.db_ip@ + ":"@ + dec_digits(self.db_port as nat));
        }
        out
    }
}

} // verus!
