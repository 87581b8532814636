//! The raw-socket request path: its handler state and the response
//! framing; reading and writing the socket is the caller's part, the
//! request grammar itself lives with the other wire grammar.

use vstd::prelude::*;

use crate::db::MongoDB;
use crate::registry::ClientGroup;
use crate::text::dec_digits;
use crate::text::usize_to_decimal;

verus! {

/// One request-handling worker: the registry it serves and the document
/// store it may persist to.
pub struct RequestHandler {
    pub client_group: ClientGroup,
    pub db: MongoDB,
}

impl RequestHandler {
    pub fn new(db_ip: String, db_port: u16) -> (r: RequestHandler)
        ensures
            r.client_group.wf(),
            r.client_group.groups() == Map::<u128, crate::device_manager::DeviceManager>::empty(),
            r.db.db_ip == db_ip,
            r.db.db_port == db_port,
    {
        RequestHandler { db: MongoDB::new(db_ip, db_port), client_group: ClientGroup::new() }
    }

    /// Frames a response body: the status line, the body's length, a blank
    /// line, the body. The length counts the body's characters.
    pub fn http_response_wrapping(response: String, http_version: String, http_status: String) -> (r:
        String)
        ensures
            r@ == http_version@ + " "@ + http_status@ + "\r\nContent-Length: "@ + dec_digits(
                response@.len(),
            ) + "\r\n\r\n"@ + response@,
    {
        let ghost version_view = http_version@;
        let len = usize_to_decimal(response.as_str().unicode_len());
        let mut out = http_version;
        out.append(" ");
        out.append(http_status.as_str());
        out.append("\r\nContent-Length: ");
        out.append(len.as_str());
        out.append("\r\n\r\n");
        out.append(response.as_str());
        proof {
            assert(out@ =~= version_view + " "@ + http_status@ + "\r\nContent-Length: "@
                + dec_digits(response@.len()) + "\r\n\r\n"@ + response@);
        }
        out
    }
}

} // verus!
