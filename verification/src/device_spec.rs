//! The capability descriptor a device registers with its group.

use vstd::prelude::*;

use crate::text::dec_digits;
use crate::text::usize_to_decimal;

verus! {

/// A device's descriptor: its address, operating system and version, and
/// the port it listens on for peer file transfers, when it has one.
/// Replaced wholesale on re-registration; never patched field by field.
#[derive(Clone, Debug, PartialEq, Eq)]
pub struct DeviceSpec {
    pub ip: String,
    pub os: String,
    pub os_version: String,
    pub listen_port: Option<String>,
}

impl DeviceSpec {
    pub fn new(ip: String, os: String, os_version: String, listen_port: Option<String>) -> (r:
        DeviceSpec)
        ensures
            r.ip == ip,
            r.os == os,
            r.os_version == os_version,
            r.listen_port == listen_port,
    {
        DeviceSpec { ip, os, os_version, listen_port }
    }

    /// One line of a device listing: the device's number in the list, its
    /// system and version, and its address.
    pub fn summary(&self, idx: usize) -> (r: String)
        ensures
            r@ == dec_digits(idx as nat) + "> "@ + self.os@ + "("@ + self.os_version@ + ")_"@
                + self.ip@,
    {
        let mut out = usize_to_decimal(idx);
        out.append("> ");
        out.append(self.os.as_str());
        out.append("(");
        out.append(self.os_version.as_str());
        out.append(")_");
        out.append(self.ip.as_str());
        proof {
            assert(out@ =~= dec_digits(idx as nat) + "> "@ + self.os@ + "("@ + self.os_version@
                + ")_"@ + self.ip@);
        }
        out
    }

    /// Where a peer reaches this device for file transfer, when it listens:
    /// its address, a colon, its listen port.
    pub fn peer_addr(&self) -> (r: Option<String>)
        ensures
            r is Some <==> self.listen_port is Some,
            r is Some ==> r->Some_0@ == self.ip@ + ":"@ + self.listen_port->Some_0@,
    {
        match &self.listen_port {
            Some(port) => {
                let mut out = self.ip.clone();
                out.append(":");
                out.append(port.as_str());
                proof {
                    assert(out@ =~= self.ip@ + ":"@ + self.listen_port->Some_0@);
                }
                Some(out)
            },
            None => None,
        }
    }
}

} // verus!
