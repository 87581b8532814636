//! The device's peer-to-peer transfer endpoint: its listen port and where
//! received files are stored. The sockets themselves live with the caller.

use vstd::prelude::*;

use crate::text::dec_digits;
use crate::text::usize_to_decimal;

verus! {

/// The endpoint a device offers its peers for file transfer.
#[derive(Clone, Debug, PartialEq, Eq)]
pub struct TcpNetwork {
    pub listen_port: u16,
    pub file_storage: String,
}

impl TcpNetwork {
    pub fn new(listen_port: u16, file_storage: String) -> (r: TcpNetwork)
        ensures
            r.listen_port == listen_port,
            r.file_storage == file_storage,
    {
        TcpNetwork { listen_port, file_storage }
    }

    /// The address the transfer listener binds: every interface, this
    /// endpoint's port.
    pub fn bind_addr(&self) -> (r: String)
        ensures
            r@ == "0.0.0.0:"@ + dec_digits(self.listen_port as nat),
    {
        let mut out = "0.0.0.0:".to_owned();
        let port = usize_to_decimal(self.listen_port as usize);
        out.append(port.as_str());
        proof {
            assert(out@ =~= "0.0.0.0:"@ + dec_digits(self.listen_port as nat));
        }
        out
    }

    /// Where a received file is stored: the storage directory, a
    /// separator, the file's name.
    pub fn storage_path(&self, file_name: &str) -> (r: String)
        ensures
            r@ == self.file_storage@ + "/"@ + file_name@,
    {
        let mut out = self.file_storage.clone();
        out.append("/");
        out.append(file_name);
        proof {
            assert(out@ =~= self.file_storage@ + "/"@ + file_name@);
        }
        out
    }
}

} // verus!
