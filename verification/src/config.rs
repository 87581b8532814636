//! A device's configuration: where the coordinator is and how the device
//! itself serves peer file transfers.

use vstd::prelude::*;

use crate::text::dec_digits;
use crate::text::usize_to_decimal;

verus! {

/// Where the coordinator ("master") is reached.
#[derive(Clone, Debug, PartialEq, Eq)]
pub struct ServerConfig {
    pub master_ip: String,
    pub master_port: u16,
}

/// How the device serves peers: its download directory and listen port.
#[derive(Clone, Debug, PartialEq, Eq)]
pub struct ClientConfig {
    pub file_storage: String,
    pub listen_port: u16,
}

#[derive(Clone, Debug, PartialEq, Eq)]
pub struct Config {
    pub server: ServerConfig,
    pub client: ClientConfig,
}

impl Config {
    /// The configuration used when no configuration file is found.
    pub fn fallback() -> (r: Config)
        ensures
            r.server.master_ip@ == "http://127.0.0.1"@,
            r.server.master_port == 8080,
            r.client.file_storage@ == "/tmp"@,
            r.client.listen_port == 8081,
    {
        Config {
            server: ServerConfig { master_ip: "http://127.0.0.1".to_owned(), master_port: 8080 },
            client: ClientConfig { file_storage: "/tmp".to_owned(), listen_port: 8081 },
        }
    }

    /// The coordinator's address: its host, a colon, its port in decimal.
    pub fn master_addr(&self) -> (r: String)
        ensures
            r@ == self.server.master_ip@ + ":"@ + dec_digits(self.server.master_port as nat),
    {
        let mut out = self.server.master_ip.clone();
        out.append(":");
        let port = usize_to_decimal(self.server.master_port as usize);
        out.append(port.as_str());
        proof {
            assert(out@ =~= self.server.master_ip@ + ":"@ + dec_digits(
                self.server.master_port as nat,
            ));
        }
        out
    }
}

} // verus!
