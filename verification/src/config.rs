//! The settings of a server.

use crate::text::{decimal, to_decimal};
use vstd::prelude::*;

verus! {

/// What a [`Config`] holds, as plain values.
pub struct ConfigView {
    pub port: u16,
    pub directory: Seq<char>,
    pub index_file: Seq<char>,
    pub not_found_uri: Seq<char>,
}

impl ConfigView {
    /// The address on which the server listens: every interface, at the port.
    pub open spec fn bind_address(self) -> Seq<char> {
        "0.0.0.0:"@ + decimal(self.port as nat)
    }
}

/// The settings of a server. They stay as they are while it runs.
#[derive(Debug, PartialEq, Eq)]
pub struct Config {
    /// The port to listen on.
    pub port: u16,
    /// The document root: requested paths are looked up below it.
    pub directory: String,
    /// The file that stands for a directory, such as `index.html`.
    pub index_file: String,
    /// The document sent when a resource is missing, relative to the root.
    pub not_found_uri: String,
}

impl View for Config {
    type V = ConfigView;

    open spec fn view(&self) -> ConfigView {
        ConfigView {
            port: self.port,
            directory: self.directory@,
            index_file: self.index_file@,
            not_found_uri: self.not_found_uri@,
        }
    }
}

impl Config {
    /// The address on which the server listens.
    pub fn bind_address(&self) -> (address: String)
        ensures
            address@ == self@.bind_address(),
    {
        let mut address = "0.0.0.0:".to_owned();
        let port = to_decimal(self.port as u64);
        address.append(port.as_str());
        address
    }
}

} // verus!
