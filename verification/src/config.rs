//! The session's static configuration: the servers to connect to, each
//! with its defaults applied. Discovery and parsing of the on-disk
//! configuration happen outside; the values arrive here as plain data.

use vstd::prelude::*;

verus! {

/// The default for flags that are on unless the configuration turns
/// them off.
pub fn bool_true() -> (r: bool)
    ensures
        r == true,
{
    true
}

/// The default port of the line-based chat protocol over TLS.
pub fn default_port() -> (r: u16)
    ensures
        r == 6697,
{
    6697
}

/// One server to connect to.
#[derive(Debug)]
pub struct ServerConfig {
    pub host: String,
    pub port: u16,
    pub use_tls: bool,
    pub accept_invalid_cert: bool,
    pub nickname: Vec<String>,
    pub realname: Option<String>,
    pub autojoin: Vec<String>,
}

impl ServerConfig {
    /// A server entry with every optional field at its default: the
    /// standard TLS port, TLS on, certificates checked, no real name,
    /// nothing joined automatically.
    pub fn with_defaults(host: String, nickname: Vec<String>) -> (r: ServerConfig)
        ensures
            r.host == host,
            r.nickname == nickname,
            r.port == 6697,
            r.use_tls == true,
            r.accept_invalid_cert == false,
            r.realname is None,
            r.autojoin@ == Seq::<String>::empty(),
    {
        let r = ServerConfig {
            host,
            port: default_port(),
            use_tls: bool_true(),
            accept_invalid_cert: false,
            nickname,
            realname: None,
            autojoin: Vec::new(),
        };
        r
    }
}

/// The whole configuration: the servers in file order.
#[derive(Debug)]
pub struct TircConfig {
    pub servers: Vec<ServerConfig>,
}

} // verus!
