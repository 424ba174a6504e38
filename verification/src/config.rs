//! Boot-time configuration entities, immutable after load. Reading and
//! merging the sources (file and environment) happens outside the core; the
//! core receives the plain values.

use vstd::prelude::*;

verus! {

/// Server configuration.
#[derive(Clone, Debug)]
pub struct ServerConfig {
    pub data_dir: String,
    pub db_file: String,
    pub bind: Option<String>,
    pub dns_port: u16,
    pub api_port: u16,
    pub nameservers: Vec<String>,
    pub zones: Vec<ZoneConfig>,
}

impl Default for ServerConfig {
    /// The defaults: no bind address, DNS on 1053, the API on 8080, no
    /// upstreams and no zones. The data directory is left empty here; where
    /// it lands is a platform question settled outside the core.
    fn default() -> (r: Self)
        ensures
            r.data_dir@ == Seq::<char>::empty(),
            r.db_file@ == "swandns.db"@,
            r.bind is None,
            r.dns_port == 1053,
            r.api_port == 8080,
            r.nameservers@.len() == 0,
            r.zones@.len() == 0,
    {
        ServerConfig {
            data_dir: String::new(),
            db_file: String::from_str("swandns.db"),
            bind: None,
            dns_port: 1053,
            api_port: 8080,
            nameservers: Vec::new(),
            zones: Vec::new(),
        }
    }
}

/// One configured zone: the apex name and its static records.
#[derive(Clone, Debug)]
pub struct ZoneConfig {
    pub name: String,
    pub records: Vec<RecordConfig>,
}

/// One static record: a key (`@` for the apex, else a label) and an IP
/// literal.
#[derive(Clone, Debug)]
pub struct RecordConfig {
    pub key: String,
    pub value: String,
}

/// Client configuration.
#[derive(Clone, Debug)]
pub struct ClientConfig {
    pub default_server_url: Option<String>,
    pub default_bind: Option<String>,
    pub default_protocol: Option<String>,
    pub records: Vec<ClientRecordConfig>,
}

impl Default for ClientConfig {
    fn default() -> (r: Self)
        ensures
            r.default_server_url is None,
            r.default_bind is None,
            r.default_protocol is None,
            r.records@.len() == 0,
    {
        ClientConfig {
            default_server_url: None,
            default_bind: None,
            default_protocol: None,
            records: Vec::new(),
        }
    }
}

/// One record the client keeps updated.
#[derive(Clone, Debug)]
pub struct ClientRecordConfig {
    pub server_url: Option<String>,
    pub name: String,
    pub bind: Option<String>,
    pub protocol: Option<String>,
}

} // verus!
