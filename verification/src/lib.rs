//! Verified core of the Pullpiri vehicle orchestration services: endpoint
//! addresses, the node agent configuration, the log queue and its drain
//! protocol, artifact signature checking with SHA-256/HMAC, and the
//! decisions of the gRPC senders and the Podman runtime.

pub mod actioncontroller;
pub mod apiserver;
pub mod artifact;
pub mod config;
pub mod external;
pub mod filtergateway;
pub mod grpc;
pub mod logd;
pub mod monitoringserver;
pub mod nodeagent;
pub mod podman;
pub mod policymanager;
pub mod sha256;
pub mod statemanager;
pub mod text;
pub mod yaml;

use crate::text::{decimal, push_decimal, push_str};
use vstd::prelude::*;

verus! {

/// `{host}:{port}`: the address a server of this host binds.
pub open spec fn server_address(host_ip: Seq<char>, port: nat) -> Seq<char> {
    host_ip + ":"@ + decimal(port)
}

/// `http://{host}:{port}`: the URL a client uses to reach a server of this host.
pub open spec fn server_url(host_ip: Seq<char>, port: nat) -> Seq<char> {
    "http://"@ + server_address(host_ip, port)
}

/// The URL of a server is its bind address behind `http://`.
pub proof fn lemma_url_is_http_address(host_ip: Seq<char>, port: nat)
    ensures
        server_url(host_ip, port) == "http://"@ + server_address(host_ip, port),
        server_address(host_ip, port).len() > host_ip.len() + 1,
{
    reveal_strlit(":");
    crate::text::lemma_decimal_nonempty(port);
}

/// The address a server on `port` binds, for the host at `host_ip`
/// (the host address that the settings file configures).
pub fn open_server(host_ip: &str, port: u16) -> (addr: String)
    ensures
        addr@ == server_address(host_ip@, port as nat),
{
    let mut s = String::new();
    push_str(&mut s, host_ip);
    push_str(&mut s, ":");
    push_decimal(&mut s, port as u64);
    assert(s@ =~= server_address(host_ip@, port as nat));
    s
}

/// The URL a client connects to for the server on `port` of the host at `host_ip`.
pub fn connect_server(host_ip: &str, port: u16) -> (url: String)
    ensures
        url@ == server_url(host_ip@, port as nat),
{
    let mut s = String::new();
    push_str(&mut s, "http://");
    push_str(&mut s, host_ip);
    push_str(&mut s, ":");
    push_decimal(&mut s, port as u64);
    assert(s@ =~= server_url(host_ip@, port as nat));
    s
}

/// The URL of a guest server: guests are always served by the host, so this
/// is the host's URL.
pub fn _connect_guest_server(host_ip: &str, port: u16) -> (url: String)
    ensures
        url@ == server_url(host_ip@, port as nat),
{
    connect_server(host_ip, port)
}

} // verus!
