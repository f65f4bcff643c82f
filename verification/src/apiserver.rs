//! Endpoints of the API server: a REST endpoint and a gRPC endpoint.

use crate::{server_address, server_url};
use vstd::prelude::*;

verus! {

/// The port of the REST endpoint.
pub const REST_PORT: u16 = 47099;

/// The port of the gRPC endpoint.
pub const GRPC_PORT: u16 = 47098;

/// The address the REST endpoint binds on the host at `host_ip`.
pub fn open_rest_server(host_ip: &str) -> (addr: String)
    ensures
        addr@ == server_address(host_ip@, REST_PORT as nat),
{
    crate::open_server(host_ip, REST_PORT)
}

/// The address the gRPC endpoint binds on the host at `host_ip`.
pub fn open_grpc_server(host_ip: &str) -> (addr: String)
    ensures
        addr@ == server_address(host_ip@, GRPC_PORT as nat),
{
    crate::open_server(host_ip, GRPC_PORT)
}

/// The URL clients use to reach the gRPC endpoint on the host at `host_ip`.
pub fn connect_grpc_server(host_ip: &str) -> (url: String)
    ensures
        url@ == server_url(host_ip@, GRPC_PORT as nat),
{
    crate::connect_server(host_ip, GRPC_PORT)
}

} // verus!
