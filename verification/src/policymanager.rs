//! Endpoints of the policy manager service.

use crate::{server_address, server_url};
use vstd::prelude::*;

verus! {

/// The port the policy manager listens on.
pub const PORT: u16 = 47005;

/// The address the policy manager binds on the host at `host_ip`.
pub fn open_server(host_ip: &str) -> (addr: String)
    ensures
        addr@ == server_address(host_ip@, PORT as nat),
{
    crate::open_server(host_ip, PORT)
}

/// The URL clients use to reach the policy manager on the host at `host_ip`.
pub fn connect_server(host_ip: &str) -> (url: String)
    ensures
        url@ == server_url(host_ip@, PORT as nat),
{
    crate::connect_server(host_ip, PORT)
}

} // verus!
