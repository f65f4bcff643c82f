//! Endpoints of the filter gateway service.

use crate::{server_address, server_url};
use vstd::prelude::*;

verus! {

/// The port the filter gateway listens on.
pub const PORT: u16 = 47002;

/// The address the filter gateway binds on the host at `host_ip`.
pub fn open_server(host_ip: &str) -> (addr: String)
    ensures
        addr@ == server_address(host_ip@, PORT as nat),
{
    crate::open_server(host_ip, PORT)
}

/// The URL clients use to reach the filter gateway on the host at `host_ip`.
pub fn connect_server(host_ip: &str) -> (url: String)
    ensures
        url@ == server_url(host_ip@, PORT as nat),
{
    crate::connect_server(host_ip, PORT)
}

} // verus!
