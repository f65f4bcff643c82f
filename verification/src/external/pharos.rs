//! The Pharos pod network service.

use crate::server_url;
use vstd::prelude::*;

verus! {

/// The port Pharos listens on.
pub const PORT: u16 = 47006;

/// The URL of Pharos on the host at `host_ip`.
pub fn connect_pharos_server(host_ip: &str) -> (url: String)
    ensures
        url@ == server_url(host_ip@, PORT as nat),
{
    crate::connect_server(host_ip, PORT)
}

} // verus!
