//! The Timpani real-time scheduler.

use crate::server_url;
use vstd::prelude::*;

verus! {

/// The port Timpani listens on.
pub const PORT: u16 = 50052;

/// The URL of Timpani on the host at `host_ip`.
pub fn connect_timpani_server(host_ip: &str) -> (url: String)
    ensures
        url@ == server_url(host_ip@, PORT as nat),
{
    crate::connect_server(host_ip, PORT)
}

} // verus!
