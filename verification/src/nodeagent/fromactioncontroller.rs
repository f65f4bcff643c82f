//! The node agent endpoint that the action controller calls: every node runs
//! its agent on a fixed port of its own address.

use crate::text::{decimal, push_decimal, push_str};
use vstd::prelude::*;

verus! {

/// The port of the node agent on every node.
pub const PORT: u16 = 47004;

/// The URL of the node agent of the node at `node_ip`.
pub fn connect_server(node_ip: &str) -> (url: String)
    ensures
        url@ == "http://"@ + node_ip@ + ":"@ + decimal(PORT as nat),
{
    let mut s = String::new();
    push_str(&mut s, "http://");
    push_str(&mut s, node_ip);
    push_str(&mut s, ":");
    push_decimal(&mut s, PORT as u64);
    s
}

} // verus!
