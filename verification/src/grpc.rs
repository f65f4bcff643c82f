//! Decisions of the gRPC clients: the state manager sender's lazy
//! connection, and the errors a failed connection is reported as.

use crate::text::push_str;
use vstd::prelude::*;

verus! {

/// A gRPC status of the library's own: its code and message.
#[derive(Clone, Debug, PartialEq)]
pub enum GrpcError {
    /// Status code `Unknown`.
    Unknown(String),
    /// Status code `Unavailable`.
    Unavailable(String),
}

/// `Failed to connect to {service}: {reason}`.
pub open spec fn connect_failure_text(service: Seq<char>, reason: Seq<char>) -> Seq<char> {
    "Failed to connect to "@ + service + ": "@ + reason
}

/// The message reporting that connecting to `service` failed for `reason`.
pub fn connect_failure_message(service: &str, reason: &str) -> (m: String)
    ensures
        m@ == connect_failure_text(service@, reason@),
{
    let mut m = String::new();
    push_str(&mut m, "Failed to connect to ");
    push_str(&mut m, service);
    push_str(&mut m, ": ");
    push_str(&mut m, reason);
    m
}

/// The status a request to the node agent fails with when connecting to it
/// failed for `reason`.
pub fn node_agent_unreachable(reason: &str) -> (e: GrpcError)
    ensures
        e matches GrpcError::Unavailable(m) && m@ == connect_failure_text("NodeAgent"@, reason@),
{
    GrpcError::Unavailable(connect_failure_message("NodeAgent", reason))
}

/// The status a request to Pharos fails with when connecting to it failed
/// for `reason`.
pub fn pharos_unreachable(reason: &str) -> (e: GrpcError)
    ensures
        e matches GrpcError::Unavailable(m) && m@ == connect_failure_text("Pharos"@, reason@),
{
    GrpcError::Unavailable(connect_failure_message("Pharos", reason))
}

/// The client side of the API server's link to the state manager: the
/// connection is made on first use and kept for later requests.
pub struct StateManagerSender<C> {
    client: Option<C>,
}

impl<C> StateManagerSender<C> {
    /// The kept connection, if one was made.
    pub closed spec fn connection(&self) -> Option<C> {
        self.client
    }

    /// A sender with no connection yet.
    pub fn new() -> (s: Self)
        ensures
            s.connection() is None,
    {
        StateManagerSender { client: None }
    }

    /// Whether a connection must be made before a request can be sent.
    pub fn needs_connection(&self) -> (b: bool)
        ensures
            b == self.connection() is None,
    {
        self.client.is_none()
    }

    /// Records how connecting went: a new connection is kept; a failure for
    /// `reason` is reported as an `Unknown` status, and the sender stays
    /// unconnected. A sender that is already connected keeps its connection
    /// and ignores the outcome.
    pub fn record_connection(&mut self, outcome: Result<C, String>) -> (res: Result<(), GrpcError>)
        ensures
            old(self).connection() is Some ==> res is Ok && final(self).connection() == old(
                self,
            ).connection(),
            old(self).connection() is None ==> match outcome {
                Ok(c) => {
                    &&& res is Ok
                    &&& final(self).connection() == Some(c)
                },
                Err(reason) => {
                    &&& res matches Err(GrpcError::Unknown(m))
                    &&& m@ == connect_failure_text("StateManager"@, reason@)
                    &&& final(self).connection() is None
                },
            },
    {
        if self.client.is_some() {
            return Ok(());
        }
        match outcome {
            Ok(c) => {
                self.client = Some(c);
                Ok(())
            },
            Err(reason) => Err(
                GrpcError::Unknown(connect_failure_message("StateManager", reason.as_str())),
            ),
        }
    }

    /// Takes the kept connection out to send a request on it; without one,
    /// the request fails with an `Unknown` status.
    pub fn take_connection(&mut self) -> (res: Result<C, GrpcError>)
        ensures
            old(self).connection() matches Some(c) ==> res == Ok::<C, GrpcError>(c),
            old(self).connection() is None ==> (res matches Err(GrpcError::Unknown(m)) && m@
                == "Client not connected"@),
            final(self).connection() is None,
    {
        match self.client.take() {
            Some(c) => Ok(c),
            None => Err(GrpcError::Unknown(crate::text::string_of("Client not connected"))),
        }
    }

    /// Keeps `c` as the connection after a request was sent on it.
    pub fn return_connection(&mut self, c: C)
        ensures
            final(self).connection() == Some(c),
    {
        self.client = Some(c);
    }
}

} // verus!
