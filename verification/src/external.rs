//! Endpoints of services outside Pullpiri that it calls on the host.

pub mod pharos;
pub mod timpani;
