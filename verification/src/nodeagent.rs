//! Endpoints of the node agent.

pub mod fromactioncontroller;
