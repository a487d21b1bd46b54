//! The shared directory of users and sessions: the one authority for
//! identity, authentication and liveness.

pub mod model;
pub mod shared_state;
