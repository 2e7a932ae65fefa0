//! A real-time chat relay core: a room registry that fans text messages out
//! to the connections joined to a room, a presence tracker that derives each
//! user's online/away/offline status from login, activity, logout and a
//! periodic idle sweep, and a per-connection session state machine that binds
//! a (user, room) pair to a connection and turns its lifecycle into registry
//! and presence events.

pub mod clock;
pub mod presence;
pub mod registry;
pub mod relay;
pub mod session;
pub mod text;
