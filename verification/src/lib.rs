//! Orchestration engine for fetching Workshop items on a dedicated game server.
//!
//! The engine is a set of pure state machines. The host performs the outside
//! work (backend calls, file access, callback delivery) and reports what it
//! observed; the functions here decide what happens next.

pub mod artifact;
pub mod callbacks;
pub mod item_id;
pub mod resolver;
pub mod session;
pub mod util;
pub mod workshop;
