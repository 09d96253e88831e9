//! The rules of a server for party games: who is answered what, what is sent to
//! which client, and how the secrets and the rooms are named.
//!
//! Nothing here waits for a socket or reads a file. What does is told what to do,
//! and tells how it went.
pub mod client;
pub mod code;
pub mod config;
pub mod entropy;
pub mod query;
pub mod room;
pub mod serve;
pub mod target;
pub mod text;
pub mod token;

pub use crate::client::{Client, ClientType, JBProfile, JBProfileRoles};
pub use crate::code::room_id;
pub use crate::config::{CacheMode, Ports, Tls};
pub use crate::room::{JBRoom, Room};
pub use crate::serve::serve_jb_tv;
pub use crate::token::Token;
