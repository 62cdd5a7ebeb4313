//! A netplay lobby: rooms that players join and leave, administrators who log in, and the link
//! messages that travel inside a room.
pub mod admin;
pub mod api;
pub mod channel;
pub mod clock;
pub mod headers;
pub mod ids;
pub mod json;
pub mod laws;
pub mod laws_admin;
pub mod laws_link;
pub mod laws_lobby;
pub mod laws_values;
pub mod link;
pub mod lobby;
pub mod model;
pub mod room;
pub mod state;
pub mod table;
pub mod text;

use vstd::prelude::*;

verus! {

} // verus!
