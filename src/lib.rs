//! A matchmaking and relay server's core: the lobby of advertised players,
//! the pairings between them, and the decisions that each remote call makes
//! on that state. The transport that carries the calls lives outside.
pub mod message;
pub mod methods;
pub mod types;
