//! A line-oriented chat protocol: the rules by which a server session moves
//! from handshake to relay to departure, how lines are framed on the wire, and
//! what a client sends and shows.

pub mod acceptor;
pub mod bus;
pub mod client;
pub mod identity;
pub mod message;
pub mod session;
pub mod text;
pub mod transport;
