//! The decisions of a network that agrees on transactions by practical Byzantine
//! fault tolerance (pBFT): the packets its nodes exchange, the rules by which
//! they count votes, and the steps that a leader, a peer, a bootnode and a client
//! take.
//!
//! Nothing here reads or writes a socket or a clock. Each step takes what has
//! happened and says what is to be done next; the program around the library
//! does it.

pub mod agreement;
pub mod bootnode;
pub mod client;
pub mod crypto;
pub mod engine;
pub mod error;
pub mod layout;
pub mod leader;
pub mod network;
pub mod packet;
pub mod peer;
pub mod quorum;
pub mod reader;
pub mod retry;
pub mod state;
pub mod tools;
pub mod vote;
pub mod wire;
