//! Nearby file transfer: transport selection, session tickets, framing and
//! chunked transfer, with every rule stated as a contract and proved.

pub mod protocol;
pub mod policy;
pub mod framing;
pub mod chunking;
pub mod digest;
pub mod receiver;
pub mod ticket;
pub mod discovery;
pub mod session;
pub mod units;
