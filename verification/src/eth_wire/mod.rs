pub mod capability;
pub mod disconnect;
pub mod errors;
pub mod fork_filter;
pub mod handshake;
pub mod eth_snap_stream;
pub mod ethstream;
pub mod hello;
pub mod p2pstream;
pub mod pinger;
pub mod protocol;
pub mod snappy;
