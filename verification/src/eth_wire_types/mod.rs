pub mod items;
pub mod message;
pub mod payloads;
pub mod snap;
pub mod status;
pub mod version;
