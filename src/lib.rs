//! An in-process messaging fabric: endpoints on a net exchange raw byte
//! buffers, shared typed values and unique typed values.

pub use endpoint::Endpoint;
pub use message::Message;
pub use net::Net;
pub use nopointers::NoPointers;
pub use rawmessage::RawMessage;

pub mod timespec;
pub mod nopointers;
pub mod rawmessage;
pub mod syncmessage;
pub mod clonemessage;
pub mod message;
pub mod net;
pub mod endpoint;
