//! OpenSound Control: the values of the protocol, their wire format and a
//! message builder.
pub mod types;
pub mod wire;
pub mod codec;
pub mod laws;
pub mod builder;
pub mod routing;
pub mod utils;
pub mod notes;
pub mod packet;
