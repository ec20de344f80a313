pub mod access;
pub mod data;
pub mod decode;
pub mod encode;
pub mod fields;
pub mod flags;
pub mod laws;
pub mod message;
pub mod sdo;
pub mod topic;
pub mod varint;

pub use data::{AsciiString, Data, DataType, DateTime, Field, FloatValue, Message, SDO, WireType};
pub use flags::{ClientType, PacketFlags};
pub use sdo::{BROADCAST_ADDRESS, BROADCAST_UPDATE_ADDRESS, OneOrMany};
pub use topic::Topic;
