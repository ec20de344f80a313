use vstd::prelude::*;

verus! {

/// Field ids that the message layer and the accessors of `SDO` read and write.
pub const REQUEST_ID: u32 = 74;
pub const TARGET_ID: u32 = 71;
pub const TARGET_NAME: u32 = 72;
pub const IS_TEST_DATA: u32 = 73;
pub const PACKET_FLAG: u32 = 79;
pub const HAS_MORE_DATA: u32 = 80;
pub const MESSAGE_SOURCE: u32 = 81;
pub const IS_WATCH_UPDATES: u32 = 82;
pub const WATCH_TOPIC: u32 = 83;
pub const WATCH_KEY_INDEX: u32 = 84;
pub const WATCH_REQUEST_ID: u32 = 85;
pub const TIMEOUT: u32 = 86;
pub const PAGE_SIZE: u32 = 87;

/// The field id of the request id in a message header.
pub const HEADER_ID: u32 = 74;

} // verus!
