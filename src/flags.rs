use vstd::prelude::*;

verus! {

/// The packet flags of a payload: a set of bits, of which `FIRST` and `LAST` are known.
#[derive(Clone, Copy, Debug, PartialEq, Eq, Structural)]
pub struct PacketFlags {
    pub bits: u32,
}

impl PacketFlags {
    pub const CONTINUE: u32 = 0;
    pub const FIRST: u32 = 1;
    pub const LAST: u32 = 2;

    /// The flags of `bits`, or `None` when a bit other than `FIRST` and `LAST` is set.
    pub fn from_bits(bits: u32) -> (r: Option<PacketFlags>)
        ensures
            bits & !3u32 == 0 ==> r == Some(PacketFlags { bits }),
            bits & !3u32 != 0 ==> r is None,
    {
        if bits & !3u32 == 0 {
            Some(PacketFlags { bits })
        } else {
            None
        }
    }

    /// Whether every bit of `flag` is set.
    pub fn contains(&self, flag: u32) -> (r: bool)
        ensures
            r == (self.bits & flag == flag),
    {
        self.bits & flag == flag
    }
}

/// The kind of client that sends a request.
#[derive(Clone, Copy, Debug, PartialEq, Eq, Structural)]
pub enum ClientType {
    Undefined,
    Wealth,
    Iress,
    WebIress,
    NetIress,
    WebServices,
    HTMLIress,
    FIX,
    Virtual,
    Mobile,
    RMS,
    IPS,
    Investor,
    MarketFeed,
    Admin,
    TraderPlus,
    All,
}

impl ClientType {
    pub open spec fn spec_code(self) -> u32 {
        match self {
            ClientType::Undefined => 0,
            ClientType::Wealth => 1,
            ClientType::Iress => 2,
            ClientType::WebIress => 4,
            ClientType::NetIress => 8,
            ClientType::WebServices => 16,
            ClientType::HTMLIress => 32,
            ClientType::FIX => 64,
            ClientType::Virtual => 128,
            ClientType::Mobile => 256,
            ClientType::RMS => 512,
            ClientType::IPS => 1024,
            ClientType::Investor => 2048,
            ClientType::MarketFeed => 4096,
            ClientType::Admin => 8192,
            ClientType::TraderPlus => 16384,
            ClientType::All => 65535,
        }
    }

    /// The code of a client type.
    pub fn code(&self) -> (r: u32)
        ensures
            r == self.spec_code(),
    {
        match self {
            ClientType::Undefined => 0,
            ClientType::Wealth => 1,
            ClientType::Iress => 2,
            ClientType::WebIress => 4,
            ClientType::NetIress => 8,
            ClientType::WebServices => 16,
            ClientType::HTMLIress => 32,
            ClientType::FIX => 64,
            ClientType::Virtual => 128,
            ClientType::Mobile => 256,
            ClientType::RMS => 512,
            ClientType::IPS => 1024,
            ClientType::Investor => 2048,
            ClientType::MarketFeed => 4096,
            ClientType::Admin => 8192,
            ClientType::TraderPlus => 16384,
            ClientType::All => 65535,
        }
    }
}

} // verus!
