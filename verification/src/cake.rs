use vstd::prelude::*;

verus! {

/// Attributes of the cake qdisc's netlink options block, in the kernel's
/// declaration order. Only `BaseRate64` is ever written here.
#[derive(Clone, Copy, Debug, PartialEq, Eq, Structural)]
#[allow(dead_code)]
pub enum TcaCake {
    Unspec,
    Pad,
    BaseRate64,
    DiffservMode,
    ATM,
    FlowMode,
    Overhead,
    RTT,
    Target,
    Autorate,
    Memory,
    NAT,
    Raw,
    Wash,
    MPU,
    Ingress,
    AckFilter,
    SplitGso,
    FwMark,
    FwMarkStore,
    SCE,
}

/// The attribute's wire code: its position in the kernel's enumeration.
pub open spec fn spec_tca_cake_code(attr: TcaCake) -> u16 {
    match attr {
        TcaCake::Unspec => 0,
        TcaCake::Pad => 1,
        TcaCake::BaseRate64 => 2,
        TcaCake::DiffservMode => 3,
        TcaCake::ATM => 4,
        TcaCake::FlowMode => 5,
        TcaCake::Overhead => 6,
        TcaCake::RTT => 7,
        TcaCake::Target => 8,
        TcaCake::Autorate => 9,
        TcaCake::Memory => 10,
        TcaCake::NAT => 11,
        TcaCake::Raw => 12,
        TcaCake::Wash => 13,
        TcaCake::MPU => 14,
        TcaCake::Ingress => 15,
        TcaCake::AckFilter => 16,
        TcaCake::SplitGso => 17,
        TcaCake::FwMark => 18,
        TcaCake::FwMarkStore => 19,
        TcaCake::SCE => 20,
    }
}

impl TcaCake {
    /// The numeric code that goes into the netlink attribute header.
    pub fn code(self) -> (r: u16)
        ensures
            r == spec_tca_cake_code(self),
    {
        match self {
            TcaCake::Unspec => 0,
            TcaCake::Pad => 1,
            TcaCake::BaseRate64 => 2,
            TcaCake::DiffservMode => 3,
            TcaCake::ATM => 4,
            TcaCake::FlowMode => 5,
            TcaCake::Overhead => 6,
            TcaCake::RTT => 7,
            TcaCake::Target => 8,
            TcaCake::Autorate => 9,
            TcaCake::Memory => 10,
            TcaCake::NAT => 11,
            TcaCake::Raw => 12,
            TcaCake::Wash => 13,
            TcaCake::MPU => 14,
            TcaCake::Ingress => 15,
            TcaCake::AckFilter => 16,
            TcaCake::SplitGso => 17,
            TcaCake::FwMark => 18,
            TcaCake::FwMarkStore => 19,
            TcaCake::SCE => 20,
        }
    }
}

} // verus!
