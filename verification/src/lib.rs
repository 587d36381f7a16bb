//! A framed transport protocol: packet heads, a stream decoder for packets,
//! and a compact table of typed values addressed by 16-bit registers.

pub mod buffer;
pub mod client;
pub mod codec;
pub mod lite;
pub mod packet;
pub mod server;
pub mod utils;
pub mod values;

pub use client::{ClientSettings, ClientState, ConnectOutcome, NextStep};
pub use packet::{Packet, PacketError, PacketFlags, PacketHead, PacketReader, PacketType};
pub use server::{Session, SessionState};
pub use utils::Timestamp;
pub use values::{
    PackedItem, PackedItemIter, PackedItemMapTo, PackedScalar, PackedValueKind, PackedValues,
    PackedValuesRead, PackedValuesWrite, Scan,
};

use vstd::prelude::*;

verus! {

/// The protocol version announced by a client right after it connects.
pub const PROTO_VERSION: u32 = 0x0001_0001;

} // verus!
