//! A lighter framing variant: the same 24-byte head, read without checking
//! its fields, and stamped with time zero when made.

use crate::codec::{
    be_bytes, be_value, lemma_be_bytes_len, lemma_be_value_of_bytes, lemma_pow256_values, push_be,
    read_be,
};
use crate::packet::{PACKET_FLAGS_KNOWN, PACKET_HEAD_SIZE, PacketFlags, PacketType};
use vstd::prelude::*;

verus! {

/// Why a head was refused.
#[derive(Copy, Clone, Debug, PartialEq, Eq, Structural)]
pub enum PacketError {
    LengthTooLarge,
    /// Fewer than 24 bytes.
    NotEnoughData,
    UnknownType(u8),
}

/// The head of a packet.
#[derive(Copy, Clone, Debug, PartialEq, Eq, Structural)]
pub struct PacketHead {
    pub length: u32,
    pub type_: PacketType,
    pub flags: PacketFlags,
    pub stream_id: u32,
    pub seq: u32,
    pub ts: u64,
}

/// The head that the first 22 bytes of `s` spell, each number big-endian and
/// unknown flag bits dropped.
pub open spec fn lite_fields(s: Seq<u8>) -> PacketHead {
    PacketHead {
        length: be_value(s.subrange(0, 4)) as u32,
        type_: PacketType::from_code(s[4] as int),
        flags: PacketFlags(s[5] & PACKET_FLAGS_KNOWN),
        stream_id: be_value(s.subrange(6, 10)) as u32,
        seq: be_value(s.subrange(10, 14)) as u32,
        ts: be_value(s.subrange(14, 22)) as u64,
    }
}

/// What parsing `s` gives: any 24 bytes are a head.
pub open spec fn lite_parse(s: Seq<u8>) -> Result<PacketHead, PacketError> {
    if s.len() < PACKET_HEAD_SIZE {
        Err(PacketError::NotEnoughData)
    } else {
        Ok(lite_fields(s))
    }
}

/// The 24 bytes that stand for a head; the last two are zero.
pub open spec fn lite_bytes(h: PacketHead) -> Seq<u8> {
    be_bytes(h.length as nat, 4) + seq![h.type_.code(), h.flags.0] + be_bytes(
        h.stream_id as nat,
        4,
    ) + be_bytes(h.seq as nat, 4) + be_bytes(h.ts as nat, 8) + seq![0u8, 0u8]
}

impl PacketHead {
    /// A head with sequence number and timestamp zero.
    pub fn new(length: u32, type_: PacketType, flags: PacketFlags, stream_id: u32) -> (h: Self)
        ensures
            h == (PacketHead { length, type_, flags, stream_id, seq: 0, ts: 0 }),
    {
        PacketHead { length, type_, flags, stream_id, seq: 0, ts: 0 }
    }

    /// Reads a head from the first 24 bytes of `data`.
    pub fn parse(data: &[u8]) -> (r: Result<PacketHead, PacketError>)
        ensures
            r == lite_parse(data@),
    {
        if data.len() < PACKET_HEAD_SIZE {
            return Err(PacketError::NotEnoughData);
        }
        let length = read_be(data, 0, 4) as u32;
        let type_ = PacketType::new(data[4]);
        let flags = PacketFlags::from_bits_truncate(data[5]);
        let stream_id = read_be(data, 6, 4) as u32;
        let seq = read_be(data, 10, 4) as u32;
        let ts = read_be(data, 14, 8);
        Ok(PacketHead { length, type_, flags, stream_id, seq, ts })
    }

    /// The head as 24 bytes.
    pub fn to_bytes(&self) -> (b: [u8; 24])
        ensures
            b@ == lite_bytes(*self),
    {
        let mut v: Vec<u8> = Vec::new();
        push_be(&mut v, self.length as u64, 4);
        v.push(self.type_.to_u8());
        v.push(self.flags.bits());
        push_be(&mut v, self.stream_id as u64, 4);
        push_be(&mut v, self.seq as u64, 4);
        push_be(&mut v, self.ts, 8);
        v.push(0);
        v.push(0);
        proof {
            lemma_be_bytes_len(self.length as nat, 4);
            lemma_be_bytes_len(self.stream_id as nat, 4);
            lemma_be_bytes_len(self.seq as nat, 4);
            lemma_be_bytes_len(self.ts as nat, 8);
            assert(v@ =~= lite_bytes(*self));
        }
        let mut bytes = [0u8; 24];
        let mut i: usize = 0;
        while i < 24
            invariant
                v@ == lite_bytes(*self),
                v@.len() == 24,
                i <= 24,
                forall|j: int| 0 <= j < i ==> bytes@[j] == v@[j],
            decreases 24 - i,
        {
            bytes[i] = v[i];
            i = i + 1;
        }
        proof {
            assert(bytes@ =~= v@);
        }
        bytes
    }
}

/// Every head whose flags have only known bits is given back by parsing its
/// own bytes.
pub proof fn lemma_lite_roundtrip(h: PacketHead)
    requires
        h.flags.0 & PACKET_FLAGS_KNOWN == h.flags.0,
    ensures
        lite_parse(lite_bytes(h)) == Ok::<PacketHead, PacketError>(h),
{
    let s = lite_bytes(h);
    lemma_pow256_values();
    lemma_be_value_of_bytes(h.length as nat, 4);
    lemma_be_value_of_bytes(h.stream_id as nat, 4);
    lemma_be_value_of_bytes(h.seq as nat, 4);
    lemma_be_value_of_bytes(h.ts as nat, 8);
    assert(s.subrange(0, 4) =~= be_bytes(h.length as nat, 4));
    assert(s.subrange(6, 10) =~= be_bytes(h.stream_id as nat, 4));
    assert(s.subrange(10, 14) =~= be_bytes(h.seq as nat, 4));
    assert(s.subrange(14, 22) =~= be_bytes(h.ts as nat, 8));
    assert(s[4] == h.type_.code());
    assert(PacketType::from_code(h.type_.code() as int) == h.type_);
    assert(lite_fields(s) == h);
}

} // verus!
