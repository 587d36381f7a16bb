//! Packets: the 24-byte head that frames each packet on the wire, the packet
//! itself, and the reader that cuts packets out of a stream of bytes.

use crate::buffer::{buf_as_mut_slice, buf_as_slice, buf_clone, buf_from_slice, buf_contents, buf_len, buf_split_to, buf_zeroed};
use crate::codec::{
    be_bytes, be_value, lemma_be_bytes_len, lemma_be_value_of_bytes, lemma_pow256_values, push_be,
    read_be,
};
use crate::utils::Timestamp;
use crate::values::PackedValues;
use bytes::BytesMut;
use vstd::prelude::*;

verus! {

/// The largest body length a head may announce, and the largest amount of
/// buffered input the reader accepts.
pub const XTR_MAX_PACKET_SIZE: u32 = 64 * 1024 * 1024;

/// The largest stream id a head may carry.
pub const XTR_MAX_STREAM_ID: u32 = 0xffff;

/// The number of bytes a head takes on the wire.
pub const PACKET_HEAD_SIZE: usize = 24;

/// The flag bits that have a meaning.
pub const PACKET_FLAGS_KNOWN: u8 = 0x6d;

/// `std::io::Error`, carried opaquely inside `PacketError::Io`.
#[verifier::external_type_specification]
#[verifier::external_body]
pub struct ExIoError(std::io::Error);

/// Why a head or a stream of packets was refused.
#[derive(Debug)]
pub enum PacketError {
    /// More input was buffered than a packet may hold: (buffered, limit).
    BufferTooLarge(u32, u32),
    InvalidHead,
    /// The head names a stream beyond `XTR_MAX_STREAM_ID`.
    InvalidStreamId(u32),
    /// The announced length is below the minimum: (length, minimum).
    LengthTooSmall(u32, u32),
    /// The announced length is above the maximum: (length, maximum).
    LengthTooLarge(u32, u32),
    /// Too few bytes for a head: (available, needed).
    NotEnoughData(u32, u32),
    /// The type byte names no packet type.
    UnknownType(u8),
    /// The underlying stream failed.
    Io(std::io::Error),
}

impl From<std::io::Error> for PacketError {
    fn from(err: std::io::Error) -> (r: Self) {
        PacketError::Io(err)
    }
}

impl vstd::std_specs::convert::FromSpecImpl<std::io::Error> for PacketError {
    open spec fn obeys_from_spec() -> bool {
        true
    }

    open spec fn from_spec(err: std::io::Error) -> Self {
        PacketError::Io(err)
    }
}

/// The kind of a packet, as its head's type byte names it.
#[derive(Copy, Clone, Debug, PartialEq, Eq, PartialOrd, Ord, Structural)]
pub enum PacketType {
    Data,
    Headers,
    Priority,
    Reset,
    Settings,
    PushPromise,
    Ping,
    GoAway,
    WindowUpdate,
    Continuation,
    BinCode,
    Json,
    PackedValues,
    Unknown,
}

impl PacketType {
    /// The type that a code names; every code above 12 names `Unknown`.
    pub open spec fn from_code(v: int) -> PacketType {
        if v == 0 {
            PacketType::Data
        } else if v == 1 {
            PacketType::Headers
        } else if v == 2 {
            PacketType::Priority
        } else if v == 3 {
            PacketType::Reset
        } else if v == 4 {
            PacketType::Settings
        } else if v == 5 {
            PacketType::PushPromise
        } else if v == 6 {
            PacketType::Ping
        } else if v == 7 {
            PacketType::GoAway
        } else if v == 8 {
            PacketType::WindowUpdate
        } else if v == 9 {
            PacketType::Continuation
        } else if v == 10 {
            PacketType::BinCode
        } else if v == 11 {
            PacketType::Json
        } else if v == 12 {
            PacketType::PackedValues
        } else {
            PacketType::Unknown
        }
    }

    /// The code of a type: its position in the declaration, `Unknown` being 13.
    pub open spec fn code(self) -> u8 {
        match self {
            PacketType::Data => 0,
            PacketType::Headers => 1,
            PacketType::Priority => 2,
            PacketType::Reset => 3,
            PacketType::Settings => 4,
            PacketType::PushPromise => 5,
            PacketType::Ping => 6,
            PacketType::GoAway => 7,
            PacketType::WindowUpdate => 8,
            PacketType::Continuation => 9,
            PacketType::BinCode => 10,
            PacketType::Json => 11,
            PacketType::PackedValues => 12,
            PacketType::Unknown => 13,
        }
    }

    fn from_usize(val: usize) -> (r: PacketType)
        ensures
            r == PacketType::from_code(val as int),
    {
        match val {
            0 => PacketType::Data,
            1 => PacketType::Headers,
            2 => PacketType::Priority,
            3 => PacketType::Reset,
            4 => PacketType::Settings,
            5 => PacketType::PushPromise,
            6 => PacketType::Ping,
            7 => PacketType::GoAway,
            8 => PacketType::WindowUpdate,
            9 => PacketType::Continuation,
            10 => PacketType::BinCode,
            11 => PacketType::Json,
            12 => PacketType::PackedValues,
            _ => PacketType::Unknown,
        }
    }

    /// The type that the code `typ` names.
    pub fn new(typ: u8) -> (r: Self)
        ensures
            r == PacketType::from_code(typ as int),
    {
        PacketType::from_usize(typ as usize)
    }

    /// The code of this type, as written into a head.
    pub fn to_u8(self) -> (r: u8)
        ensures
            r == self.code(),
    {
        match self {
            PacketType::Data => 0,
            PacketType::Headers => 1,
            PacketType::Priority => 2,
            PacketType::Reset => 3,
            PacketType::Settings => 4,
            PacketType::PushPromise => 5,
            PacketType::Ping => 6,
            PacketType::GoAway => 7,
            PacketType::WindowUpdate => 8,
            PacketType::Continuation => 9,
            PacketType::BinCode => 10,
            PacketType::Json => 11,
            PacketType::PackedValues => 12,
            PacketType::Unknown => 13,
        }
    }
}

impl From<u8> for PacketType {
    fn from(val: u8) -> (r: Self) {
        PacketType::from_usize(val as usize)
    }
}

impl vstd::std_specs::convert::FromSpecImpl<u8> for PacketType {
    open spec fn obeys_from_spec() -> bool {
        true
    }

    open spec fn from_spec(val: u8) -> Self {
        PacketType::from_code(val as int)
    }
}

impl From<u16> for PacketType {
    fn from(val: u16) -> (r: Self) {
        PacketType::from_usize(val as usize)
    }
}

impl vstd::std_specs::convert::FromSpecImpl<u16> for PacketType {
    open spec fn obeys_from_spec() -> bool {
        true
    }

    open spec fn from_spec(val: u16) -> Self {
        PacketType::from_code(val as int)
    }
}

impl From<u32> for PacketType {
    fn from(val: u32) -> (r: Self) {
        PacketType::from_usize(val as usize)
    }
}

impl vstd::std_specs::convert::FromSpecImpl<u32> for PacketType {
    open spec fn obeys_from_spec() -> bool {
        true
    }

    open spec fn from_spec(val: u32) -> Self {
        PacketType::from_code((val as usize) as int)
    }
}

impl From<usize> for PacketType {
    fn from(val: usize) -> (r: Self) {
        PacketType::from_usize(val)
    }
}

impl vstd::std_specs::convert::FromSpecImpl<usize> for PacketType {
    open spec fn obeys_from_spec() -> bool {
        true
    }

    open spec fn from_spec(val: usize) -> Self {
        PacketType::from_code(val as int)
    }
}

/// The flag byte of a head.  The field is the raw byte; the meaningful bits
/// are `PACKET_FLAGS_KNOWN`.
#[derive(Copy, Clone, Debug, PartialEq, Eq, Structural)]
pub struct PacketFlags(pub u8);

impl PacketFlags {
    /// No flag set.
    pub fn empty() -> (r: Self)
        ensures
            r.0 == 0,
    {
        PacketFlags(0)
    }

    /// Every meaningful flag set.
    pub fn all() -> (r: Self)
        ensures
            r.0 == PACKET_FLAGS_KNOWN,
    {
        PacketFlags(PACKET_FLAGS_KNOWN)
    }

    /// The last packet of its stream.
    pub fn end_stream() -> (r: Self)
        ensures
            r.0 == 0x01,
    {
        PacketFlags(0x01)
    }

    /// The last packet of a header block.
    pub fn end_headers() -> (r: Self)
        ensures
            r.0 == 0x04,
    {
        PacketFlags(0x04)
    }

    /// The body is padded.
    pub fn padded() -> (r: Self)
        ensures
            r.0 == 0x08,
    {
        PacketFlags(0x08)
    }

    /// The packet carries a priority.
    pub fn priority() -> (r: Self)
        ensures
            r.0 == 0x20,
    {
        PacketFlags(0x20)
    }

    /// The body must not be changed.
    pub fn readonly() -> (r: Self)
        ensures
            r.0 == 0x40,
    {
        PacketFlags(0x40)
    }

    /// The raw flag byte.
    pub fn bits(&self) -> (r: u8)
        ensures
            r == self.0,
    {
        self.0
    }

    /// The flags of `bits`, the bits without a meaning dropped.
    pub fn from_bits_truncate(bits: u8) -> (r: Self)
        ensures
            r.0 == bits & PACKET_FLAGS_KNOWN,
    {
        PacketFlags(bits & PACKET_FLAGS_KNOWN)
    }

    /// The flags of `bits`, or `None` when a bit without a meaning is set.
    pub fn from_bits(bits: u8) -> (r: Option<Self>)
        ensures
            r == (if bits & PACKET_FLAGS_KNOWN == bits {
                Some(PacketFlags(bits))
            } else {
                None
            }),
    {
        if bits & PACKET_FLAGS_KNOWN == bits {
            Some(PacketFlags(bits))
        } else {
            None
        }
    }

    /// The flags of `bits`, every bit kept.
    pub fn from_bits_retain(bits: u8) -> (r: Self)
        ensures
            r.0 == bits,
    {
        PacketFlags(bits)
    }

    /// Whether no bit is set.
    pub fn is_empty(&self) -> (r: bool)
        ensures
            r == (self.0 == 0),
    {
        self.0 == 0
    }

    /// Whether every bit of `other` is set here.
    pub fn contains(&self, other: PacketFlags) -> (r: bool)
        ensures
            r == (self.0 & other.0 == other.0),
    {
        self.0 & other.0 == other.0
    }

    /// Sets the bits of `other`.
    pub fn insert(&mut self, other: PacketFlags)
        ensures
            final(self).0 == old(self).0 | other.0,
    {
        self.0 = self.0 | other.0;
    }

    /// Clears the bits of `other`.
    pub fn remove(&mut self, other: PacketFlags)
        ensures
            final(self).0 == old(self).0 & !other.0,
    {
        self.0 = self.0 & !other.0;
    }

    /// The bits set in either.
    pub fn union(self, other: PacketFlags) -> (r: Self)
        ensures
            r.0 == self.0 | other.0,
    {
        PacketFlags(self.0 | other.0)
    }
}

impl From<u8> for PacketFlags {
    fn from(val: u8) -> (r: Self) {
        PacketFlags::from_bits_truncate(val)
    }
}

impl vstd::std_specs::convert::FromSpecImpl<u8> for PacketFlags {
    open spec fn obeys_from_spec() -> bool {
        true
    }

    open spec fn from_spec(val: u8) -> Self {
        PacketFlags(val & PACKET_FLAGS_KNOWN)
    }
}

impl From<PacketFlags> for u8 {
    fn from(val: PacketFlags) -> (r: Self) {
        val.0
    }
}

impl vstd::std_specs::convert::FromSpecImpl<PacketFlags> for u8 {
    open spec fn obeys_from_spec() -> bool {
        true
    }

    open spec fn from_spec(val: PacketFlags) -> Self {
        val.0
    }
}

/// The head of a packet.
#[derive(Copy, Clone, Debug, PartialEq, Eq, Structural)]
pub struct PacketHead {
    /// The length of the body in bytes.
    pub length: u32,
    pub type_: PacketType,
    pub flags: PacketFlags,
    pub stream_id: u32,
    /// A sequence number chosen by the sender.
    pub seq: u32,
    /// A timestamp in microseconds chosen by the sender.
    pub ts: u64,
}

/// The head that the first 22 bytes of `s` spell: length, type, flags
/// (unknown bits dropped), stream id, sequence number and timestamp, each
/// number big-endian.
pub open spec fn head_fields(s: Seq<u8>) -> PacketHead {
    PacketHead {
        length: be_value(s.subrange(0, 4)) as u32,
        type_: PacketType::from_code(s[4] as int),
        flags: PacketFlags(s[5] & PACKET_FLAGS_KNOWN),
        stream_id: be_value(s.subrange(6, 10)) as u32,
        seq: be_value(s.subrange(10, 14)) as u32,
        ts: be_value(s.subrange(14, 22)) as u64,
    }
}

/// What parsing the bytes `s` as a head gives.
pub open spec fn parse_head(s: Seq<u8>) -> Result<PacketHead, PacketError> {
    if s.len() < PACKET_HEAD_SIZE {
        Err(PacketError::NotEnoughData(s.len() as u32, PACKET_HEAD_SIZE as u32))
    } else {
        let h = head_fields(s);
        if h.length < 4 {
            Err(PacketError::LengthTooSmall(h.length, 4))
        } else if h.length > XTR_MAX_PACKET_SIZE {
            Err(PacketError::LengthTooLarge(h.length, XTR_MAX_PACKET_SIZE))
        } else if h.type_ == PacketType::Unknown {
            Err(PacketError::UnknownType(s[4]))
        } else if h.stream_id > XTR_MAX_STREAM_ID {
            Err(PacketError::InvalidStreamId(h.stream_id))
        } else {
            Ok(h)
        }
    }
}

/// The 24 bytes that stand for a head on the wire; the last two are zero.
pub open spec fn head_bytes(h: PacketHead) -> Seq<u8> {
    be_bytes(h.length as nat, 4) + seq![h.type_.code(), h.flags.0] + be_bytes(
        h.stream_id as nat,
        4,
    ) + be_bytes(h.seq as nat, 4) + be_bytes(h.ts as nat, 8) + seq![0u8, 0u8]
}

/// A head that parsing accepts.
pub open spec fn head_is_valid(h: PacketHead) -> bool {
    &&& 4 <= h.length <= XTR_MAX_PACKET_SIZE
    &&& h.type_ != PacketType::Unknown
    &&& h.stream_id <= XTR_MAX_STREAM_ID
    &&& h.flags.0 & PACKET_FLAGS_KNOWN == h.flags.0
}

impl PacketHead {
    /// A head with sequence number zero, stamped with `now`.
    pub fn new(
        length: u32,
        type_: PacketType,
        flags: PacketFlags,
        stream_id: u32,
        now: Timestamp,
    ) -> (h: Self)
        ensures
            h == (PacketHead { length, type_, flags, stream_id, seq: 0, ts: now.0 }),
    {
        PacketHead { length, type_, flags, stream_id, seq: 0, ts: now.as_micros() }
    }

    /// Reads a head from the first 24 bytes of `data` and checks it.
    pub fn parse(data: &[u8]) -> (r: Result<PacketHead, PacketError>)
        ensures
            r == parse_head(data@),
    {
        if data.len() < PACKET_HEAD_SIZE {
            return Err(PacketError::NotEnoughData(data.len() as u32, PACKET_HEAD_SIZE as u32));
        }
        let length = read_be(data, 0, 4) as u32;
        let raw_type = data[4];
        let type_ = PacketType::new(raw_type);
        let flags = PacketFlags::from_bits_truncate(data[5]);
        let stream_id = read_be(data, 6, 4) as u32;
        let seq = read_be(data, 10, 4) as u32;
        let ts = read_be(data, 14, 8);
        if length < 4 {
            return Err(PacketError::LengthTooSmall(length, 4));
        } else if length > XTR_MAX_PACKET_SIZE {
            return Err(PacketError::LengthTooLarge(length, XTR_MAX_PACKET_SIZE));
        }
        if type_ == PacketType::Unknown {
            return Err(PacketError::UnknownType(raw_type));
        }
        if stream_id > XTR_MAX_STREAM_ID {
            return Err(PacketError::InvalidStreamId(stream_id));
        }
        Ok(PacketHead { length, type_, flags, stream_id, seq, ts })
    }

    /// The head as 24 bytes on the wire.
    pub fn to_bytes(&self) -> (b: [u8; 24])
        ensures
            b@ == head_bytes(*self),
    {
        let mut v: Vec<u8> = Vec::new();
        push_be(&mut v, self.length as u64, 4);
        v.push(self.type_.to_u8());
        v.push(self.flags.bits());
        push_be(&mut v, self.stream_id as u64, 4);
        push_be(&mut v, self.seq as u64, 4);
        push_be(&mut v, self.ts, 8);
        v.push(0);
        v.push(0);
        proof {
            lemma_be_bytes_len(self.length as nat, 4);
            lemma_be_bytes_len(self.stream_id as nat, 4);
            lemma_be_bytes_len(self.seq as nat, 4);
            lemma_be_bytes_len(self.ts as nat, 8);
            assert(v@ =~= head_bytes(*self));
        }
        let mut bytes = [0u8; 24];
        let mut i: usize = 0;
        while i < 24
            invariant
                v@ == head_bytes(*self),
                v@.len() == 24,
                i <= 24,
                forall|j: int| 0 <= j < i ==> bytes@[j] == v@[j],
            decreases 24 - i,
        {
            bytes[i] = v[i];
            i = i + 1;
        }
        proof {
            assert(bytes@ =~= v@);
        }
        bytes
    }
}

/// A packet: its head and its body.
#[derive(Debug)]
pub struct Packet {
    pub head: PacketHead,
    pub data: BytesMut,
}

impl Packet {
    /// A packet whose body is `head.length` zero bytes, ready to be filled.
    pub fn alloc_data(head: PacketHead) -> (p: Self)
        ensures
            p.head == head,
            buf_contents(p.data) == Seq::new(head.length as nat, |i: int| 0u8),
    {
        let data = buf_zeroed(head.length as usize);
        Packet::with_data(head, data)
    }

    /// A packet of `head` and the body `data`.
    pub fn with_data(head: PacketHead, data: BytesMut) -> (p: Self)
        ensures
            p.head == head,
            p.data == data,
    {
        Packet { head, data }
    }

    /// A packet of type `PackedValues` whose body is a copy of the table `pv`,
    /// stamped with `now`.  The announced length is the table's length as a
    /// `u32`.
    pub fn with_packed_values(
        pv: PackedValues,
        flags: PacketFlags,
        stream_id: u32,
        now: Timestamp,
    ) -> (p: Self)
        ensures
            p.head == (PacketHead {
                length: pv@.len() as u32,
                type_: PacketType::PackedValues,
                flags,
                stream_id,
                seq: 0,
                ts: now.0,
            }),
            buf_contents(p.data) == pv@,
    {
        let bytes = pv.as_bytes();
        let head = PacketHead::new(bytes.len() as u32, PacketType::PackedValues, flags, stream_id, now);
        let data = buf_from_slice(pv.as_bytes());
        Packet { head, data }
    }

    /// The body read as a table of values.
    pub fn to_packed_values(&self) -> (pv: PackedValues)
        ensures
            pv@ == buf_contents(self.data),
    {
        PackedValues::with_bytes(self.as_bytes())
    }

    /// The body.
    pub fn as_bytes(&self) -> (s: &[u8])
        ensures
            s@ == buf_contents(self.data),
    {
        buf_as_slice(&self.data)
    }

    /// The body, to be written in place.
    pub fn as_mut_bytes(&mut self) -> (s: &mut [u8])
        ensures
            s@ == buf_contents(old(self).data),
            final(self).head == old(self).head,
            buf_contents(final(self).data) == final(s)@,
    {
        buf_as_mut_slice(&mut self.data)
    }

    pub fn flags(&self) -> (r: PacketFlags)
        ensures
            r == self.head.flags,
    {
        self.head.flags
    }

    pub fn set_flags(&mut self, val: PacketFlags)
        ensures
            final(self).head == (PacketHead { flags: val, ..old(self).head }),
            final(self).data == old(self).data,
    {
        self.head.flags = val;
    }

    pub fn length(&self) -> (r: u32)
        ensures
            r == self.head.length,
    {
        self.head.length
    }

    pub fn set_length(&mut self, length: u32)
        ensures
            final(self).head == (PacketHead { length, ..old(self).head }),
            final(self).data == old(self).data,
    {
        self.head.length = length;
    }

    pub fn seq(&self) -> (r: u32)
        ensures
            r == self.head.seq,
    {
        self.head.seq
    }

    pub fn set_seq(&mut self, seq: u32)
        ensures
            final(self).head == (PacketHead { seq, ..old(self).head }),
            final(self).data == old(self).data,
    {
        self.head.seq = seq;
    }

    pub fn stream_id(&self) -> (r: u32)
        ensures
            r == self.head.stream_id,
    {
        self.head.stream_id
    }

    pub fn set_stream_id(&mut self, stream_id: u32)
        ensures
            final(self).head == (PacketHead { stream_id, ..old(self).head }),
            final(self).data == old(self).data,
    {
        self.head.stream_id = stream_id;
    }

    pub fn ts(&self) -> (r: u64)
        ensures
            r == self.head.ts,
    {
        self.head.ts
    }

    pub fn set_ts(&mut self, ts: u64)
        ensures
            final(self).head == (PacketHead { ts, ..old(self).head }),
            final(self).data == old(self).data,
    {
        self.head.ts = ts;
    }

    pub fn type_(&self) -> (r: PacketType)
        ensures
            r == self.head.type_,
    {
        self.head.type_
    }

    pub fn set_type(&mut self, val: PacketType)
        ensures
            final(self).head == (PacketHead { type_: val, ..old(self).head }),
            final(self).data == old(self).data,
    {
        self.head.type_ = val;
    }
}

impl Clone for Packet {
    fn clone(&self) -> (r: Self)
        ensures
            r.head == self.head,
            buf_contents(r.data) == buf_contents(self.data),
    {
        Packet { head: self.head, data: buf_clone(&self.data) }
    }
}

impl AsRef<[u8]> for Packet {
    /// The body.
    fn as_ref(&self) -> (s: &[u8])
        ensures
            s@ == buf_contents(self.data),
    {
        self.as_bytes()
    }
}

impl AsMut<[u8]> for Packet {
    /// The body, to be written in place.
    fn as_mut(&mut self) -> (s: &mut [u8])
        ensures
            s@ == buf_contents(old(self).data),
            final(self).head == old(self).head,
            buf_contents(final(self).data) == final(s)@,
    {
        self.as_mut_bytes()
    }
}

/// What one step of the reader makes of its input.
pub enum Decoded {
    /// The input is refused.
    Rejected(PacketError),
    /// More input is needed.
    Pending,
    /// A packet is complete: its head and body.
    Framed(PacketHead, Seq<u8>),
}

/// One step of the reader, from the head it holds (if any) and the buffered
/// input `buf`: the outcome, the head it holds afterwards and the input left.
///
/// Input above `XTR_MAX_PACKET_SIZE` bytes (counted as a `u32`) is refused
/// untouched.  Without a head, 24 buffered bytes are taken and parsed as one;
/// a head that parsing refuses is dropped.  With a head, once its `length`
/// bytes are buffered they are taken as the body.
pub open spec fn decode_step(pending: Option<PacketHead>, buf: Seq<u8>) -> (
    Decoded,
    Option<PacketHead>,
    Seq<u8>,
) {
    if (buf.len() as u32) > XTR_MAX_PACKET_SIZE {
        (
            Decoded::Rejected(PacketError::BufferTooLarge(buf.len() as u32, XTR_MAX_PACKET_SIZE)),
            pending,
            buf,
        )
    } else {
        let starts = pending is None && buf.len() >= PACKET_HEAD_SIZE;
        let parsed = parse_head(buf.subrange(0, PACKET_HEAD_SIZE as int));
        let rest = if starts {
            buf.subrange(PACKET_HEAD_SIZE as int, buf.len() as int)
        } else {
            buf
        };
        match (starts, parsed) {
            (true, Err(e)) => (Decoded::Rejected(e), None, rest),
            _ => {
                let head = if starts {
                    match parsed {
                        Ok(h) => Some(h),
                        Err(_) => None,
                    }
                } else {
                    pending
                };
                match head {
                    Some(h) => if rest.len() >= h.length {
                        (
                            Decoded::Framed(h, rest.subrange(0, h.length as int)),
                            None,
                            rest.subrange(h.length as int, rest.len() as int),
                        )
                    } else {
                        (Decoded::Pending, head, rest)
                    },
                    None => (Decoded::Pending, head, rest),
                }
            },
        }
    }
}

/// Whether the reader's result `r` is the outcome `d`.
pub open spec fn decoded_as(r: Result<Option<Packet>, PacketError>, d: Decoded) -> bool {
    match d {
        Decoded::Rejected(e) => r == Err::<Option<Packet>, PacketError>(e),
        Decoded::Pending => r matches Ok(None),
        Decoded::Framed(h, body) => r matches Ok(Some(p)) && p.head == h && buf_contents(p.data)
            == body,
    }
}

/// Cuts packets out of a stream of bytes: a head, then as many bytes of body
/// as the head announces.
pub struct PacketReader {
    head: Option<PacketHead>,
}

impl PacketReader {
    /// The head read but whose body has not arrived yet.
    pub closed spec fn pending(&self) -> Option<PacketHead> {
        self.head
    }

    /// A reader that holds no head.
    pub fn new() -> (r: Self)
        ensures
            r.pending() is None,
    {
        PacketReader { head: None }
    }

    /// Takes what it can from `src`: a head, if none is held, then a body.
    pub fn decode(&mut self, src: &mut BytesMut) -> (r: Result<Option<Packet>, PacketError>)
        ensures
            ({
                let (d, head, rest) = decode_step(old(self).pending(), buf_contents(*old(src)));
                &&& decoded_as(r, d)
                &&& final(self).pending() == head
                &&& buf_contents(*final(src)) == rest
            }),
    {
        let len = buf_len(src);
        if len as u32 > XTR_MAX_PACKET_SIZE {
            return Err(PacketError::BufferTooLarge(len as u32, XTR_MAX_PACKET_SIZE));
        }
        if self.head.is_none() && len >= PACKET_HEAD_SIZE {
            let data = buf_split_to(src, PACKET_HEAD_SIZE);
            match PacketHead::parse(buf_as_slice(&data)) {
                Ok(ph) => {
                    self.head = Some(ph);
                },
                Err(e) => {
                    return Err(e);
                },
            }
        }
        match self.head {
            Some(ph) => {
                if buf_len(src) >= ph.length as usize {
                    let body = buf_split_to(src, ph.length as usize);
                    self.head = None;
                    return Ok(Some(Packet::with_data(ph, body)));
                }
            },
            None => {},
        }
        Ok(None)
    }
}

impl Default for PacketReader {
    fn default() -> (r: Self) {
        PacketReader::new()
    }
}

/// Every known packet type is named by its own code.
pub proof fn lemma_packet_type_code(t: PacketType)
    ensures
        t != PacketType::Unknown ==> PacketType::from_code(t.code() as int) == t,
        t.code() <= 13,
{
}

/// A code that names a known type is that type's code.
pub proof fn lemma_packet_type_from_code(v: int)
    ensures
        PacketType::from_code(v) != PacketType::Unknown ==> PacketType::from_code(v).code() == v,
{
}

/// Dropping the unknown flag bits twice drops no more than once.
pub proof fn lemma_flags_truncate_idempotent(bits: u8)
    ensures
        (bits & PACKET_FLAGS_KNOWN) & PACKET_FLAGS_KNOWN == bits & PACKET_FLAGS_KNOWN,
{
    assert((bits & 0x6d) & 0x6d == bits & 0x6d) by (bit_vector);
}

/// A head that parsing accepts is given back by parsing its own bytes.
pub proof fn lemma_head_roundtrip(h: PacketHead)
    requires
        head_is_valid(h),
    ensures
        parse_head(head_bytes(h)) == Ok::<PacketHead, PacketError>(h),
        head_bytes(h).len() == PACKET_HEAD_SIZE,
{
    let s = head_bytes(h);
    lemma_pow256_values();
    lemma_be_value_of_bytes(h.length as nat, 4);
    lemma_be_value_of_bytes(h.stream_id as nat, 4);
    lemma_be_value_of_bytes(h.seq as nat, 4);
    lemma_be_value_of_bytes(h.ts as nat, 8);
    assert(s.len() == 24);
    assert(s.subrange(0, 4) =~= be_bytes(h.length as nat, 4));
    assert(s.subrange(6, 10) =~= be_bytes(h.stream_id as nat, 4));
    assert(s.subrange(10, 14) =~= be_bytes(h.seq as nat, 4));
    assert(s.subrange(14, 22) =~= be_bytes(h.ts as nat, 8));
    assert(s[4] == h.type_.code());
    assert(s[5] == h.flags.0);
    let f = head_fields(s);
    assert(f.flags == h.flags);
    assert(f == h);
}

/// What parsing accepts is a valid head, and writing it out and parsing again
/// gives it back.
pub proof fn lemma_parse_gives_valid_head(s: Seq<u8>)
    requires
        parse_head(s) is Ok,
    ensures
        head_is_valid(parse_head(s)->Ok_0),
        parse_head(head_bytes(parse_head(s)->Ok_0)) == parse_head(s),
{
    let h = parse_head(s)->Ok_0;
    let b = s[5];
    assert((b & 0x6d) & 0x6d == b & 0x6d) by (bit_vector);
    lemma_head_roundtrip(h);
}

/// The reader, holding no head, cuts a packet out of its head's bytes followed
/// by its body, and leaves what follows untouched.
pub proof fn lemma_decode_frames_packet(h: PacketHead, body: Seq<u8>, rest: Seq<u8>)
    requires
        head_is_valid(h),
        body.len() == h.length,
        PACKET_HEAD_SIZE + body.len() + rest.len() <= XTR_MAX_PACKET_SIZE,
    ensures
        decode_step(None, head_bytes(h) + body + rest) == (
            Decoded::Framed(h, body),
            None::<PacketHead>,
            rest,
        ),
{
    let buf = head_bytes(h) + body + rest;
    lemma_head_roundtrip(h);
    assert(head_bytes(h).len() == 24);
    assert(buf.subrange(0, 24) =~= head_bytes(h));
    let after = buf.subrange(24, buf.len() as int);
    assert(after =~= body + rest);
    assert(after.subrange(0, h.length as int) =~= body);
    assert(after.subrange(h.length as int, after.len() as int) =~= rest);
}

/// A reader waiting for a body leaves input that is still too short alone.
pub proof fn lemma_decode_waits_for_body(h: PacketHead, buf: Seq<u8>)
    requires
        head_is_valid(h),
        buf.len() < h.length,
    ensures
        decode_step(Some(h), buf) == (Decoded::Pending, Some(h), buf),
{
}

/// A reader holding a head takes, once the head's `length` bytes are
/// buffered, exactly those bytes as the body; it then holds no head and
/// leaves what follows untouched.
pub proof fn lemma_decode_completes_body(h: PacketHead, buf: Seq<u8>)
    requires
        buf.len() >= h.length,
        buf.len() <= XTR_MAX_PACKET_SIZE,
    ensures
        decode_step(Some(h), buf) == (
            Decoded::Framed(h, buf.subrange(0, h.length as int)),
            None::<PacketHead>,
            buf.subrange(h.length as int, buf.len() as int),
        ),
{
}

/// Whenever a step delivers a packet, the reader holds no head afterwards,
/// whatever it held before.
pub proof fn lemma_framed_leaves_no_head(pending: Option<PacketHead>, buf: Seq<u8>)
    ensures
        decode_step(pending, buf).0 is Framed ==> decode_step(pending, buf).1 is None,
{
}

/// A reader holding no head, given a head's bytes followed by less than its
/// body, takes the head, holds it, and leaves the partial body buffered.
pub proof fn lemma_decode_head_first(h: PacketHead, part: Seq<u8>)
    requires
        head_is_valid(h),
        part.len() < h.length,
        PACKET_HEAD_SIZE + part.len() <= XTR_MAX_PACKET_SIZE,
    ensures
        decode_step(None, head_bytes(h) + part) == (Decoded::Pending, Some(h), part),
{
    let buf = head_bytes(h) + part;
    lemma_head_roundtrip(h);
    assert(buf.subrange(0, 24) =~= head_bytes(h));
    assert(buf.subrange(24, buf.len() as int) =~= part);
}

/// A packet whose body arrives in two pieces is read in two steps: the first
/// takes the head and waits; the second, given the rest of the body and what
/// follows, delivers the packet, holds no head, and leaves what follows.
pub proof fn lemma_decode_split_body(h: PacketHead, b1: Seq<u8>, b2: Seq<u8>, rest: Seq<u8>)
    requires
        head_is_valid(h),
        b1.len() < h.length,
        b1.len() + b2.len() == h.length,
        PACKET_HEAD_SIZE + h.length + rest.len() <= XTR_MAX_PACKET_SIZE,
    ensures
        decode_step(None, head_bytes(h) + b1) == (Decoded::Pending, Some(h), b1),
        decode_step(Some(h), b1 + b2 + rest) == (
            Decoded::Framed(h, b1 + b2),
            None::<PacketHead>,
            rest,
        ),
{
    lemma_decode_head_first(h, b1);
    let buf = b1 + b2 + rest;
    lemma_decode_completes_body(h, buf);
    assert(buf.subrange(0, h.length as int) =~= b1 + b2);
    assert(buf.subrange(h.length as int, buf.len() as int) =~= rest);
}

/// The bytes of packets written one after another: each head, then its body.
pub open spec fn frames(ps: Seq<(PacketHead, Seq<u8>)>) -> Seq<u8>
    decreases ps.len(),
{
    if ps.len() == 0 {
        Seq::empty()
    } else {
        head_bytes(ps[0].0) + ps[0].1 + frames(ps.drop_first())
    }
}

/// A stream of packets is read back packet by packet: the reader, holding no
/// head, cuts the first packet out of the stream and leaves the others.
pub proof fn lemma_decode_stream(ps: Seq<(PacketHead, Seq<u8>)>, rest: Seq<u8>)
    requires
        ps.len() > 0,
        forall|i: int| 0 <= i < ps.len() ==> #[trigger] head_is_valid(ps[i].0),
        forall|i: int| 0 <= i < ps.len() ==> (#[trigger] ps[i].1).len() == ps[i].0.length,
        frames(ps).len() + rest.len() <= XTR_MAX_PACKET_SIZE,
    ensures
        decode_step(None, frames(ps) + rest) == (
            Decoded::Framed(ps[0].0, ps[0].1),
            None::<PacketHead>,
            frames(ps.drop_first()) + rest,
        ),
{
    let (h, body) = ps[0];
    assert(head_is_valid(ps[0].0));
    assert(ps[0].1.len() == ps[0].0.length);
    let tail = frames(ps.drop_first()) + rest;
    lemma_head_roundtrip(h);
    assert(frames(ps) + rest =~= head_bytes(h) + body + tail);
    lemma_decode_frames_packet(h, body, tail);
}

/// Setting flags makes them set; clearing them makes them clear.
pub proof fn lemma_flags_insert_remove(f: u8, g: u8)
    ensures
        (f | g) & g == g,
        g != 0 ==> (f & !g) & g != g,
{
    assert((f | g) & g == g) by (bit_vector);
    assert(g != 0 ==> (f & !g) & g != g) by (bit_vector);
}

} // verus!
