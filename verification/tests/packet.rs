use bytes::BytesMut;
use xtr::packet::{XTR_MAX_PACKET_SIZE, XTR_MAX_STREAM_ID};
use xtr::{
    PackedValues, Packet, PacketError, PacketFlags, PacketHead, PacketReader, PacketType,
    Timestamp,
};

#[test]
fn packet_types_size() {
    assert_eq!(std::mem::size_of::<PacketFlags>(), 1);
    assert_eq!(std::mem::size_of::<PacketType>(), 1);
}

fn sample_head() -> PacketHead {
    let mut h = PacketHead::new(
        5,
        PacketType::PackedValues,
        PacketFlags::end_stream(),
        7,
        Timestamp::from(0x0102_0304_0506_0708u64),
    );
    h.seq = 0xA0B0_C0D0;
    h
}

#[test]
fn head_bytes_layout() {
    let h = sample_head();
    let b = h.to_bytes();
    assert_eq!(
        b,
        [
            0, 0, 0, 5, 12, 1, 0, 0, 0, 7, 0xA0, 0xB0, 0xC0, 0xD0, 1, 2, 3, 4, 5, 6, 7, 8, 0, 0
        ]
    );
}

#[test]
fn head_roundtrip() {
    let h = sample_head();
    let back = PacketHead::parse(&h.to_bytes()).unwrap();
    assert_eq!(back, h);
}

#[test]
fn head_errors() {
    let h = sample_head();
    assert!(matches!(
        PacketHead::parse(&h.to_bytes()[..23]),
        Err(PacketError::NotEnoughData(23, 24))
    ));
    let mut small = h;
    small.length = 3;
    assert!(matches!(
        PacketHead::parse(&small.to_bytes()),
        Err(PacketError::LengthTooSmall(3, 4))
    ));
    let mut large = h;
    large.length = XTR_MAX_PACKET_SIZE + 1;
    assert!(matches!(
        PacketHead::parse(&large.to_bytes()),
        Err(PacketError::LengthTooLarge(_, XTR_MAX_PACKET_SIZE))
    ));
    let mut unknown = h.to_bytes();
    unknown[4] = 200;
    assert!(matches!(PacketHead::parse(&unknown), Err(PacketError::UnknownType(200))));
    let mut stream = h;
    stream.stream_id = XTR_MAX_STREAM_ID + 1;
    assert!(matches!(
        PacketHead::parse(&stream.to_bytes()),
        Err(PacketError::InvalidStreamId(0x10000))
    ));
    let mut flags = h.to_bytes();
    flags[5] = 0xFF;
    assert_eq!(PacketHead::parse(&flags).unwrap().flags.bits(), 0x6D);
}

#[test]
fn io_errors_convert() {
    let e = std::io::Error::new(std::io::ErrorKind::Other, "x");
    assert!(matches!(PacketError::from(e), PacketError::Io(_)));
}

#[test]
fn packet_types() {
    assert_eq!(PacketType::new(0), PacketType::Data);
    assert_eq!(PacketType::new(12), PacketType::PackedValues);
    assert_eq!(PacketType::new(13), PacketType::Unknown);
    assert_eq!(PacketType::from(11u16), PacketType::Json);
    assert_eq!(PacketType::from(9u32), PacketType::Continuation);
    assert_eq!(PacketType::from(300usize), PacketType::Unknown);
    assert_eq!(PacketType::from(4u8), PacketType::Settings);
    assert_eq!(PacketType::GoAway.to_u8(), 7);
    assert_eq!(PacketType::GoAway as u8, 7);
}

#[test]
fn flags() {
    let mut f = PacketFlags::empty();
    assert!(f.is_empty());
    f.insert(PacketFlags::readonly());
    f.insert(PacketFlags::padded());
    assert_eq!(f.bits(), 0x48);
    assert!(f.contains(PacketFlags::readonly()));
    f.remove(PacketFlags::readonly());
    assert_eq!(u8::from(f), 0x08);
    assert_eq!(PacketFlags::from(0xFFu8).bits(), PacketFlags::all().bits());
    assert!(PacketFlags::from_bits(0x02).is_none());
    assert_eq!(PacketFlags::from_bits(0x21), Some(PacketFlags::priority().union(PacketFlags::end_stream())));
    assert_eq!(PacketFlags::from_bits_retain(0x02).bits(), 0x02);
    assert_eq!(PacketFlags::end_headers().bits(), 0x04);
}

#[test]
fn decoder_frames_packets() {
    let h = sample_head();
    let mut src = BytesMut::new();
    src.extend_from_slice(&h.to_bytes());
    src.extend_from_slice(b"hello");
    src.extend_from_slice(b"rest");
    let mut reader = PacketReader::new();
    let p = reader.decode(&mut src).unwrap().unwrap();
    assert_eq!(p.head, h);
    assert_eq!(p.as_bytes(), b"hello");
    assert_eq!(&src[..], b"rest");
}

#[test]
fn decoder_waits_for_body() {
    let h = sample_head();
    let mut src = BytesMut::new();
    src.extend_from_slice(&h.to_bytes());
    src.extend_from_slice(b"he");
    let mut reader = PacketReader::default();
    assert!(reader.decode(&mut src).unwrap().is_none());
    assert_eq!(&src[..], b"he");
    src.extend_from_slice(b"llo!");
    let p = reader.decode(&mut src).unwrap().unwrap();
    assert_eq!(p.as_bytes(), b"hello");
    assert_eq!(&src[..], b"!");
    assert!(reader.decode(&mut src).unwrap().is_none());
}

#[test]
fn decoder_rejects_bad_heads() {
    let mut bad = sample_head();
    bad.length = 2;
    let mut src = BytesMut::new();
    src.extend_from_slice(&bad.to_bytes());
    src.extend_from_slice(b"ab");
    let mut reader = PacketReader::new();
    assert!(matches!(reader.decode(&mut src), Err(PacketError::LengthTooSmall(2, 4))));
    assert_eq!(&src[..], b"ab");
    let mut big = BytesMut::new();
    big.resize(XTR_MAX_PACKET_SIZE as usize + 1, 0);
    assert!(matches!(
        reader.decode(&mut big),
        Err(PacketError::BufferTooLarge(_, XTR_MAX_PACKET_SIZE))
    ));
    assert_eq!(big.len(), XTR_MAX_PACKET_SIZE as usize + 1);
}

#[test]
fn packets_and_tables() {
    let mut pv = PackedValues::new();
    pv.put_u32(0x0001, 5000);
    pv.put_u32(0x0002, 50);
    let p = Packet::with_packed_values(pv, PacketFlags::empty(), 1, Timestamp::from(9u64));
    assert_eq!(p.length(), 16);
    assert_eq!(p.type_(), PacketType::PackedValues);
    assert_eq!(p.stream_id(), 1);
    assert_eq!(p.ts(), 9);
    assert_eq!(p.seq(), 0);
    let back = p.to_packed_values();
    assert_eq!(back.get_u32(0x0002), Some(50));
    assert_eq!(p.as_ref().len(), 16);
}

#[test]
fn packet_fields() {
    let h = PacketHead::new(3, PacketType::Data, PacketFlags::empty(), 2, Timestamp::from(1u64));
    let mut p = Packet::alloc_data(h);
    assert_eq!(p.as_bytes(), &[0, 0, 0][..]);
    p.as_mut_bytes()[1] = 7;
    assert_eq!(p.as_bytes(), &[0, 7, 0][..]);
    p.set_flags(PacketFlags::end_stream());
    p.set_length(4);
    p.set_seq(5);
    p.set_stream_id(6);
    p.set_ts(7);
    p.set_type(PacketType::Ping);
    assert_eq!(
        (p.flags().bits(), p.length(), p.seq(), p.stream_id(), p.ts(), p.type_()),
        (1, 4, 5, 6, 7, PacketType::Ping)
    );
    let q = p.clone();
    assert_eq!(q.as_bytes(), &[0, 7, 0][..]);
    let r = Packet::with_data(h, BytesMut::from(&b"ab"[..]));
    assert_eq!(r.as_bytes(), b"ab");
}

#[test]
fn decoder_reads_a_stream() {
    let a = PacketHead::new(4, PacketType::Ping, PacketFlags::empty(), 1, Timestamp::from(1u64));
    let b = PacketHead::new(6, PacketType::Json, PacketFlags::end_stream(), 2, Timestamp::from(2u64));
    let mut src = BytesMut::new();
    src.extend_from_slice(&a.to_bytes());
    src.extend_from_slice(b"ping");
    src.extend_from_slice(&b.to_bytes());
    src.extend_from_slice(b"{\"a\":}");
    let mut reader = PacketReader::new();
    let p = reader.decode(&mut src).unwrap().unwrap();
    assert_eq!((p.head, p.as_bytes()), (a, &b"ping"[..]));
    let q = reader.decode(&mut src).unwrap().unwrap();
    assert_eq!((q.head, q.as_bytes()), (b, &b"{\"a\":}"[..]));
    assert!(src.is_empty());
    assert!(reader.decode(&mut src).unwrap().is_none());
}

#[test]
fn doc_with_bytes_example() {
    let mut pv = PackedValues::new();
    pv.put_u32(0x0001, 1234);
    pv.put_u32(0x0002, 5678);
    let packet = Packet::with_packed_values(pv, PacketFlags::empty(), 0, Timestamp::from(0u64));
    let pv = PackedValues::with_bytes(packet.as_ref());
    assert_eq!(pv.get_u32(0x0001), Some(1234));
    assert_eq!(pv.get_u32(0x0002), Some(5678));
}
