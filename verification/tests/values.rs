use xtr::values::Scan;
use xtr::{
    PackedItemMapTo, PackedValueKind, PackedValues, PackedValuesRead, PackedValuesWrite,
};

#[test]
fn mixed_values() {
    let mut pv = PackedValues::new();
    pv.put_i16(0x0001, 1234);
    pv.put_i16(0x0002, -1234);
    pv.put_u16(0x0003, 43210);
    pv.put_u8s(0x0001, &b"1234567"[..]);
}

#[test]
fn array_values() {
    let mut pv = PackedValues::new();
    let bytes = (i8::MIN..=i8::MAX).collect::<Vec<i8>>();
    pv.put_i8s(0x0000, &bytes[..]);
    for i in 1..256 {
        let r = pv.get_i8s(0x0000, i as u16).unwrap();
        assert_eq!(&r[..i], &bytes[..i]);
    }
    pv.clear();
    let bytes = (u8::MIN..=u8::MAX).collect::<Vec<u8>>();
    pv.put_u8s(0x0000, &bytes[..]);
    for i in 1..256 {
        let r = pv.get_u8s(0x0000, i as u16).unwrap();
        assert_eq!(&r[..i], &bytes[..i]);
    }
}

#[test]
fn items_iter() {
    let mut pv = PackedValues::new();
    pv.put_i16(0x0000, 1234);
    pv.put_i16(0x0002, -1234);
    pv.put_u16(0x0004, 43210);
    pv.put_i32(0x0008, 12345678);
    pv.put_f32_bits(0x000C, 12345.678f32.to_bits());
    pv.put_f64_bits(0x0010, 12345.678f64.to_bits());
    pv.put_u8s(0x0018, &b"1234567"[..]);
    let mut it = pv.items();
    while let Some(item) = it.next() {
        match PackedValueKind::from(item.kind) {
            PackedValueKind::U8 => {
                if item.elms > 1 {
                    let v = pv.peek_u8s(item.addr, item.elms as u16, item.ipos as usize);
                    assert!(v.is_some());
                    assert_eq!(v, Some(b"1234567".to_vec()));
                }
            }
            PackedValueKind::I32 => {
                let v = pv.peek_i32(item.addr, item.ipos as usize);
                assert!(v.is_some());
                assert_eq!(v, Some(12345678));
            }
            PackedValueKind::F32 => {
                let v = pv.peek_f32_bits(item.addr, item.ipos as usize).map(f32::from_bits);
                assert!(v.is_some());
                assert_eq!(v, Some(12345.678));
            }
            PackedValueKind::F64 => {
                let v = pv.peek_f64_bits(item.addr, item.ipos as usize).map(f64::from_bits);
                assert!(v.is_some());
                assert_eq!(v, Some(12345.678));
            }
            _ => {}
        }
    }
    let mut it = pv.items();
    while let Some(item) = it.next() {
        match item.addr {
            0x0000 => {
                let mut v = 0i16;
                item.map_to(&pv, &mut v);
                assert_eq!(v, 1234);
            }
            0x0002 => {
                let mut v = 0i16;
                item.map_to(&pv, &mut v);
                assert_eq!(v, -1234);
            }
            _ => {}
        }
    }
}

#[test]
fn test_pv() {
    let pv = PackedValues::new();
    assert_eq!(pv.is_empty(), true);

    let mut pv = PackedValues::new();
    pv.put(0x0000, 1234i16);
    pv.put(0x0002, -1234i16);
    pv.put(0x0004, 43210u16);
    pv.put(0x0008, 12345678i32);
    pv.put_f32_bits(0x000C, 12345.678f32.to_bits());
    pv.put_f64_bits(0x0010, 12345.678f64.to_bits());
    pv.put(0x0020, "1234567");
    pv.put(0x0030, &b"1234567"[..]);
    assert_eq!(pv.get_i16(0x0000), Some(1234));
    assert_eq!(pv.get_i16(0x0002), Some(-1234));
    assert_eq!(pv.get_u16(0x0004), Some(43210));
    assert_eq!(pv.get_i32(0x0008), Some(12345678));
    assert_eq!(pv.get_f32_bits(0x000C).map(f32::from_bits), Some(12345.678));
    assert_eq!(pv.get_f64_bits(0x0010).map(f64::from_bits), Some(12345.678));
    assert_eq!(pv.get_u8s(0x0020, 7), Some(b"1234567".to_vec()));
    assert_eq!(pv.get_str(0x0020), "1234567");
    assert_eq!(pv.get_u8s(0x0030, 7), Some(b"1234567".to_vec()));
    assert_eq!(pv.get_str(0x0030), "1234567");
}

#[test]
fn put_writes_exact_bytes() {
    let mut pv = PackedValues::new();
    pv.put_u32(0x0102, 0xAABBCCDD);
    assert_eq!(pv.as_bytes(), &[0x00, 0x04, 0x01, 0x02, 0xAA, 0xBB, 0xCC, 0xDD][..]);
    pv.put_i16(0x0003, -2);
    assert_eq!(&pv.as_bytes()[8..], &[0x00, 0x82, 0x00, 0x03, 0xFF, 0xFE][..]);
    pv.put_u16s(0x0010, &[1, 2, 3]);
    assert_eq!(&pv.as_bytes()[14..], &[0x02, 0x02, 0x00, 0x10, 0, 1, 0, 2, 0, 3][..]);
}

#[test]
fn get_after_put_every_type() {
    let mut pv = PackedValues::new();
    pv.put_i8(1, -5);
    pv.put_i16(2, -300);
    pv.put_i32(3, -70000);
    pv.put_i64(4, -5_000_000_000);
    pv.put_u8(5, 200);
    pv.put_u16(6, 60000);
    pv.put_u32(7, 4_000_000_000);
    pv.put_u64(8, 18_000_000_000_000_000_000);
    assert_eq!(pv.get_i8(1), Some(-5));
    assert_eq!(pv.get_i16(2), Some(-300));
    assert_eq!(pv.get_i32(3), Some(-70000));
    assert_eq!(pv.get_i64(4), Some(-5_000_000_000));
    assert_eq!(pv.get_u8(5), Some(200));
    assert_eq!(pv.get_u16(6), Some(60000));
    assert_eq!(pv.get_u32(7), Some(4_000_000_000));
    assert_eq!(pv.get_u64(8), Some(18_000_000_000_000_000_000));
    assert_eq!(pv.get_u8(9), None);
}

#[test]
fn lookups_match_on_width_only() {
    let mut pv = PackedValues::new();
    pv.put_i32(0x0001, -1);
    assert_eq!(pv.get_u32(0x0001), Some(0xFFFF_FFFF));
    assert_eq!(pv.get_f32_bits(0x0001), Some(0xFFFF_FFFF));
    assert_eq!(pv.get_u16(0x0001), None);
}

#[test]
fn first_match_wins() {
    let mut pv = PackedValues::new();
    pv.put_u32(0x0001, 5000);
    pv.put_u32(0x0001, 6000);
    assert_eq!(pv.get_u32(0x0001), Some(5000));
}

#[test]
fn put_many_stores_one_value() {
    let mut pv = PackedValues::new();
    pv.put_u32s(0x0001, &[7]);
    assert!(!pv.is_empty());
    assert_eq!(pv.as_bytes(), &[0x00, 0x04, 0x00, 0x01, 0, 0, 0, 7][..]);
    assert_eq!(pv.get_u32s(0x0001, 4), Some(vec![7]));
    assert_eq!(pv.get_u32(0x0001), Some(7));
    let mut pv = PackedValues::new();
    pv.put_str(0x0002, "x");
    assert_eq!(pv.get_str(0x0002), "x");
    let mut pv = PackedValues::new();
    pv.put_u8s(0xFFFF, &[1, 2, 3]);
    assert_eq!(pv.as_bytes(), &[0x00, 0x01, 0xFF, 0xFF, 1][..]);
    assert_eq!(pv.get_u8s(0xFFFF, 3), Some(vec![1]));
    let mut pv = PackedValues::new();
    pv.put_u16s(0x0003, &[]);
    assert!(pv.is_empty());
}

#[test]
fn put_str_one_byte() {
    let mut pv = PackedValues::new();
    pv.put_str(0x0001, "a");
    assert!(!pv.is_empty());
    assert_eq!(pv.get_str(0x0001), "a");
}

#[test]
fn put_many_is_capped() {
    let mut pv = PackedValues::new();
    let vals: Vec<u8> = (0..=255u8).chain(0..10u8).collect();
    pv.put_u8s(0x0000, &vals[..]);
    assert_eq!(pv.as_bytes().len(), 4 + 256);
    assert_eq!(pv.as_bytes()[0], 255);
    let mut pv = PackedValues::new();
    pv.put_u16s(0xFFFE, &[1, 2, 3, 4]);
    assert_eq!(pv.as_bytes(), &[0x01, 0x02, 0xFF, 0xFE, 0, 1, 0, 2][..]);
}

#[test]
fn get_many_counts() {
    let mut pv = PackedValues::new();
    pv.put_u32s(0x0000, &[10, 20, 30]);
    assert_eq!(pv.get_u32s(0x0000, 0), None);
    assert_eq!(pv.get_u32s(0x0000, 2), Some(vec![10, 20]));
    assert_eq!(pv.get_u32s(0x0000, 9), Some(vec![10, 20, 30]));
    assert_eq!(pv.get_u32s(0x0000, 257), Some(vec![10, 20, 30]));
    assert_eq!(pv.get_u32(0x0000), None);
}

#[test]
fn get_many_to_copies_all_stored() {
    let mut pv = PackedValues::new();
    let bytes = (0u8..=255).collect::<Vec<u8>>();
    pv.put_u8s(0x0000, &bytes[..]);
    let mut dst = [0u8; 300];
    pv.get_many_to(0x0000, &mut dst[..]);
    for j in 0..256 {
        assert_eq!(dst[j], j as u8);
    }
    for j in 256..300 {
        assert_eq!(dst[j], 0);
    }
    assert_eq!(pv.get_u8s(0x0000, 300).map(|v| v.len()), Some(256));
    let mut dst = [0u8; 300];
    pv.peek_many_to(0x0000, 0, &mut dst[..]);
    assert_eq!(&dst[..256], &bytes[..]);
    assert_eq!(dst[299], 0);
}

#[test]
fn peek_at_items() {
    let mut pv = PackedValues::new();
    pv.put_u8(0x0005, 9);
    pv.put_u64s(0x0100, &[1, 2]);
    assert_eq!(pv.peek_u8(0x0005, 0), Some(9));
    assert_eq!(pv.peek_u64s(0x0100, 2, 5), Some(vec![1, 2]));
    assert_eq!(pv.peek_u64(0x0100, 5), Some(1));
    assert_eq!(pv.peek_u64(0x0101, 5), None);
    assert_eq!(pv.peek_u8(0x0005, 100), None);
    assert_eq!(pv.peek_u32(0x0005, 0), None);
}

#[test]
fn iterate_items() {
    let mut pv = PackedValues::new();
    pv.put_u16(0x0007, 1);
    pv.put_i8s(0x0010, &[1, 2, 3]);
    let mut it = pv.items();
    let a = it.next().unwrap();
    assert_eq!((a.addr(), a.kind, a.elms(), a.ipos()), (0x0007, 0x02, 1, 0));
    assert!(matches!(a.kind(), PackedValueKind::U16));
    let b = it.next().unwrap();
    assert_eq!((b.addr, b.kind, b.elms, b.ipos), (0x0010, 0x81, 3, 6));
    assert!(matches!(b.kind(), PackedValueKind::I8));
    assert!(it.next().is_none());
    let mut dst = [0i8; 5];
    b.map_to_i8s(&pv, &mut dst);
    assert_eq!(dst, [1, 2, 3, 0, 0]);
    let mut one = 0u16;
    a.map_to_u16(&pv, &mut one);
    assert_eq!(one, 1);
}

#[test]
fn trait_reads_and_copies() {
    let mut pv = PackedValues::new();
    pv.put_many(0x0020, &[5i32, 6, 7][..]);
    pv.put(0x0030, 99u64);
    let mut x = 0u64;
    pv.get_to(0x0030, &mut x);
    assert_eq!(x, 99);
    let mut y = 3u64;
    pv.get_to(0x0031, &mut y);
    assert_eq!(y, 3);
    let mut dst = [0i32; 2];
    PackedValuesRead::<i32>::get_many_to(&pv, 0x0020, &mut dst);
    assert_eq!(dst, [5, 6]);
    let mut wide = [1i32; 4];
    PackedValuesRead::<i32>::peek_many_to(&pv, 0x0020, 0, &mut wide);
    assert_eq!(wide, [5, 6, 7, 1]);
    let got: Option<Vec<i32>> = pv.get_many(0x0020, 3);
    assert_eq!(got, Some(vec![5, 6, 7]));
}

#[test]
fn joined_strings_and_slices() {
    let mut pv = PackedValues::new();
    pv.put_many(0x0001, &["ab", "cd"][..]);
    assert_eq!(pv.get_str(0x0001), "abcd");
    let parts: [&[u8]; 2] = [&b"xy"[..], &b"z"[..]];
    pv.put_many(0x0002, &parts[..]);
    assert_eq!(pv.get_u8s(0x0002, 10), Some(b"xyz".to_vec()));
    assert_eq!(pv.get_str(0x0003), "");
}

#[test]
fn truncated_tables_are_reported() {
    let pv = PackedValues::with_bytes(&[0x00, 0x04, 0x00, 0x01, 0xAA]);
    assert!(matches!(pv.lookup(0x0001, 4), Scan::Truncated));
    assert!(matches!(pv.lookup_many(0x0001, 2, 4), Scan::Truncated));
    let pv = PackedValues::with_bytes(&[0x00, 0x01, 0x00, 0x01, 0x07, 0x00]);
    assert!(matches!(pv.lookup(0x0001, 1), Scan::Found(7)));
    assert!(matches!(pv.lookup(0x0002, 1), Scan::Truncated));
    let pv = PackedValues::with_bytes(&[0x00, 0x01, 0x00, 0x01, 0x07]);
    assert!(matches!(pv.lookup(0x0002, 1), Scan::Absent));
    assert!(matches!(pv.peek_lookup(0x0001, 1, 3), Scan::Truncated));
}

#[test]
fn kind_codes() {
    assert_eq!(u8::from(PackedValueKind::F64), 0x48);
    assert_eq!(u8::from(PackedValueKind::Unknown), 0);
    assert!(matches!(PackedValueKind::from(0x84), PackedValueKind::I32));
    assert!(matches!(PackedValueKind::from(0x03), PackedValueKind::Unknown));
    for k in [PackedValueKind::I8, PackedValueKind::U64, PackedValueKind::Unknown] {
        assert_eq!(PackedValueKind::from(u8::from(k)), k);
    }
}

#[test]
fn clone_and_reset() {
    let mut pv = PackedValues::default();
    pv.put_u8s(0x0001, &[1, 2]);
    let copy = pv.clone();
    pv.clear();
    assert!(pv.is_empty());
    assert_eq!(copy.get_u8s(0x0001, 2), Some(vec![1, 2]));
    let mut m = copy.clone();
    m.as_mut_bytes()[5] = 9;
    assert_eq!(m.get_u8s(0x0001, 2), Some(vec![1, 9]));
}

#[test]
fn doc_items_example() {
    let mut pv = PackedValues::new();
    pv.put_i32(0x0001, -1234);
    pv.put_u32(0x0002, 5678);
    let mut it = pv.items();
    let mut seen = 0;
    while let Some(item) = it.next() {
        match item.addr {
            0x0001 => {
                let mut v = 0i32;
                item.map_to(&pv, &mut v);
                assert_eq!(v, -1234);
                seen += 1;
            }
            0x0002 => {
                let mut v = 0u32;
                item.map_to(&pv, &mut v);
                assert_eq!(v, 5678);
                seen += 1;
            }
            _ => {}
        }
    }
    assert_eq!(seen, 2);
}

#[test]
fn text_round_trip() {
    let mut pv = PackedValues::new();
    pv.put_str(0x0040, "héllo");
    assert_eq!(pv.get_str(0x0040), "héllo");
    let raw = PackedValues::with_bytes(&[0x01, 0x01, 0x00, 0x05, 0xFF, 0x41]);
    assert_eq!(raw.get_str(0x0005), "\u{FFFD}A");
}
