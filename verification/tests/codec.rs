use minecraft_client::{Error, MinecraftData, MString, Position, VarInt, UUID};

fn enc<T: MinecraftData>(v: &T) -> Vec<u8> {
    let mut out = Vec::new();
    v.encode(&mut out).unwrap();
    out
}

#[test]
fn varint_encodes_zero_as_one_byte() {
    assert_eq!(enc(&VarInt(0)), vec![0x00]);
}

#[test]
fn varint_encodes_127_as_one_byte() {
    assert_eq!(enc(&VarInt(127)), vec![0x7F]);
}

#[test]
fn varint_encodes_128_as_two_bytes() {
    assert_eq!(enc(&VarInt(128)), vec![0x80, 0x01]);
}

#[test]
fn varint_encodes_minus_one_as_five_bytes() {
    assert_eq!(enc(&VarInt(-1)), vec![0xFF, 0xFF, 0xFF, 0xFF, 0x0F]);
}

#[test]
fn varint_decodes_what_it_encodes() {
    for v in [0, 1, 127, 128, 255, 300, 25565, 0x7FFFFFFF, -1, -2147483648] {
        let bytes = enc(&VarInt(v));
        let (decoded, end) = VarInt::decode(&bytes, 0).unwrap();
        assert_eq!(decoded, VarInt(v));
        assert_eq!(end, bytes.len());
    }
}

#[test]
fn varint_accepts_the_five_byte_maximum() {
    let bytes = vec![0xFF, 0xFF, 0xFF, 0xFF, 0x0F];
    let (decoded, end) = VarInt::decode(&bytes, 0).unwrap();
    assert_eq!(decoded, VarInt(-1));
    assert_eq!(end, 5);
}

#[test]
fn varint_rejects_a_sixth_continuation_byte() {
    let bytes = vec![0xFF, 0xFF, 0xFF, 0xFF, 0xFF, 0x00];
    assert_eq!(VarInt::decode(&bytes, 0), Err(Error::VarIntTooLong));
}

#[test]
fn varint_accepts_overlong_encodings_within_32_bits() {
    // 1 encoded in two bytes instead of one.
    let bytes = vec![0x81, 0x00];
    let (decoded, end) = VarInt::decode(&bytes, 0).unwrap();
    assert_eq!(decoded, VarInt(1));
    assert_eq!(end, 2);
}

#[test]
fn varint_num_bytes_matches_encoding_length() {
    for v in [0, 127, 128, 16383, 16384, 2097151, 2097152, -1] {
        assert_eq!(VarInt(v).num_bytes(), enc(&VarInt(v)).len());
    }
}

#[test]
fn bool_encodes_one_byte() {
    assert_eq!(enc(&true), vec![0x01]);
    assert_eq!(enc(&false), vec![0x00]);
}

#[test]
fn bool_rejects_two() {
    let bytes = vec![0x02];
    assert_eq!(bool::decode(&bytes, 0), Err(Error::InvalidBool));
}

#[test]
fn u16_is_big_endian() {
    assert_eq!(enc(&25565u16), vec![0x63, 0xDD]);
    let bytes = vec![0x63, 0xDD];
    assert_eq!(u16::decode(&bytes, 0).unwrap(), (25565u16, 2));
}

#[test]
fn fixed_width_integers_round_trip() {
    let a = enc(&0x0123456789ABCDEFi64);
    assert_eq!(a, vec![0x01, 0x23, 0x45, 0x67, 0x89, 0xAB, 0xCD, 0xEF]);
    assert_eq!(i64::decode(&a, 0).unwrap(), (0x0123456789ABCDEFi64, 8));
    let b = enc(&-2i8);
    assert_eq!(b, vec![0xFE]);
    assert_eq!(i8::decode(&b, 0).unwrap(), (-2i8, 1));
    let c = enc(&-1i32);
    assert_eq!(c, vec![0xFF, 0xFF, 0xFF, 0xFF]);
    assert_eq!(i32::decode(&c, 0).unwrap(), (-1i32, 4));
    let d = enc(&0xDEADBEEFu32);
    assert_eq!(u32::decode(&d, 0).unwrap(), (0xDEADBEEFu32, 4));
    let e = enc(&-3i128);
    assert_eq!(i128::decode(&e, 0).unwrap(), (-3i128, 16));
}

#[test]
fn u16_rejects_truncated_input() {
    let bytes = vec![0x01];
    assert_eq!(u16::decode(&bytes, 0), Err(Error::UnexpectedEnd));
}

#[test]
fn uuid_is_sixteen_raw_bytes() {
    let id = UUID(0xcf766be42bed41bdb40ae0c22ac798f1);
    let bytes = enc(&id);
    assert_eq!(bytes.len(), 16);
    assert_eq!(bytes[0], 0xcf);
    assert_eq!(bytes[15], 0xf1);
    assert_eq!(UUID::decode(&bytes, 0).unwrap(), (id, 16));
}

#[test]
fn mstring_encodes_length_prefix_then_utf8() {
    let s = MString::<16>::from_bytes(b"robotabc773".to_vec()).unwrap();
    let bytes = enc(&s);
    let mut expected = vec![0x0B];
    expected.extend_from_slice(b"robotabc773");
    assert_eq!(bytes, expected);
    let (back, end) = MString::<16>::decode(&bytes, 0).unwrap();
    assert_eq!(back, s);
    assert_eq!(end, bytes.len());
}

#[test]
fn mstring_rejects_an_overlong_length_prefix() {
    // Length prefix 17 exceeds the bound 16.
    let mut bytes = vec![0x11];
    bytes.extend_from_slice(&[b'x'; 17]);
    assert_eq!(MString::<16>::decode(&bytes, 0), Err(Error::StringTooLong));
}

#[test]
fn mstring_accepts_exactly_the_bound() {
    let s = MString::<5>::from_bytes(b"abcde".to_vec()).unwrap();
    assert_eq!(s.len(), 5);
    assert!(MString::<5>::from_bytes(b"abcdef".to_vec()) == Err(Error::StringTooLong));
}

#[test]
fn mstring_rejects_invalid_utf8() {
    assert_eq!(MString::<16>::from_bytes(vec![0xFF, 0xFE]), Err(Error::InvalidUtf8));
    let bytes = vec![0x02, 0xFF, 0xFE];
    assert_eq!(MString::<16>::decode(&bytes, 0), Err(Error::InvalidUtf8));
}

#[test]
fn mstring_rejects_a_negative_length_prefix() {
    let mut bytes = vec![0xFF, 0xFF, 0xFF, 0xFF, 0x0F];
    bytes.push(b'a');
    assert_eq!(MString::<16>::decode(&bytes, 0), Err(Error::NegativeLength));
}

#[test]
fn vec_codec_is_length_prefixed() {
    let v: Vec<u8> = vec![1, 2, 3];
    let bytes = enc(&v);
    assert_eq!(bytes, vec![0x03, 1, 2, 3]);
    let (back, end): (Vec<u8>, usize) = Vec::<u8>::decode(&bytes, 0).unwrap();
    assert_eq!(back, v);
    assert_eq!(end, 4);
}

#[test]
fn vec_codec_rejects_a_negative_count() {
    let bytes = vec![0xFF, 0xFF, 0xFF, 0xFF, 0x0F];
    assert_eq!(Vec::<u8>::decode(&bytes, 0), Err(Error::NegativeLength));
}

#[test]
fn option_codec_uses_one_boolean_byte() {
    let some: Option<VarInt> = Some(VarInt(7));
    let none: Option<VarInt> = None;
    assert_eq!(enc(&some), vec![0x01, 0x07]);
    assert_eq!(enc(&none), vec![0x00]);
    let bytes = vec![0x01, 0x07];
    assert_eq!(Option::<VarInt>::decode(&bytes, 0).unwrap(), (Some(VarInt(7)), 2));
}

#[test]
fn position_packs_and_unpacks_coordinates() {
    let cases = [
        (0, 0, 0),
        (1, 2, 3),
        (-1, -1, -1),
        (18357644, 831, -20882616),
        (-33554432, -2048, -33554432),
        (33554431, 2047, 33554431),
    ];
    for (x, y, z) in cases {
        let p = Position::new(x, y, z);
        assert_eq!((p.x(), p.y(), p.z()), (x, y, z));
    }
}

#[test]
fn position_travels_as_one_big_endian_word() {
    let p = Position::new(1, 2, 3);
    let bytes = enc(&p);
    assert_eq!(bytes.len(), 8);
    let (back, end) = Position::decode(&bytes, 0).unwrap();
    assert_eq!(end, 8);
    assert_eq!((back.x(), back.y(), back.z()), (1, 2, 3));
}

#[test]
fn varint_five_byte_positive_maximum() {
    let bytes = enc(&VarInt(0x7FFFFFFF));
    assert_eq!(bytes, vec![0xFF, 0xFF, 0xFF, 0xFF, 0x07]);
    assert_eq!(VarInt::decode(&bytes, 0).unwrap(), (VarInt(0x7FFFFFFF), 5));
}

#[test]
fn empty_mstring_is_a_lone_zero_byte() {
    let s = MString::<16>::from_bytes(Vec::new()).unwrap();
    assert_eq!(enc(&s), vec![0x00]);
    let bytes = vec![0x00];
    let (back, end) = MString::<16>::decode(&bytes, 0).unwrap();
    assert_eq!(end, 1);
    assert_eq!(back.len(), 0);
}

#[test]
fn decoding_starts_at_the_given_position() {
    let bytes = vec![0xAA, 0xBB, 0x63, 0xDD];
    assert_eq!(u16::decode(&bytes, 2).unwrap(), (25565u16, 4));
}
