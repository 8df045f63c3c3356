use miogenes::ids::{uuid_map_back, uuid_serialize, uuid_serialize_all, uuid_string};
use miogenes::error::MioInnerError;
use miogenes::text::{chars_of, push_decimal, push_hex, push_signed_decimal, str_eq, string_of};

#[test]
fn decimal_text() {
    for n in [0u64, 7, 10, 409, u64::MAX] {
        let mut s = String::new();
        push_decimal(&mut s, n);
        assert_eq!(s, n.to_string());
    }
    for n in [0i64, -1, 42, i64::MIN, i64::MAX] {
        let mut s = String::from("x");
        push_signed_decimal(&mut s, n);
        assert_eq!(s, format!("x{n}"));
    }
}

#[test]
fn hex_text() {
    let mut s = String::new();
    push_hex(&mut s, 0xbeef, 6);
    assert_eq!(s, "00beef");
}

#[test]
fn uuid_text_matches_uuid_crate() {
    for v in [0u128, 1, 0xa1a2a3a4_b1b2_c1c2_d1d2_d3d4d5d6d7d8, u128::MAX] {
        assert_eq!(uuid_string(v), uuid::Uuid::from_u128(v).to_string());
    }
}

#[test]
fn uuid_from_bytes() {
    let bytes: Vec<u8> = (1..=16).collect();
    assert_eq!(uuid_serialize(&bytes).ok(), Some(0x0102030405060708090a0b0c0d0e0f10));
    match uuid_serialize(&[1, 2, 3]) {
        Err(MioInnerError::DbError(m)) => {
            assert_eq!(m, "failed to serialize uuid: invalid length: expected 16 bytes, found 3")
        }
        _ => panic!("short slice accepted"),
    }
    assert_eq!(uuid_map_back(None).ok(), Some(None));
    assert_eq!(uuid_map_back(Some(bytes)).ok(), Some(Some(0x0102030405060708090a0b0c0d0e0f10)));
    assert!(uuid_map_back(Some(vec![0; 17])).is_err());
}

#[test]
fn char_helpers() {
    assert_eq!(chars_of("héllo"), vec!['h', 'é', 'l', 'l', 'o']);
    assert_eq!(string_of(&vec!['a', 'ß']), "aß");
    assert!(str_eq("a", "a"));
    assert!(!str_eq("a", "b"));
}

#[test]
fn uuid_columns_stop_at_first_bad_row() {
    let mut a = vec![0u8; 16];
    a[15] = 1;
    let mut b = vec![0u8; 16];
    b[0] = 0xff;
    let ids = uuid_serialize_all(&vec![a.clone(), b]).unwrap();
    assert_eq!(ids, vec![1u128, 0xff << 120]);
    assert!(uuid_serialize_all(&vec![]).unwrap().is_empty());
    match uuid_serialize_all(&vec![a, vec![1, 2, 3], vec![9; 20]]) {
        Err(MioInnerError::DbError(m)) => {
            assert_eq!(m, "failed to serialize uuid: invalid length: expected 16 bytes, found 3")
        }
        _ => panic!("expected a database error"),
    }
}

#[test]
fn uuid_texts_parse() {
    let v = 0x67e55044_10b1_426f_9247_bb680e5fe0c8u128;
    assert_eq!(miogenes::ids::parse_uuid(&uuid_string(v)), Some(v));
    assert_eq!(miogenes::ids::parse_uuid("67E5504410B1426F9247BB680E5FE0C8"), Some(v));
    assert_eq!(miogenes::ids::parse_uuid("not a uuid"), None);
}
