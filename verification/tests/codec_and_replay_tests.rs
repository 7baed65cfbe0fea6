use okv_eval::codec::{
    bytes_le, count_if, decimal_text, decimal_width, extend_bytes, find_bytes, push_bytes, push_decimal,
    push_string, push_u16, push_u32, push_u64, push_zero_padded, rotate_left_17, saturating_mul_u64,
    to_lower_hex,
};
use okv_eval::key_set::insert_key;
use okv_eval::replay::{bytes_equal, copy_bytes, ReplayedValues};
use okv_eval::transaction::{set_command, KeyRange, Mutation};
use okv_eval::workload::{range_key, seeded_key};

#[test]
fn fixed_width_and_framed_fields_are_big_endian() {
    let mut bytes = Vec::new();
    push_u64(&mut bytes, 0x0102_0304_0506_0708);
    push_u32(&mut bytes, 0x0a0b_0c0d);
    push_u16(&mut bytes, 0xeeff);
    assert_eq!(bytes, vec![1, 2, 3, 4, 5, 6, 7, 8, 0x0a, 0x0b, 0x0c, 0x0d, 0xee, 0xff]);
    let mut framed = vec![9];
    push_bytes(&mut framed, b"ab");
    push_string(&mut framed, "xyz");
    extend_bytes(&mut framed, b"!");
    assert_eq!(framed, vec![9, 0, 0, 0, 0, 0, 0, 0, 2, b'a', b'b', 0, 0, 0, 0, 0, 0, 0, 3, b'x', b'y', b'z', b'!']);
}

#[test]
fn decimal_rendering() {
    assert_eq!(decimal_text(0), "0");
    assert_eq!(decimal_text(1_103), "1103");
    assert_eq!(decimal_text(u64::MAX), "18446744073709551615");
    assert_eq!(decimal_width(0), 1);
    assert_eq!(decimal_width(99), 2);
    assert_eq!(decimal_width(100), 3);
    let mut digits = b"k/".to_vec();
    push_decimal(&mut digits, 42);
    push_zero_padded(&mut digits, 7, 4);
    push_zero_padded(&mut digits, 12_345, 2);
    assert_eq!(digits, b"k/42000712345".to_vec());
}

#[test]
fn hex_order_search_and_arithmetic() {
    assert_eq!(to_lower_hex(&[0x00, 0x0f, 0xa0, 0xff]), "000fa0ff");
    assert_eq!(to_lower_hex(&[]), "");
    assert!(bytes_le(b"ab", b"ab"));
    assert!(bytes_le(b"ab", b"abc"));
    assert!(bytes_le(b"ab", b"b"));
    assert!(!bytes_le(b"b", b"ab"));
    assert!(!bytes_le(b"abc", b"ab"));
    assert!(find_bytes(b"does not cover purge", b"cover"));
    assert!(find_bytes(b"abc", b""));
    assert!(!find_bytes(b"abc", b"abcd"));
    assert!(!find_bytes(b"abcabd", b"abe"));
    assert_eq!(saturating_mul_u64(3, 4), 12);
    assert_eq!(saturating_mul_u64(u64::MAX, 2), u64::MAX);
    assert_eq!(rotate_left_17(1), 1 << 17);
    assert_eq!(rotate_left_17(1 << 63), 1 << 16);
    assert_eq!(count_if(true), 1);
    assert_eq!(count_if(false), 0);
}

#[test]
fn workload_keys_and_key_sets() {
    assert_eq!(range_key(7), b"range/0001/key/00000007".to_vec());
    assert_eq!(range_key(123_456_789), b"range/0001/key/123456789".to_vec());
    assert_eq!(seeded_key("g410b/base/", 5, 3), b"g410b/base/5/00000003".to_vec());
    let mut keys = Vec::new();
    for key in ["b", "a", "c", "a", "ab"] {
        insert_key(&mut keys, key.to_owned());
    }
    assert_eq!(keys, vec!["a", "ab", "b", "c"]);
    assert!(bytes_equal(b"same", b"same"));
    assert!(!bytes_equal(b"same", b"sam"));
    assert_eq!(copy_bytes(&b"copy".to_vec()), b"copy".to_vec());
}

#[test]
fn replayed_values_follow_each_mutation() {
    let mut values = ReplayedValues::new();
    let set = |key: &[u8], value: &[u8]| Mutation::SetValue { key: key.to_vec(), value: value.to_vec() };
    values.apply(1, &set(b"a", b"1"));
    values.apply(2, &set(b"b", b"2"));
    values.apply(3, &set(b"c", b"3"));
    values.apply(4, &set(b"a", b"4"));
    let found = values.get(b"a").unwrap();
    assert_eq!((found.version, found.value.clone()), (4, b"4".to_vec()));
    assert!(values.values_equal(&[(b"a".to_vec(), b"4".to_vec()), (b"b".to_vec(), b"2".to_vec()), (b"c".to_vec(), b"3".to_vec())]));
    assert!(!values.values_equal(&[(b"a".to_vec(), b"1".to_vec())]));
    values.apply(5, &Mutation::ClearRange { range: KeyRange { start: b"b".to_vec(), end: b"c".to_vec() } });
    assert!(values.get(b"b").is_none());
    assert!(values.get(b"c").is_some());
    values.apply(6, &Mutation::Clear { key: b"c".to_vec() });
    assert!(values.values_equal(&[(b"a".to_vec(), b"4".to_vec())]));
    values.clear_range(&b"".to_vec(), &b"z".to_vec());
    assert!(values.values_equal(&[]));

    let command = set_command(9, true, b"k".to_vec(), b"v".to_vec());
    assert_eq!(command.read_version, 9);
    assert_eq!(command.read_conflicts, vec![KeyRange::point(b"k")]);
    assert_eq!(command.write_conflicts, vec![KeyRange::point(b"k")]);
    assert_eq!(command.mutations, vec![set(b"k", b"v")]);
    assert!(set_command(9, false, b"k".to_vec(), b"v".to_vec()).read_conflicts.is_empty());
}
