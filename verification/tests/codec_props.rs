use reec::rlp::RLPEncode;
use reec::types::{Address, IpAddress, Signature, H128, H256, H32, H512, H64};

fn encoded<T: RLPEncode + ?Sized>(value: &T) -> Vec<u8> {
    let mut buf = Vec::new();
    value.encode(&mut buf);
    buf
}

#[test]
fn single_byte_boundary_all_widths() {
    // 0x7f takes the single-byte shortcut in every integer width,
    // and 0x80 is the first value that needs a prefix.
    assert_eq!(encoded(&0x7fu8), vec![0x7f]);
    assert_eq!(encoded(&0x7fu16), vec![0x7f]);
    assert_eq!(encoded(&0x7fu32), vec![0x7f]);
    assert_eq!(encoded(&0x7fu64), vec![0x7f]);
    assert_eq!(encoded(&0x7fusize), vec![0x7f]);
    assert_eq!(encoded(&0x80u32), vec![0x81, 0x80]);
    assert_eq!(encoded(&0x80u64), vec![0x81, 0x80]);
    assert_eq!(encoded(&0x80usize), vec![0x81, 0x80]);
}

#[test]
fn multibyte_integers_are_minimal_big_endian() {
    assert_eq!(encoded(&0x0400u16), vec![0x82, 0x04, 0x00]);
    assert_eq!(encoded(&0x00010000u32), vec![0x83, 0x01, 0x00, 0x00]);
    assert_eq!(
        encoded(&0x0102030405060708u64),
        vec![0x88, 0x01, 0x02, 0x03, 0x04, 0x05, 0x06, 0x07, 0x08]
    );
    assert_eq!(
        encoded(&u64::MAX),
        vec![0x88, 0xff, 0xff, 0xff, 0xff, 0xff, 0xff, 0xff, 0xff]
    );
}

#[test]
fn can_encode_unit() {
    assert_eq!(encoded(&()), vec![0x80]);
}

#[test]
fn string_threshold_boundary() {
    // 55 payload bytes: short form, prefix 0x80 + 55 == 0xb7.
    let data55: [u8; 55] = [0xaa; 55];
    let enc = encoded(&data55);
    assert_eq!(enc.len(), 56);
    assert_eq!(enc[0], 0xb7);
    assert_eq!(&enc[1..], &data55[..]);

    // 56 payload bytes: long form, prefix 0xb7 + 1 then the length 56.
    let data56: [u8; 56] = [0xaa; 56];
    let enc = encoded(&data56);
    assert_eq!(enc.len(), 58);
    assert_eq!(enc[0], 0xb8);
    assert_eq!(enc[1], 56);
    assert_eq!(&enc[2..], &data56[..]);
}

#[test]
fn list_threshold_boundary() {
    // One 54-byte string encodes to 55 bytes: list payload 55 stays in
    // the short form, prefix 0xc0 + 55 == 0xf7.
    let s54 = "a".repeat(54);
    let enc = encoded(&vec![s54.as_str()]);
    assert_eq!(enc.len(), 56);
    assert_eq!(enc[0], 0xf7);
    assert_eq!(enc[1], 0x80 + 54);

    // One 55-byte string encodes to 56 bytes: list payload 56 takes the
    // long form, prefix 0xf7 + 1 then the length 56.
    let s55 = "a".repeat(55);
    let enc = encoded(&vec![s55.as_str()]);
    assert_eq!(enc.len(), 58);
    assert_eq!(enc[0], 0xf8);
    assert_eq!(enc[1], 56);
    assert_eq!(enc[2], 0x80 + 55);
}

#[test]
fn length_agrees_with_encode() {
    assert_eq!(0u8.length(), encoded(&0u8).len());
    assert_eq!(0x7fu32.length(), encoded(&0x7fu32).len());
    assert_eq!(u64::MAX.length(), encoded(&u64::MAX).len());
    assert_eq!(true.length(), encoded(&true).len());
    assert_eq!(().length(), encoded(&()).len());
    assert_eq!("cat".length(), encoded("cat").len());
    assert_eq!(String::from("a").repeat(70).length(), encoded(&String::from("a").repeat(70)).len());
    assert_eq!(vec!["dog", "cat"].length(), encoded(&vec!["dog", "cat"]).len());
    assert_eq!(H32([1; 4]).length(), encoded(&H32([1; 4])).len());
    assert_eq!(H64([2; 8]).length(), encoded(&H64([2; 8])).len());
    assert_eq!(H128([3; 16]).length(), encoded(&H128([3; 16])).len());
    assert_eq!(H256([4; 32]).length(), encoded(&H256([4; 32])).len());
    assert_eq!(H512([5; 64]).length(), encoded(&H512([5; 64])).len());
    assert_eq!(Address([6; 20]).length(), encoded(&Address([6; 20])).len());
    assert_eq!(Signature([7; 65]).length(), encoded(&Signature([7; 65])).len());
    assert_eq!(IpAddress::V4([1, 2, 3, 4]).length(), 5);
    assert_eq!(IpAddress::V6([0; 16]).length(), 17);
}

#[test]
fn list_order_is_significant() {
    assert_ne!(encoded(&vec!["dog", "cat"]), encoded(&vec!["cat", "dog"]));
    assert_ne!(encoded(&vec![1u64, 2u64]), encoded(&vec![2u64, 1u64]));
    assert_ne!(encoded(&vec![1u64, 0x1234u64]), encoded(&vec![0x1234u64, 1u64]));
}

#[test]
fn fixed_width_values_keep_leading_zeroes() {
    // Unlike integers, hash-like values emit their full width.
    let mut expected = vec![0xa0];
    expected.extend_from_slice(&[0u8; 32]);
    assert_eq!(encoded(&H256([0; 32])), expected);

    // 64 and 65 bytes cross the long-form threshold.
    let mut expected = vec![0xb8, 0x40];
    expected.extend_from_slice(&[0u8; 64]);
    assert_eq!(encoded(&H512([0; 64])), expected);

    let mut expected = vec![0xb8, 0x41];
    expected.extend_from_slice(&[9u8; 65]);
    assert_eq!(encoded(&Signature([9; 65])), expected);
}
