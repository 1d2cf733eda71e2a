use gateway::global::{be_bytes, from_be_bytes, reverse, u8r};
use gateway::text::{append_decimal, ipv4_string, socket_address};

#[test]
fn u8r_swaps_the_middle_range() {
    assert_eq!(u8r(0), 0);
    assert_eq!(u8r(45), 45);
    assert_eq!(u8r(46), 209);
    assert_eq!(u8r(100), 155);
    assert_eq!(u8r(209), 46);
    assert_eq!(u8r(210), 210);
    assert_eq!(u8r(255), 255);
}

#[test]
fn u8r_is_its_own_inverse() {
    for x in 0..=255u8 {
        assert_eq!(u8r(u8r(x)), x);
    }
}

#[test]
fn reverse_maps_each_byte() {
    let mut buf = [0u8, 46, 100, 200, 255];
    reverse(&mut buf);
    assert_eq!(buf, [0u8, 209, 155, 55, 255]);
}

#[test]
fn reverse_twice_gives_the_buffer_back() {
    let plain: Vec<u8> = (0..=255u8).collect();
    let mut buf = plain.clone();
    reverse(&mut buf);
    assert_ne!(buf, plain);
    reverse(&mut buf);
    assert_eq!(buf, plain);
}

#[test]
fn big_endian_bytes() {
    assert_eq!(be_bytes(0x0102030405060708), vec![1u8, 2, 3, 4, 5, 6, 7, 8]);
    assert_eq!(be_bytes(11), 11u64.to_be_bytes().to_vec());
}

#[test]
fn big_endian_round_trip() {
    for x in [0u64, 1, 11, 255, 256, 0xdead_beef, u64::MAX] {
        assert_eq!(from_be_bytes(&be_bytes(x)), x);
    }
    assert_eq!(from_be_bytes(&[0, 0, 0, 0, 0, 0, 1, 0]), 256);
}

#[test]
fn dotted_quad() {
    assert_eq!(ipv4_string(0x7f000001), "127.0.0.1");
    assert_eq!(ipv4_string(0x5db8d822), "93.184.216.34");
    assert_eq!(ipv4_string(0), "0.0.0.0");
    assert_eq!(ipv4_string(u32::MAX), "255.255.255.255");
}

#[test]
fn socket_address_text() {
    assert_eq!(socket_address(&"1.2.3.4".to_string(), 443), "1.2.3.4:443");
    assert_eq!(socket_address(&"10.0.0.1".to_string(), 0), "10.0.0.1:0");
}

#[test]
fn decimal_append() {
    let mut s = "n=".to_string();
    append_decimal(&mut s, 1234567890);
    assert_eq!(s, "n=1234567890");
    let mut z = String::new();
    append_decimal(&mut z, 0);
    assert_eq!(z, "0");
}
