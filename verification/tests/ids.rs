use english_partner::ids::{connect_id, session_id};

#[test]
fn connect_id_pads_to_sixteen_hex_digits() {
    assert_eq!(connect_id(0), "0000000000000000");
    assert_eq!(connect_id(0x1a), "000000000000001a");
    assert_eq!(connect_id(0x1234_abcd), "000000001234abcd");
}

#[test]
fn connect_id_keeps_long_values_whole() {
    assert_eq!(connect_id(0x1_0000_0000_0000_0000), "10000000000000000");
    assert_eq!(connect_id(u128::MAX), "ffffffffffffffffffffffffffffffff");
}

#[test]
fn connect_id_of_a_clock_reading() {
    let nanos: u128 = 1_700_000_000_123_456_789;
    assert_eq!(connect_id(nanos), format!("{:016x}", nanos));
}

#[test]
fn session_id_is_s_and_decimal_millis() {
    assert_eq!(session_id(0), "s0");
    assert_eq!(session_id(1_700_000_000_000), "s1700000000000");
    assert_eq!(session_id(u128::MAX), format!("s{}", u128::MAX));
}
