use onu_admin::rfc6238::{
    base32_encode, counter_to_bytes, generate_otp, tick_at, tick_from, time_tick, truncate_otp,
};

#[test]
fn test_base32_encode() {
    assert_eq!(base32_encode(b"hello"), "NBSWY3DP");

    let secret = b"your_secret_key";
    let counter = 123456;

    assert_eq!(base32_encode(secret), "PFXXK4S7ONSWG4TFORPWWZLZ");

    assert_eq!(generate_otp(secret, counter), Ok("811986".to_string()));
}

#[test]
fn base32_pads_short_input() {
    assert_eq!(base32_encode(b""), "");
    assert_eq!(base32_encode(b"f"), "MY======");
    assert_eq!(base32_encode(b"fo"), "MZXQ====");
}

#[test]
fn ticks_are_thirty_seconds_long() {
    assert_eq!(tick_at(0), 0);
    assert_eq!(tick_at(29), 0);
    assert_eq!(tick_at(30), 1);
    assert_eq!(tick_at(59), 1);
    assert_eq!(tick_at(u64::MAX), u64::MAX / 30);
}

#[test]
fn a_clock_without_a_reading_gives_the_first_tick() {
    assert_eq!(tick_from(None), 0);
    assert_eq!(tick_from(Some(0)), 0);
    assert_eq!(tick_from(Some(60)), 2);
    assert_eq!(tick_from(Some(1_700_000_000)), 56_666_666);
    assert_eq!(tick_from(Some(u64::MAX)), u64::MAX / 30);
}

#[test]
fn the_clock_stands_after_the_epoch() {
    let tick = time_tick();
    assert!(tick > 50_000_000);
    assert!(tick <= u64::MAX / 30);
}

#[test]
fn counter_bytes_start_with_the_most_significant() {
    assert_eq!(counter_to_bytes(0), vec![0; 8]);
    assert_eq!(counter_to_bytes(1), vec![0, 0, 0, 0, 0, 0, 0, 1]);
    assert_eq!(counter_to_bytes(0x0102030405060708), vec![1, 2, 3, 4, 5, 6, 7, 8]);
    assert_eq!(counter_to_bytes(123456), 123456u64.to_be_bytes().to_vec());
    assert_eq!(counter_to_bytes(u64::MAX), vec![255; 8]);
}

#[test]
fn password_is_taken_from_the_place_the_last_byte_points_to() {
    // The example of RFC 4226, section 5.4.
    let hash: [u8; 20] = [
        0x1f, 0x86, 0x98, 0x69, 0x0e, 0x02, 0xca, 0x16, 0x61, 0x85, 0x50, 0xef, 0x7f, 0x19, 0xda,
        0x8e, 0x94, 0x5b, 0x55, 0x5a,
    ];
    assert_eq!(truncate_otp(&hash), "872921");
    let mut zeros = [0u8; 20];
    assert_eq!(truncate_otp(&zeros), "000000");
    zeros[19] = 0xf0;
    zeros[0] = 0xff;
    zeros[1] = 0xff;
    zeros[2] = 0xff;
    zeros[3] = 0xff;
    assert_eq!(truncate_otp(&zeros), format!("{:06}", 0x7fff_ffffu32 % 1_000_000));
}

#[test]
fn passwords_of_the_rfc_test_key() {
    // The test values of RFC 4226, appendix D.
    let secret = b"12345678901234567890";
    assert_eq!(generate_otp(secret, 0), Ok("755224".to_string()));
    assert_eq!(generate_otp(secret, 1), Ok("287082".to_string()));
    assert_eq!(generate_otp(secret, 9), Ok("520489".to_string()));
    assert_eq!(generate_otp(b"", 0).map(|text| text.len()), Ok(6));
}
