use shortlink::codegen::shortlink_from_digest;
use shortlink::handlers::generate_shortlink;

#[test]
fn test_generate_shortlink() {
    let url = "https://example.com";
    let short = generate_shortlink(url, None, Some(8));
    assert_eq!(short, "6JvlOnj0");

    let identifier = "example";
    let short = generate_shortlink(url, Some(identifier), Some(8));
    assert_eq!(short, "6Xldem53");
}

#[test]
fn generate_is_repeatable() {
    let a = generate_shortlink("https://example.com/a", None, Some(8));
    let b = generate_shortlink("https://example.com/a", None, Some(8));
    assert_eq!(a, b);
}

#[test]
fn distinct_salts_give_distinct_codes() {
    let a = generate_shortlink("https://example.com", Some("first"), Some(8));
    let b = generate_shortlink("https://example.com", Some("second"), Some(8));
    assert_ne!(a, b);
}

#[test]
fn generate_has_requested_length() {
    for length in 1..=16usize {
        let code = generate_shortlink("https://example.com", None, Some(length));
        assert_eq!(code.len(), length);
        assert!(code.chars().all(|c| c.is_ascii_alphanumeric()));
    }
}

#[test]
fn generate_defaults_to_seven_and_caps_at_sixteen() {
    assert_eq!(generate_shortlink("https://example.com", None, None), "6JvlOnj");
    assert_eq!(generate_shortlink("https://example.com", None, Some(40)).len(), 16);
    assert_eq!(
        generate_shortlink("https://example.com", None, Some(40)),
        generate_shortlink("https://example.com", None, Some(16))
    );
}

#[test]
fn generate_clamps_zero_length_to_one() {
    assert_eq!(generate_shortlink("https://example.com", None, Some(0)), "6");
    assert_eq!(
        generate_shortlink("https://example.com", None, Some(0)),
        generate_shortlink("https://example.com", None, Some(1))
    );
}

#[test]
fn digest_of_zeros_gives_zero_digits() {
    let digest = vec![0u8; 32];
    assert_eq!(shortlink_from_digest(&digest, 8), "00000000");
    assert_eq!(shortlink_from_digest(&digest, 1), "0");
}

#[test]
fn digest_is_read_little_endian() {
    let mut digest = vec![0u8; 32];
    digest[0] = 62;
    assert_eq!(shortlink_from_digest(&digest, 8), "10000000");
    let mut digest = vec![0u8; 32];
    digest[1] = 1;
    digest[0] = 0;
    assert_eq!(shortlink_from_digest(&digest, 8), "48000000");
    assert_eq!(shortlink_from_digest(&digest, 2), "48");
}

#[test]
fn digest_of_ones_gives_largest_code() {
    let digest = vec![0xffu8; 32];
    assert_eq!(shortlink_from_digest(&digest, 22), "7n42DGM5Tflk9n8mt7Fhc7");
    assert_eq!(shortlink_from_digest(&digest, 16), "7n42DGM5Tflk9n8m");
    assert_eq!(shortlink_from_digest(&digest, 30), "7n42DGM5Tflk9n8mt7Fhc700000000");
}

#[test]
fn only_first_sixteen_digest_bytes_count() {
    let mut a = vec![7u8; 32];
    let b = a.clone();
    a[20] = 9;
    assert_eq!(shortlink_from_digest(&a, 12), shortlink_from_digest(&b, 12));
}
