//! Device identifiers, the size grammar and the UUID grammar.

use oxidisk::device::{normalize_device, parent_disk_identifier, partition_number,
    raw_device_path, strip_device_prefix};
use oxidisk::ident::{validate_token, validate_uuid};
use oxidisk::size::{align_mib, parse_size_bytes};

#[test]
fn normalize_adds_prefix() {
    assert_eq!(normalize_device("disk2s3"), "/dev/disk2s3");
    assert_eq!(normalize_device("/dev/disk2s3"), "/dev/disk2s3");
}

#[test]
fn normalize_is_idempotent() {
    let once = normalize_device("disk7");
    let twice = normalize_device(&once);
    assert_eq!(once, twice);
    let once = normalize_device("/dev/rdisk3");
    let twice = normalize_device(&once);
    assert_eq!(once, twice);
}

#[test]
fn raw_path_inserts_r() {
    assert_eq!(raw_device_path("/dev/disk2"), "/dev/rdisk2");
    assert_eq!(raw_device_path("/dev/disk2s3"), "/dev/rdisk2s3");
}

#[test]
fn raw_path_is_idempotent() {
    let once = raw_device_path("/dev/disk4");
    let twice = raw_device_path(&once);
    assert_eq!(once, "/dev/rdisk4");
    assert_eq!(once, twice);
    assert_eq!(raw_device_path("/dev/rdisk4"), "/dev/rdisk4");
}

#[test]
fn partition_number_parses() {
    assert_eq!(partition_number("/dev/disk2s3"), Some(3));
    assert_eq!(partition_number("disk2s3"), Some(3));
    assert_eq!(partition_number("/dev/disk2"), None);
}

#[test]
fn parent_disk_derives() {
    assert_eq!(parent_disk_identifier("/dev/disk2s3").as_deref(), Some("/dev/disk2"));
    assert_eq!(parent_disk_identifier("/dev/disk2"), None);
}

#[test]
fn strip_prefix_strips() {
    assert_eq!(strip_device_prefix("/dev/disk1"), "disk1");
    assert_eq!(strip_device_prefix("disk1"), "disk1");
}

#[test]
fn size_parse_plain_bytes() {
    assert_eq!(parse_size_bytes("1024"), Ok(1024));
}

#[test]
fn size_parse_kilo() {
    assert_eq!(parse_size_bytes("1k"), Ok(1024));
    assert_eq!(parse_size_bytes("1kb"), Ok(1024));
}

#[test]
fn size_parse_fraction() {
    assert_eq!(parse_size_bytes("2.5M"), Ok(2_621_440));
}

#[test]
fn size_parse_terabytes() {
    assert_eq!(parse_size_bytes("1tb"), Ok(1_099_511_627_776));
}

#[test]
fn size_parse_gigabytes() {
    assert_eq!(parse_size_bytes("2G"), Ok(2_147_483_648));
    assert_eq!(parse_size_bytes("11G"), Ok(11_811_160_064));
}

#[test]
fn size_parse_empty_is_error() {
    assert_eq!(parse_size_bytes(""), Err("Invalid size".to_string()));
    assert_eq!(parse_size_bytes("."), Err("Invalid size".to_string()));
}

#[test]
fn size_parse_bad_suffix_is_error() {
    assert_eq!(parse_size_bytes("3xyz"), Err("Invalid size suffix".to_string()));
}

#[test]
fn size_parse_tolerates_spaces_and_case() {
    assert_eq!(parse_size_bytes(" 10 MB "), Ok(10_485_760));
    assert_eq!(parse_size_bytes("1Kb"), Ok(1024));
}

#[test]
fn size_parse_clamps_into_range() {
    // a value past the 64-bit range is clamped
    assert_eq!(parse_size_bytes("18446744073709551616"), Ok(u64::MAX));
    assert_eq!(parse_size_bytes("99999999999999999999tb"), Ok(u64::MAX));
    // fractions floor
    assert_eq!(parse_size_bytes("0.5k"), Ok(512));
    assert_eq!(parse_size_bytes("1.9999"), Ok(1));
    assert_eq!(parse_size_bytes(".5k"), Ok(512));
    assert_eq!(parse_size_bytes("5."), Ok(5));
    assert_eq!(parse_size_bytes("1.2.3"), Err("Invalid size".to_string()));
}

#[test]
fn align_floors_to_mib() {
    assert_eq!(align_mib(0), 0);
    assert_eq!(align_mib(1_048_575), 0);
    assert_eq!(align_mib(1_048_576), 1_048_576);
    assert_eq!(align_mib(2_097_151), 1_048_576);
}

#[test]
fn uuid_accepts_random_and_canonical() {
    assert!(validate_uuid("random").is_ok());
    assert!(validate_uuid("01234567-89ab-cdef-0123-456789abcdef").is_ok());
    assert!(validate_uuid("01234567-89AB-CDEF-0123-456789ABCDEF").is_ok());
}

#[test]
fn uuid_rejects_malformed() {
    assert_eq!(validate_uuid("0-0-0-0-0"), Err("Invalid UUID format".to_string()));
    assert_eq!(
        validate_uuid("0123456g-89ab-cdef-0123-456789abcdef"),
        Err("Invalid UUID format".to_string())
    );
    assert_eq!(
        validate_uuid("012345678-9ab-cdef-0123-456789abcdef"),
        Err("Invalid UUID format".to_string())
    );
    assert_eq!(validate_uuid(""), Err("Invalid UUID format".to_string()));
}

#[test]
fn token_validation() {
    assert!(validate_token("alice_1.x-y", "username", false).is_ok());
    assert!(validate_token("/usr/local/bin/tool", "helper path", true).is_ok());
    assert_eq!(
        validate_token("bad value", "username", false),
        Err("Invalid characters in username".to_string())
    );
    assert_eq!(
        validate_token("/usr/bin/x", "username", false),
        Err("Invalid characters in username".to_string())
    );
}
