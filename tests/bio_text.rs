use duopow::address::Address;
use duopow::bio::{clean_tail, extract, rewrite_bio, rewrite_bio_with};

const ONES: &str = "0x1111111111111111111111111111111111111111";
const TWOS: &str = "0x2222222222222222222222222222222222222222";
const CHECKSUMMED: &str = "0x5aAeb6053F3E94C9b9A09f33669435E7Ef1BeAed";

#[test]
fn extracts_embedded_address() {
    let a = extract("hi 0x1111111111111111111111111111111111111111").unwrap();
    assert_eq!(a.bytes, [0x11u8; 20]);
}

#[test]
fn extracts_first_of_two_addresses() {
    let bio = format!("first {} then {}", TWOS, ONES);
    assert_eq!(extract(&bio).unwrap().bytes, [0x22u8; 20]);
}

#[test]
fn extract_finds_nothing_without_address() {
    assert!(extract("").is_none());
    assert!(extract("just learning french").is_none());
    assert!(extract("0x111111111111111111111111111111111111111").is_none());
}

#[test]
fn extract_rejects_bad_checksum_in_first_match() {
    let bio = format!("{} {}", "0x5AAeb6053F3E94C9b9A09f33669435E7Ef1BeAed", ONES);
    assert!(extract(&bio).is_none());
}

#[test]
fn extract_reads_address_after_unicode_text() {
    let bio = format!("héllo ✨ {}!", CHECKSUMMED);
    let a = extract(&bio).unwrap();
    assert_eq!(a, Address::parse(CHECKSUMMED).unwrap());
}

#[test]
fn rewrite_replaces_embedded_address() {
    let bio = format!("hi {} bye", ONES);
    let out = rewrite_bio_with(&bio, TWOS);
    assert_eq!(out, format!("hi {} bye", TWOS));
}

#[test]
fn rewrite_replaces_first_address_and_drops_others() {
    let bio = format!("{} and {}", ONES, ONES);
    assert_eq!(rewrite_bio_with(&bio, TWOS), format!("{} and ", TWOS));
    let bio = format!("hi {}{} end {}!", ONES, TWOS, ONES);
    assert_eq!(rewrite_bio_with(&bio, TWOS), format!("hi {} end !", TWOS));
}

#[test]
fn clean_tail_removes_addresses_until_none_is_left() {
    assert_eq!(clean_tail(TWOS, "no address"), "no address");
    let tail = format!(" a {} b {} c", ONES, TWOS);
    assert_eq!(clean_tail(TWOS, &tail), " a  b  c");
    let tail = format!("0x11{}{}", ONES, "1".repeat(38));
    assert_eq!(clean_tail(TWOS, &tail), "");
}

#[test]
fn clean_tail_removes_what_joins_onto_new_text() {
    let ends_in_zero = format!("0x{}0", "1".repeat(39));
    let tail = format!("x{} rest", "2".repeat(40));
    assert_eq!(clean_tail(&ends_in_zero, &tail), " rest");
    assert_eq!(clean_tail(TWOS, &tail), tail);
}

#[test]
fn rewrite_leaves_no_joined_address() {
    let h = format!("{}0", "1".repeat(39));
    let bio = format!("0x{}x{}", h, h);
    let ends_in_zero = format!("0x{}0", "3".repeat(39));
    assert_eq!(rewrite_bio_with(&bio, &ends_in_zero), ends_in_zero);
}

#[test]
fn rewrite_leaves_no_old_address() {
    let a = Address::parse(CHECKSUMMED).unwrap();
    let bio = format!("{} {} and {}", ONES, ONES, TWOS);
    let out = rewrite_bio(&bio, &a);
    assert_eq!(out, format!("{}  and ", CHECKSUMMED));
    assert!(!out.contains(ONES));
    assert!(!out.contains(TWOS));
    assert_eq!(out.matches("0x").count(), 1);
}

#[test]
fn rewrite_appends_when_no_address() {
    assert_eq!(rewrite_bio_with("hello", TWOS), format!("hello {}", TWOS));
    assert_eq!(rewrite_bio_with("", TWOS), format!(" {}", TWOS));
}

#[test]
fn rewrite_writes_checksum_text() {
    let a = Address::parse("0x5aaeb6053f3e94c9b9a09f33669435e7ef1beaed").unwrap();
    assert_eq!(rewrite_bio("hello", &a), format!("hello {}", CHECKSUMMED));
    let bio = format!("hi {}", ONES);
    assert_eq!(rewrite_bio(&bio, &a), format!("hi {}", CHECKSUMMED));
}

#[test]
fn extract_reads_back_rewritten_address() {
    let a = Address::parse(CHECKSUMMED).unwrap();
    for bio in ["", "hello", "0x0x", "hi 0x1111111111111111111111111111111111111111 bye", "x0"] {
        let out = rewrite_bio(bio, &a);
        assert_eq!(extract(&out), Some(a));
    }
}

#[test]
fn rewritten_bio_holds_one_address() {
    let a = Address::parse(CHECKSUMMED).unwrap();
    let out = rewrite_bio(&format!("hi {} bye", ONES), &a);
    assert_eq!(out.matches("0x").count(), 1);
    assert!(!out.contains(ONES));
}
