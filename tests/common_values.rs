use yactatt::color::{rgb_from_hex, Color};
use yactatt::countdown::{parse_countdown, sort_by_countdown};
use yactatt::record::{ArrivalRecord, VehicleKind};

fn rec(route: &str, eta: &str, dest: &str) -> ArrivalRecord {
    ArrivalRecord {
        route: route.to_string(),
        destination: dest.to_string(),
        eta: eta.to_string(),
        vehicle_kind: VehicleKind::Bus,
        delayed: false,
    }
}

#[test]
fn countdown_of_plain_number() {
    assert_eq!(parse_countdown("3"), Some(3));
    assert_eq!(parse_countdown("17"), Some(17));
}

#[test]
fn countdown_reads_leading_digits_only() {
    assert_eq!(parse_countdown("12 min"), Some(12));
    assert_eq!(parse_countdown("5x7"), Some(5));
}

#[test]
fn countdown_absent_for_labels() {
    assert_eq!(parse_countdown("DUE"), None);
    assert_eq!(parse_countdown("DLY"), None);
    assert_eq!(parse_countdown(""), None);
    assert_eq!(parse_countdown(" 3"), None);
}

#[test]
fn countdown_saturates_on_huge_values() {
    assert_eq!(parse_countdown("18446744073709551615"), Some(u64::MAX));
    assert_eq!(parse_countdown("99999999999999999999999"), Some(u64::MAX));
    assert_eq!(parse_countdown("18446744073709551614"), Some(u64::MAX - 1));
}

#[test]
fn sort_puts_labels_first_and_ascends() {
    let input = vec![
        rec("50", "10", "a"),
        rec("50", "DLY", "b"),
        rec("50", "3", "c"),
        rec("50", "DUE", "d"),
        rec("50", "0", "e"),
    ];
    let out = sort_by_countdown(input);
    let order: Vec<&str> = out.iter().map(|r| r.destination.as_str()).collect();
    assert_eq!(order, vec!["b", "d", "e", "c", "a"]);
}

#[test]
fn sort_is_stable_for_equal_countdowns() {
    let input = vec![
        rec("50", "7", "first"),
        rec("8", "2", "x"),
        rec("50", "7", "second"),
        rec("9", "07", "third"),
        rec("50", "DUE", "due1"),
        rec("51", "DUE", "due2"),
    ];
    let out = sort_by_countdown(input);
    let order: Vec<&str> = out.iter().map(|r| r.destination.as_str()).collect();
    assert_eq!(order, vec!["due1", "due2", "x", "first", "second", "third"]);
}

#[test]
fn sort_of_empty_list() {
    let out = sort_by_countdown(Vec::new());
    assert!(out.is_empty());
}

#[test]
fn hex_colour_channels() {
    assert_eq!(rgb_from_hex(0xc0ffee), Color { r: 192, g: 255, b: 238 });
    assert_eq!(rgb_from_hex(0xffa600), Color { r: 255, g: 166, b: 0 });
    assert_eq!(rgb_from_hex(0x565a5c), Color { r: 0x56, g: 0x5a, b: 0x5c });
    assert_eq!(rgb_from_hex(0xff123456), Color { r: 0x12, g: 0x34, b: 0x56 });
}
