use arcade_shooter::score::{points_for, raise, record};
use arcade_shooter::store::{format_record, load_record, parse_record, push_digits};

#[test]
fn points_round_to_the_nearest_pixel() {
    assert_eq!(points_for(4_040), 40);
    assert_eq!(points_for(4_049), 40);
    assert_eq!(points_for(4_050), 41);
    assert_eq!(points_for(4_099), 41);
    assert_eq!(points_for(1_600), 16);
    assert_eq!(points_for(6_400), 64);
    assert_eq!(points_for(1), 0);
    assert_eq!(points_for(1_000_000), 10_000);
}

#[test]
fn score_stops_at_the_top() {
    assert_eq!(raise(0, 40), 40);
    assert_eq!(raise(10, 0), 10);
    assert_eq!(raise(u32::MAX - 5, 5), u32::MAX);
    assert_eq!(raise(u32::MAX - 5, 6), u32::MAX);
    assert_eq!(raise(u32::MAX, u32::MAX), u32::MAX);
}

#[test]
fn record_is_the_larger_of_the_two() {
    assert_eq!(record(0, 40), 40);
    assert_eq!(record(100, 40), 100);
    assert_eq!(record(40, 40), 40);
}

#[test]
fn stored_numbers_are_read() {
    assert_eq!(parse_record(b"0"), 0);
    assert_eq!(parse_record(b"7"), 7);
    assert_eq!(parse_record(b"1234"), 1234);
    assert_eq!(parse_record(b"007"), 7);
    assert_eq!(parse_record(b"+15"), 15);
    assert_eq!(parse_record(b"4294967295"), u32::MAX);
}

#[test]
fn unreadable_texts_stand_for_no_record() {
    assert_eq!(parse_record(b""), 0);
    assert_eq!(parse_record(b"+"), 0);
    assert_eq!(parse_record(b"-1"), 0);
    assert_eq!(parse_record(b"abc"), 0);
    assert_eq!(parse_record(b"12a"), 0);
    assert_eq!(parse_record(b"12\n"), 0);
    assert_eq!(parse_record(b" 12"), 0);
    assert_eq!(parse_record(b"++1"), 0);
    assert_eq!(parse_record(b"1.5"), 0);
    assert_eq!(parse_record(b"4294967296"), 0);
    assert_eq!(parse_record(b"99999999999999999999999999"), 0);
}

#[test]
fn reading_agrees_with_the_standard_parser() {
    let texts = ["", "+", "0", "+0", "-0", "12", "0012", "4294967295", "4294967296", "1 ", "x", "१२"];
    for t in texts.iter() {
        assert_eq!(parse_record(t.as_bytes()), t.parse::<u32>().unwrap_or(0));
    }
}

#[test]
fn a_missing_store_stands_for_no_record() {
    assert_eq!(load_record(None), 0);
    assert_eq!(load_record(Some(b"250".as_slice())), 250);
    assert_eq!(load_record(Some(b"nothing".as_slice())), 0);
}

#[test]
fn records_are_written_in_decimal() {
    assert_eq!(format_record(0), b"0".to_vec());
    assert_eq!(format_record(40), b"40".to_vec());
    assert_eq!(format_record(1_000), b"1000".to_vec());
    assert_eq!(format_record(u32::MAX), b"4294967295".to_vec());
}

#[test]
fn digits_are_appended() {
    let mut text = b"x".to_vec();
    push_digits(&mut text, 305);
    assert_eq!(text, b"x305".to_vec());
    push_digits(&mut text, 0);
    assert_eq!(text, b"x305".to_vec());
}

#[test]
fn written_records_read_back() {
    for v in [0u32, 1, 9, 10, 99, 100, 40, 65_535, 1_000_000, u32::MAX - 1, u32::MAX] {
        assert_eq!(parse_record(&format_record(v)), v);
        assert_eq!(format_record(v), v.to_string().into_bytes());
    }
}
