use fileshare::codec::{decode, encode};

#[test]
fn encode_joins_with_delimiter() {
    assert_eq!(encode("ab12", "a_b_c.txt"), "ab12_a_b_c.txt");
}

#[test]
fn decode_splits_at_first_delimiter() {
    assert_eq!(
        decode("ab12_a_b_c.txt"),
        Some((String::from("ab12"), String::from("a_b_c.txt")))
    );
}

#[test]
fn round_trip_plain_name() {
    let stored = encode("x9y8", "report.pdf");
    assert_eq!(stored, "x9y8_report.pdf");
    assert_eq!(
        decode(&stored),
        Some((String::from("x9y8"), String::from("report.pdf")))
    );
}

#[test]
fn round_trip_name_with_delimiters() {
    let stored = encode("k3", "myfile_v2.txt");
    assert_eq!(
        decode(&stored),
        Some((String::from("k3"), String::from("myfile_v2.txt")))
    );
}

#[test]
fn decode_without_delimiter_fails() {
    assert_eq!(decode("nodelimiter.txt"), None);
    assert_eq!(decode(""), None);
}

#[test]
fn decode_empty_parts() {
    assert_eq!(decode("_"), Some((String::new(), String::new())));
    assert_eq!(decode("abc_"), Some((String::from("abc"), String::new())));
}
