use display_data::wide::wchar_to_string;

#[test]
fn decode_truncates_at_first_zero() {
    let buf: Vec<u16> = vec![72, 105, 0, 88, 89];
    assert_eq!(wchar_to_string(&buf), "Hi");
}

#[test]
fn decode_whole_buffer_without_zero() {
    let buf: Vec<u16> = vec![72, 101, 121];
    assert_eq!(wchar_to_string(&buf), "Hey");
}

#[test]
fn decode_zero_at_start_is_empty() {
    let buf: Vec<u16> = vec![0, 72, 105];
    assert_eq!(wchar_to_string(&buf), "");
}

#[test]
fn decode_empty_buffer_is_empty() {
    let buf: Vec<u16> = vec![];
    assert_eq!(wchar_to_string(&buf), "");
}

#[test]
fn decode_replaces_invalid_units() {
    // A lone high surrogate is not valid text and must be replaced, not fail.
    let buf: Vec<u16> = vec![0xD800, 65];
    assert_eq!(wchar_to_string(&buf), "\u{FFFD}A");
}

#[test]
fn decode_only_reads_before_the_zero() {
    // Invalid units after the terminator must not influence the result.
    let buf: Vec<u16> = vec![79, 107, 0, 0xD800];
    assert_eq!(wchar_to_string(&buf), "Ok");
}
