use ppe_core::transcode::set_color;
use ppe_core::transcode::transcode;

fn hex_digit(d: u8) -> u8 {
    if d < 10 {
        b'0' + d
    } else {
        b'A' + d - 10
    }
}

#[test]
fn print_path_matches_set_color_for_every_attribute_byte() {
    for c in 0..=255u8 {
        let escape = vec![b'@', b'X', hex_digit(c >> 4), hex_digit(c & 0x0F)];
        assert_eq!(transcode(&escape), set_color(c), "attribute byte {}", c);
    }
}

#[test]
fn set_color_plain_attribute() {
    assert_eq!(set_color(0x01), b"\x1B[0;34;40m".to_vec());
}

#[test]
fn set_color_bold_attribute() {
    assert_eq!(set_color(0x8F), b"\x1B[0;1;37;40m".to_vec());
}

#[test]
fn set_color_background_attribute() {
    assert_eq!(set_color(0x20), b"\x1B[0;30;42m".to_vec());
}

#[test]
fn plain_ascii_passes_through_unchanged() {
    let data = b"Hello, world! 123".to_vec();
    assert_eq!(transcode(&data), data);
}

#[test]
fn empty_buffer_stays_empty() {
    assert_eq!(transcode(&[]), Vec::<u8>::new());
}

#[test]
fn terminator_stops_the_whole_buffer() {
    let data = b"abc\x1Adef".to_vec();
    assert_eq!(transcode(&data), b"abc".to_vec());
}

#[test]
fn non_hex_after_color_start_reemits_prefix_x_and_byte() {
    // After the prefix and `X`, a non-hex byte must re-emit exactly the
    // prefix, the `X` and the offending byte, in that order, with the
    // machine back in its default state.
    let data = b"@Xq rest".to_vec();
    assert_eq!(transcode(&data), b"@Xq rest".to_vec());
}

#[test]
fn non_hex_after_one_color_digit_reemits_three_bytes() {
    let data = b"@X1q".to_vec();
    assert_eq!(transcode(&data), b"@1q".to_vec());
}

#[test]
fn cls_token_expands_to_clear_screen() {
    let data = b"ab@CLS@cd".to_vec();
    assert_eq!(transcode(&data), b"ab\x1B[2Jcd".to_vec());
}

#[test]
fn unknown_named_sequence_is_dropped() {
    let data = b"ab@WHOAMI@cd".to_vec();
    assert_eq!(transcode(&data), b"abcd".to_vec());
}

#[test]
fn color_code_in_running_text() {
    let data = b"a@X07b".to_vec();
    let mut expected = b"a".to_vec();
    expected.extend(set_color(0x07));
    expected.extend(b"b");
    assert_eq!(transcode(&data), expected);
}

#[test]
fn lowercase_hex_digits_compose_too() {
    let data = b"@Xf0".to_vec();
    assert_eq!(transcode(&data), set_color(0xF0));
}
