use aphrodite::display::{COLOR_DEFAULT, NoneTextDisplay, TextDisplay, clear_screen, write_bytes, write_str};
use aphrodite::errors::Error;

#[test]
fn none_display_swallows_everything() {
    let d = NoneTextDisplay {};
    assert_eq!(d.get_size().unwrap(), (1, 1));
    assert!(d.write_char((0, 0), b'x', COLOR_DEFAULT).is_ok());
    d.scroll();
}

#[test]
fn clear_screen_succeeds_on_the_null_display() {
    let d = NoneTextDisplay {};
    assert!(clear_screen(&d, COLOR_DEFAULT).is_ok());
}

#[test]
fn write_str_advances_and_wraps() {
    // On a one-by-one screen each printing byte wraps to the next row
    // after a scroll keeps the row in range.
    let d = NoneTextDisplay {};
    assert_eq!(write_str(&d, (0, 0), "ab", COLOR_DEFAULT).unwrap(), (1, 1));
    assert_eq!(write_str(&d, (0, 0), "", COLOR_DEFAULT).unwrap(), (0, 0));
}

#[test]
fn write_str_does_not_advance_on_nul_bytes() {
    let d = NoneTextDisplay {};
    assert_eq!(write_str(&d, (0, 0), "\0\0", COLOR_DEFAULT).unwrap(), (0, 0));
}

#[test]
fn write_bytes_advances_without_scrolling() {
    let d = NoneTextDisplay {};
    assert_eq!(write_bytes(&d, (0, 0), b"abcd", COLOR_DEFAULT).unwrap(), (1, 3));
    assert_eq!(write_bytes(&d, (0, 5), b"", COLOR_DEFAULT).unwrap(), (0, 5));
}

#[test]
fn error_display_np_writes_to_a_display() {
    let d = NoneTextDisplay {};
    let err = Error::new("something broke", -3);
    assert!(err.display_np(&d).is_ok());
}

#[test]
fn error_carries_message_and_code() {
    let err = Error::new("bad input", -7);
    assert_eq!(err.code(), -7);
    assert_eq!(err.message(), "bad input");
}
