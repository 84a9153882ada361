use glimpse::device::{NewLEDError, LED};

#[test]
fn well_formed_device_is_on() {
    let led = LED::new("input1".to_string(), "5\n".to_string()).unwrap();
    assert_eq!(led.file_name, "input1");
    assert_eq!(led.name, "input1");
    assert!(led.is_on);
}

#[test]
fn brightness_zero_is_off() {
    let led = LED::new("caps".to_string(), "0\n".to_string()).unwrap();
    assert!(!led.is_on);
}

#[test]
fn brightness_one_is_on() {
    let led = LED::new("caps".to_string(), "1".to_string()).unwrap();
    assert!(led.is_on);
}

#[test]
fn brightness_255_is_on() {
    let led = LED::new("caps".to_string(), "255\n".to_string()).unwrap();
    assert!(led.is_on);
}

#[test]
fn brightness_over_range_is_invalid() {
    let r = LED::new("caps".to_string(), "256\n".to_string());
    assert!(matches!(r, Err(NewLEDError::InvalidBrightness)));
}

#[test]
fn brightness_non_numeric_is_invalid() {
    let r = LED::new("caps".to_string(), "bright\n".to_string());
    assert!(matches!(r, Err(NewLEDError::InvalidBrightness)));
}

#[test]
fn brightness_empty_is_invalid() {
    let r = LED::new("caps".to_string(), "".to_string());
    assert!(matches!(r, Err(NewLEDError::InvalidBrightness)));
}

#[test]
fn brightness_only_whitespace_is_invalid() {
    let r = LED::new("caps".to_string(), " \t\r\n".to_string());
    assert!(matches!(r, Err(NewLEDError::InvalidBrightness)));
}

#[test]
fn brightness_sign_is_invalid() {
    let r = LED::new("caps".to_string(), "+5\n".to_string());
    assert!(matches!(r, Err(NewLEDError::InvalidBrightness)));
}

#[test]
fn brightness_digits_with_inner_space_is_invalid() {
    let r = LED::new("caps".to_string(), "2 5\n".to_string());
    assert!(matches!(r, Err(NewLEDError::InvalidBrightness)));
}

#[test]
fn brightness_is_trimmed_on_both_sides() {
    let led = LED::new("caps".to_string(), " \t 37 \r\n".to_string()).unwrap();
    assert!(led.is_on);
}

#[test]
fn brightness_leading_zeroes_parse() {
    let led = LED::new("caps".to_string(), "000\n".to_string()).unwrap();
    assert!(!led.is_on);
}

#[test]
fn display_name_replaces_separator() {
    let led = LED::new("alpha::on".to_string(), "5\n".to_string()).unwrap();
    assert_eq!(led.name, "alpha on");
    assert_eq!(led.file_name, "alpha::on");
}

#[test]
fn display_name_replaces_every_separator() {
    let led = LED::new("a::b::c".to_string(), "1".to_string()).unwrap();
    assert_eq!(led.name, "a b c");
}

#[test]
fn display_name_replaces_leftmost_first() {
    let led = LED::new("x:::y".to_string(), "1".to_string()).unwrap();
    assert_eq!(led.name, "x :y");
}

#[test]
fn display_name_keeps_single_colon() {
    let led = LED::new("a:b".to_string(), "1".to_string()).unwrap();
    assert_eq!(led.name, "a:b");
}

#[test]
fn error_messages_render() {
    assert_eq!(NewLEDError::NotFound.message(), "LED does not exist");
    assert_eq!(NewLEDError::InvalidBrightness.message(), "Invalid brightness value");
    assert_eq!(NewLEDError::InvalidFileName.message(), "Invalid encoding in file name");
    assert_eq!(
        NewLEDError::IOError("permission denied".to_string()).message(),
        "I/O error: permission denied"
    );
}
