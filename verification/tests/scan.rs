use glimpse::device::NewLEDError;
use glimpse::scan::{get_all_leds, RawEntry};

fn entry(name: &str, brightness: &str) -> RawEntry {
    RawEntry::Entry { file_name: name.to_string(), brightness: brightness.to_string() }
}

#[test]
fn scan_of_well_formed_entries_yields_one_record_each() {
    let entries = vec![entry("red", "0\n"), entry("green", "7\n"), entry("blue", "255\n")];
    let leds = get_all_leds(&entries).unwrap();
    assert_eq!(leds.len(), 3);
    assert_eq!(leds[0].file_name, "red");
    assert!(!leds[0].is_on);
    assert_eq!(leds[1].file_name, "green");
    assert!(leds[1].is_on);
    assert_eq!(leds[2].file_name, "blue");
    assert!(leds[2].is_on);
}

#[test]
fn scan_of_no_entries_yields_no_records() {
    let leds = get_all_leds(&Vec::new()).unwrap();
    assert!(leds.is_empty());
}

#[test]
fn one_bad_brightness_fails_the_whole_scan() {
    let entries = vec![entry("red", "1\n"), entry("green", "bright\n"), entry("blue", "2\n")];
    let r = get_all_leds(&entries);
    assert!(matches!(r, Err(NewLEDError::InvalidBrightness)));
}

#[test]
fn first_failed_entry_wins() {
    let entries = vec![
        RawEntry::Failed { error: NewLEDError::NotFound },
        entry("green", "bright\n"),
    ];
    let r = get_all_leds(&entries);
    assert!(matches!(r, Err(NewLEDError::NotFound)));
}

#[test]
fn failed_read_surfaces_its_message() {
    let entries = vec![
        entry("red", "1\n"),
        RawEntry::Failed { error: NewLEDError::IOError("device busy".to_string()) },
    ];
    match get_all_leds(&entries) {
        Err(NewLEDError::IOError(msg)) => assert_eq!(msg, "device busy"),
        other => panic!("expected an IOError, got {:?}", other.is_ok()),
    }
}
