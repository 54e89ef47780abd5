use brightness::controller::{
    read_value, Brightness, BrightnessError, BRIGHTNESS_FILE, DEFAULT_BACKEND, DEFAULT_ROOT,
    MAX_BRIGHTNESS_FILE,
};

fn device(max: i32) -> Brightness {
    Brightness::new("/tmp/backlight".to_string(), "panel".to_string(), max)
}

#[test]
fn default_uses_intel_backlight_and_unknown_max() {
    let c = Brightness::default();
    assert_eq!(c.backend, "intel_backlight");
    assert_eq!(c.backend, DEFAULT_BACKEND);
    assert_eq!(c.root, "/sys/class/backlight");
    assert_eq!(c.root, DEFAULT_ROOT);
    assert_eq!(c.max_brightness, 0);
    assert!(c.reads_max_file());
}

#[test]
fn attribute_file_names() {
    assert_eq!(BRIGHTNESS_FILE, "brightness");
    assert_eq!(MAX_BRIGHTNESS_FILE, "max_brightness");
}

#[test]
fn new_keeps_its_arguments() {
    let c = device(42);
    assert_eq!(c.root, "/tmp/backlight");
    assert_eq!(c.backend, "panel");
    assert_eq!(c.max_brightness, 42);
}

#[test]
fn percent_of_half_bright_device() {
    let c = device(1000);
    assert_eq!(c.get_percent(b"500", None), Ok(50));
    let u = device(0);
    assert_eq!(u.get_percent(b"500\n", Some(b"1000\n")), Ok(50));
}

#[test]
fn set_percent_fifty_on_thousand() {
    let c = device(0);
    let text = c.set_percent(50, Some(b"1000")).unwrap();
    assert_eq!(text, b"500".to_vec());
    assert_eq!(read_value(&text), 500);
}

#[test]
fn set_brightness_above_max_clamps_to_max() {
    let c = device(255);
    assert_eq!(c.set_brightness(300, None).unwrap(), b"255".to_vec());
}

#[test]
fn set_brightness_below_zero_clamps_to_zero() {
    let c = device(255);
    assert_eq!(c.set_brightness(-5, None).unwrap(), b"0".to_vec());
}

#[test]
fn set_brightness_in_range_reads_back() {
    let c = device(255);
    for v in [0, 1, 128, 254, 255] {
        let text = c.set_brightness(v, None).unwrap();
        assert_eq!(c.get_brightness(&text), v);
    }
}

#[test]
fn set_brightness_extremes_clamp() {
    let c = device(255);
    assert_eq!(c.set_brightness(i32::MAX, None).unwrap(), b"255".to_vec());
    assert_eq!(c.set_brightness(i32::MIN, None).unwrap(), b"0".to_vec());
}

#[test]
fn set_percent_full_gives_max() {
    for max in [1, 7, 255, 1000, 120000] {
        let c = device(max);
        let text = c.set_percent(100, None).unwrap();
        assert_eq!(c.get_brightness(&text), max);
    }
}

#[test]
fn set_percent_zero_gives_zero() {
    for max in [1, 7, 255, 1000] {
        let c = device(max);
        let text = c.set_percent(0, None).unwrap();
        assert_eq!(c.get_brightness(&text), 0);
    }
}

#[test]
fn set_percent_beyond_bounds_clamps() {
    let c = device(255);
    assert_eq!(c.set_percent(150, None).unwrap(), b"255".to_vec());
    assert_eq!(c.set_percent(-20, None).unwrap(), b"0".to_vec());
}

#[test]
fn percent_is_monotone_in_brightness() {
    let c = device(255);
    let mut last = i32::MIN;
    for b in 0..=255 {
        let text = b.to_string();
        let p = c.get_percent(text.as_bytes(), None).unwrap();
        assert!(p >= last);
        last = p;
    }
    assert_eq!(c.get_percent(b"0", None), Ok(0));
    assert_eq!(c.get_percent(b"255", None), Ok(100));
}

#[test]
fn known_max_is_used_without_its_file() {
    let c = device(500);
    assert!(!c.reads_max_file());
    assert_eq!(c.get_max_brightness(None), Ok(500));
    assert_eq!(c.get_max_brightness(Some(b"not a number")), Ok(500));
    assert_eq!(c.get_max_brightness(Some(b"900")), Ok(500));
}

#[test]
fn unknown_max_is_read_from_its_file() {
    let c = device(0);
    assert!(c.reads_max_file());
    assert_eq!(c.get_max_brightness(Some(b" 937\n")), Ok(937));
    let n = device(-3);
    assert!(n.reads_max_file());
    assert_eq!(n.get_max_brightness(Some(b"12")), Ok(12));
}

#[test]
fn unknown_max_without_its_file_is_an_error() {
    let c = device(0);
    assert_eq!(c.get_max_brightness(None), Err(BrightnessError::MaxNotRead));
    assert_eq!(c.get_percent(b"10", None), Err(BrightnessError::MaxNotRead));
    assert_eq!(c.set_brightness(10, None), Err(BrightnessError::MaxNotRead));
    assert_eq!(c.set_percent(10, None), Err(BrightnessError::MaxNotRead));
}

#[test]
fn zero_max_percent_is_a_domain_error() {
    let c = device(0);
    assert_eq!(c.get_percent(b"10", Some(b"0")), Err(BrightnessError::ZeroMaximum));
}

#[test]
fn malformed_files_read_as_zero() {
    let c = device(0);
    assert_eq!(c.get_brightness(b"bright"), 0);
    assert_eq!(c.get_brightness(b""), 0);
    assert_eq!(c.get_max_brightness(Some(b"12ab")), Ok(0));
    assert_eq!(c.get_percent(b"50", Some(b"max")), Err(BrightnessError::ZeroMaximum));
    assert_eq!(c.set_brightness(40, Some(b"?")).unwrap(), b"0".to_vec());
}

#[test]
fn brightness_is_read_with_whitespace_trimmed() {
    let c = device(100);
    assert_eq!(c.get_brightness(b"  73\n"), 73);
    assert_eq!(read_value(b"\t-8 \r\n"), -8);
}

#[test]
fn caching_a_read_maximum_stops_later_reads() {
    let mut c = device(0);
    assert_eq!(c.cache_max_brightness(Some(b"1000")), Ok(1000));
    assert_eq!(c.max_brightness, 1000);
    assert!(!c.reads_max_file());
    assert_eq!(c.get_percent(b"500", None), Ok(50));
}

#[test]
fn caching_keeps_unknown_max_on_zero_or_missing_file() {
    let mut c = device(0);
    assert_eq!(c.cache_max_brightness(Some(b"junk")), Ok(0));
    assert_eq!(c.max_brightness, 0);
    assert_eq!(c.cache_max_brightness(None), Err(BrightnessError::MaxNotRead));
    assert_eq!(c.max_brightness, 0);
    let mut k = device(300);
    assert_eq!(k.cache_max_brightness(Some(b"900")), Ok(300));
    assert_eq!(k.max_brightness, 300);
}

#[test]
fn non_ascii_whitespace_reads_the_number() {
    let c = device(100);
    assert_eq!(c.get_brightness("\u{a0}42".as_bytes()), 42);
    assert_eq!(c.get_percent("10".as_bytes(), None), Ok(10));
    assert_eq!(c.get_percent("\u{a0}42".as_bytes(), None), Ok(42));
    let u = device(0);
    assert_eq!(u.get_max_brightness(Some("\u{3000}255\u{2028}".as_bytes())), Ok(255));
}
