use tray_bright::{
    backlight_percent, backlight_raw, parse_ddcutil_detect, parse_decimal, parse_vcp_brief,
    split_tokens,
};

#[test]
fn decimal_tokens() {
    assert_eq!(parse_decimal(b"0"), Some(0));
    assert_eq!(parse_decimal(b"4294967295"), Some(u32::MAX));
    assert_eq!(parse_decimal(b"4294967296"), None);
    assert_eq!(parse_decimal(b"99999999999999999999"), None);
    assert_eq!(parse_decimal(b"+17"), Some(17));
    assert_eq!(parse_decimal(b"+"), None);
    assert_eq!(parse_decimal(b""), None);
    assert_eq!(parse_decimal(b"-1"), None);
    assert_eq!(parse_decimal(b"12a"), None);
    assert_eq!(parse_decimal(b"007"), Some(7));
}

#[test]
fn tokens_split_on_whitespace() {
    assert_eq!(
        split_tokens(b"  VCP 10\tC\n50  100 \n"),
        vec![b"VCP".to_vec(), b"10".to_vec(), b"C".to_vec(), b"50".to_vec(), b"100".to_vec()]
    );
    assert_eq!(split_tokens(b"   "), Vec::<Vec<u8>>::new());
}

#[test]
fn vcp_brief_output() {
    assert_eq!(parse_vcp_brief(b"VCP 10 C 50 100\n"), Some((50, 100)));
    assert_eq!(parse_vcp_brief(b"VCP 10 C 50"), None);
    assert_eq!(parse_vcp_brief(b"VCP 10 C x 100"), None);
    assert_eq!(parse_vcp_brief(b""), None);
}

#[test]
fn detect_output() {
    let out = b"Display 1\n   I2C bus:  /dev/i2c-4\n   Monitor:  DEL:DELL U2720Q:ABC\n   Model:                DELL U2720Q  \n\nDisplay 2\n   Model: LG ULTRAFINE\n";
    let found = parse_ddcutil_detect(out);
    assert_eq!(
        found,
        vec![(1, b"DELL U2720Q".to_vec()), (2, b"LG ULTRAFINE".to_vec())]
    );
}

#[test]
fn detect_skips_incomplete_displays() {
    let out = b"Invalid display\n   Model: X\nDisplay 3\nDisplay 4\n  Model:\r\nDisplay x\n Model: Y";
    assert_eq!(parse_ddcutil_detect(out), vec![(4, Vec::new())]);
    assert_eq!(parse_ddcutil_detect(b""), Vec::<(u32, Vec<u8>)>::new());
}

#[test]
fn backlight_scaling() {
    assert_eq!(backlight_percent(937, 1875), 49);
    assert_eq!(backlight_percent(1875, 1875), 100);
    assert_eq!(backlight_percent(5, 0), 0);
    assert_eq!(backlight_raw(50, 1875), 937);
    assert_eq!(backlight_raw(100, 255), 255);
    assert_eq!(backlight_raw(0, 255), 0);
}
