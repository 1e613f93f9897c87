use okey::device::{
    check_device_count, device_path_from_units, is_keyboard_device, render_keyboard_list,
    DeviceError, KeyboardDevice,
};

const RAW: &str = "\\\\?\\HID#VID_046D&PID_C31C&MI_00#7&2a2d3c1&0&0000#{884b96c3-56ef-11d1-bc8c-00a0c91405dd}";

#[test]
fn extracts_id_vendor_and_product() {
    let mut k = KeyboardDevice::default();
    assert!(k.extract_from_raw_path(RAW.to_string()).is_ok());
    assert_eq!(k.id.as_deref(), Some("7&2a2d3c1&0&0000"));
    assert_eq!(k.vendor, Some(0x046D));
    assert_eq!(k.product, Some(0xC31C));
    assert_eq!(k.version, None);
    assert_eq!(k.name, None);
    assert_eq!(k.path, None);
}

#[test]
fn refuses_paths_without_marker_or_hash() {
    let mut k = KeyboardDevice::default();
    k.vendor = Some(7);
    assert!(matches!(k.extract_from_raw_path("HID#VID_1".to_string()), Err(DeviceError::InvalidRawPath)));
    assert!(matches!(k.extract_from_raw_path("\\\\?\\HID".to_string()), Err(DeviceError::InvalidRawPath)));
    assert_eq!(k.vendor, Some(7));
    assert_eq!(k.id, None);
}

#[test]
fn unparsable_vendor_becomes_none_and_absent_fields_stay() {
    let mut k = KeyboardDevice::default();
    k.product = Some(5);
    assert!(k.extract_from_raw_path("\\\\?\\X#VID_zz&MI_00#tail".to_string()).is_ok());
    assert_eq!(k.vendor, None);
    assert_eq!(k.product, Some(5));
    assert_eq!(k.id.as_deref(), Some("VID_zz&MI_00"));
}

#[test]
fn later_field_wins() {
    let mut k = KeyboardDevice::default();
    assert!(k.extract_from_raw_path("\\\\?\\X#VID_1&VID_2#a#b".to_string()).is_ok());
    assert_eq!(k.vendor, Some(2));
    assert_eq!(k.id.as_deref(), Some("a"));
}

#[test]
fn keyboard_from_device_path() {
    let k = KeyboardDevice::from_device_path(RAW.to_string(), Some("Logitech".to_string()));
    let k = match k {
        Ok(k) => k,
        Err(_) => panic!("refused"),
    };
    assert_eq!(k.path.as_deref(), Some("\\\\?\\HID#VID_046D&PID_C31C&MI_00#7&2a2d3c1&0&0000"));
    assert_eq!(k.name.as_deref(), Some("Logitech"));
    assert_eq!(k.vendor, Some(0x46d));
    assert!(KeyboardDevice::from_device_path("HID#x".to_string(), None).is_err());
}

#[test]
fn device_path_is_decoded_and_trimmed() {
    let mut units: Vec<u16> = RAW.encode_utf16().collect();
    units.push(0);
    units.push(0);
    assert_eq!(device_path_from_units(&units), RAW);
    assert_eq!(device_path_from_units(&[0x41, 0xD800, 0]), "A\u{FFFD}");
    assert_eq!(
        device_path_from_units(&[0x41, 0xD83D, 0xDE00, 0xDC00, 0x42, 0]),
        "A\u{1F600}\u{FFFD}B"
    );
    let text = "k\u{e9}y\u{1F600}";
    let units: Vec<u16> = text.encode_utf16().collect();
    assert_eq!(device_path_from_units(&units), text);
}

#[test]
fn device_counts_and_types() {
    assert!(check_device_count(3, 3).is_ok());
    match check_device_count(3, 2) {
        Err(e) => assert_eq!(e.message(), "Expected 3 device, got 2"),
        Ok(()) => panic!("accepted"),
    }
    assert_eq!(DeviceError::InvalidRawPath.message(), "Invalid raw device input path");
    assert!(is_keyboard_device(1));
    assert!(!is_keyboard_device(0));
    assert!(!is_keyboard_device(2));
}

#[test]
fn listing_lines() {
    let mut named = KeyboardDevice::default();
    named.name = Some("Keychron".to_string());
    named.path = Some("P".to_string());
    named.vendor = Some(0x46d);
    let unnamed = KeyboardDevice::default();
    let mut second_unnamed = KeyboardDevice::default();
    second_unnamed.id = Some("I".to_string());
    second_unnamed.version = Some(0x12345);
    let lines = render_keyboard_list(&vec![named, unnamed, second_unnamed]);
    let want = vec![
        "\u{2022} Keychron",
        "  \u{251C}\u{2500} Path\t: P",
        "  \u{2514}\u{2500} Vendor\t: 0x046d",
        "",
        "\u{2022} Unnamed 0",
        "",
        "\u{2022} Unnamed 1",
        "  \u{251C}\u{2500} Unique ID\t: I",
        "  \u{2514}\u{2500} Version\t: 0x12345",
        "",
    ];
    assert_eq!(lines, want);
    assert!(render_keyboard_list(&vec![]).is_empty());
}
