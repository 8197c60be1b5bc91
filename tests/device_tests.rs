use tekflash::device::{
    classify, device_id, find_keyboard, is_tek, mode_switch_packet, DeviceError, DeviceMode, Mode,
    NORMAL_MODE_ID, PROGRAM_MODE_ID,
};

#[test]
fn ids_combine_vendor_and_product() {
    assert_eq!(device_id(0x0E6A, 0x030C), NORMAL_MODE_ID);
    assert_eq!(device_id(0x0E6A, 0x030B), PROGRAM_MODE_ID);
    assert_eq!(device_id(0xFFFF, 0x0001), 0xFFFF0001);
}

#[test]
fn classification_by_id() {
    assert_eq!(PROGRAM_MODE_ID, NORMAL_MODE_ID - 1);
    assert_eq!(classify(NORMAL_MODE_ID), DeviceMode::Normal);
    assert_eq!(classify(NORMAL_MODE_ID - 1), DeviceMode::Program);
    assert_eq!(classify(NORMAL_MODE_ID + 1), DeviceMode::Unrelated);
    assert_eq!(classify(0x046D_C52B), DeviceMode::Unrelated);
}

#[test]
fn is_tek_queries() {
    let n = NORMAL_MODE_ID;
    let p = NORMAL_MODE_ID - 1;
    assert!(is_tek(n, Mode::Either));
    assert!(is_tek(p, Mode::Either));
    assert!(!is_tek(n - 2, Mode::Either));
    assert!(is_tek(n, Mode::Normal));
    assert!(!is_tek(n, Mode::Program));
    assert!(is_tek(p, Mode::Program));
    assert!(!is_tek(p, Mode::Normal));
}

#[test]
fn find_keyboard_needs_exactly_one() {
    let other = 0x046D_C52B;
    assert_eq!(find_keyboard(&vec![]), Err(DeviceError::NoDevice));
    assert_eq!(find_keyboard(&vec![other, other + 1]), Err(DeviceError::NoDevice));
    assert_eq!(find_keyboard(&vec![other, PROGRAM_MODE_ID, other]), Ok(1));
    assert_eq!(find_keyboard(&vec![NORMAL_MODE_ID]), Ok(0));
    assert_eq!(
        find_keyboard(&vec![NORMAL_MODE_ID, other, PROGRAM_MODE_ID]),
        Err(DeviceError::MultipleDevices)
    );
    assert_eq!(find_keyboard(&vec![NORMAL_MODE_ID, NORMAL_MODE_ID]), Err(DeviceError::MultipleDevices));
}

#[test]
fn mode_switch_packet_layout() {
    let p = mode_switch_packet();
    let mut expected = vec![0u8; 64];
    expected[0] = 0x44;
    assert_eq!(p, expected);
}
