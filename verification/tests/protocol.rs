use hp_thermal::protocol::{
    build_fingerprint, pack_state, status_ok, unpack_state, Request, CMD_READ_BRIGHTNESS,
    CMD_READ_BUILD_ID, CMD_READ_COOLSENSE, CMD_READ_STATE, CMD_READ_TEMP, CMD_READ_THERMAL,
    CMD_SET_BRIGHTNESS, CMD_SET_COOLSENSE, CMD_SET_LOGGING, CMD_SET_STACK_MONITOR,
    CMD_SET_THERMAL, STATUS_CACHED, STATUS_INVALID_CMD, STATUS_INVALID_PAYLOAD, STATUS_OK,
    STATUS_WMI_ERROR,
};

fn parse(cmd: u8, payload: u8) -> Result<Request, u8> {
    Request::try_from([cmd, payload])
}

#[test]
fn read_commands_accept_and_normalize_payload_to_zero() {
    for cmd in [
        CMD_READ_THERMAL,
        CMD_READ_COOLSENSE,
        CMD_READ_BUILD_ID,
        CMD_READ_TEMP,
        CMD_READ_BRIGHTNESS,
    ] {
        let req = parse(cmd, 0xFF).expect("read command should parse");
        assert_eq!(req.command, cmd);
        assert_eq!(req.payload, 0, "read cmd 0x{cmd:02X} must zero the payload");
    }
}

#[test]
fn set_thermal_accepts_only_modes_0_through_3() {
    for mode in 0..=3u8 {
        assert_eq!(parse(CMD_SET_THERMAL, mode).unwrap().payload, mode);
    }
    for bad in [4u8, 5, 100, 255] {
        assert_eq!(
            parse(CMD_SET_THERMAL, bad).err(),
            Some(STATUS_INVALID_PAYLOAD),
            "thermal mode {bad} must be rejected",
        );
    }
}

#[test]
fn toggle_commands_accept_only_0_or_1() {
    for cmd in [CMD_SET_COOLSENSE, CMD_SET_LOGGING, CMD_SET_STACK_MONITOR] {
        assert_eq!(parse(cmd, 0).unwrap().payload, 0);
        assert_eq!(parse(cmd, 1).unwrap().payload, 1);
        for bad in [2u8, 3, 255] {
            assert_eq!(
                parse(cmd, bad).err(),
                Some(STATUS_INVALID_PAYLOAD),
                "toggle cmd 0x{cmd:02X} must reject {bad}",
            );
        }
    }
}

#[test]
fn set_brightness_accepts_0_through_100() {
    for level in [0u8, 1, 50, 99, 100] {
        assert_eq!(parse(CMD_SET_BRIGHTNESS, level).unwrap().payload, level);
    }
    for bad in [101u8, 200, 255] {
        assert_eq!(
            parse(CMD_SET_BRIGHTNESS, bad).err(),
            Some(STATUS_INVALID_PAYLOAD),
            "brightness {bad} must be rejected",
        );
    }
}

#[test]
fn unknown_commands_are_rejected() {
    for cmd in [0x00u8, 0x0B, 0x40, 0x7F, 0xFF] {
        assert_eq!(
            parse(cmd, 0).err(),
            Some(STATUS_INVALID_CMD),
            "cmd 0x{cmd:02X} must be rejected as unknown",
        );
    }
}

#[test]
fn status_ok_ignores_the_cached_bit() {
    assert!(status_ok(STATUS_OK), "fresh OK");
    assert!(status_ok(STATUS_OK | STATUS_CACHED), "cached OK");
    assert!(!status_ok(STATUS_INVALID_CMD));
    assert!(!status_ok(STATUS_INVALID_PAYLOAD));
    assert!(!status_ok(STATUS_WMI_ERROR));
    assert!(!status_ok(STATUS_WMI_ERROR | STATUS_CACHED));
}

#[test]
fn build_fingerprint_is_populated() {
    let f = build_fingerprint("140.abc", "20260101_120000");
    assert_eq!(f, build_fingerprint("140.abc", "20260101_120000"));
    assert_ne!(f, [0, 0], "fingerprint should be non-trivial");
}

#[test]
fn other_builds_have_other_fingerprints() {
    let f = build_fingerprint("140.abc", "20260101_120000");
    assert_ne!(f, build_fingerprint("141.abd", "20260101_120000"));
    assert_ne!(f, build_fingerprint("140.abc", "20260102_120000"));
}

#[test]
fn state_reads_are_accepted() {
    let req = parse(CMD_READ_STATE, 7).unwrap();
    assert_eq!(req.payload, 0);
}

#[test]
fn packed_state_comes_apart() {
    for thermal in 0..4u8 {
        for coolsense in 0..2u8 {
            assert_eq!(unpack_state(pack_state(thermal, coolsense)), (thermal, coolsense));
        }
    }
}
