use hp_thermal::menu::{
    age_text, date_text, menu_anchor, show_context_menu, values_from_cache,
    values_from_responses, DebugInfo, Entry, FnKeySettings, MenuValues, NoiseState, StackNumbers,
    ID_BALANCED, ID_CALIBRATE, ID_CLEAR_CAL, ID_EXIT, ID_METHOD_DPMS, ID_NOISE_ADAPTED,
    ID_PERFORMANCE, ID_RESTART_SVC, ID_SHOW_FINGERPRINT, ID_SMART_SENSE,
};

/// The text, and whether it can be chosen and is checked, of an entry.
fn find(menu: &[Entry], wanted: u32) -> Option<(String, bool, bool)> {
    for e in menu {
        if let Entry::Item { id, text, enabled, checked } = e {
            if *id == wanted {
                return Some((text.clone(), *enabled, *checked));
            }
        }
    }
    None
}

fn balanced() -> MenuValues {
    MenuValues { mode: Some(1), smart: Some(false) }
}

#[test]
fn the_current_mode_is_checked() {
    let menu = show_context_menu(true, None, &balanced(), &None);
    assert_eq!(find(&menu, ID_BALANCED), Some(("Balanced".to_string(), true, true)));
    assert_eq!(find(&menu, ID_PERFORMANCE), Some(("Performance".to_string(), true, false)));
    assert_eq!(find(&menu, ID_EXIT), Some(("Exit".to_string(), true, false)));
    assert_eq!(find(&menu, ID_RESTART_SVC), None);
    assert_eq!(find(&menu, ID_NOISE_ADAPTED), None);
}

#[test]
fn smart_sense_takes_the_check() {
    let v = MenuValues { mode: Some(1), smart: Some(true) };
    let menu = show_context_menu(true, None, &v, &None);
    assert_eq!(find(&menu, ID_SMART_SENSE), Some(("Smart Sense".to_string(), true, true)));
    assert_eq!(find(&menu, ID_BALANCED).map(|e| e.2), Some(false));
}

#[test]
fn without_the_service_it_can_be_restarted() {
    let menu = show_context_menu(false, None, &balanced(), &None);
    assert_eq!(find(&menu, ID_BALANCED), Some(("Balanced".to_string(), false, false)));
    assert!(find(&menu, ID_RESTART_SVC).is_some());
}

#[test]
fn one_measurement_at_a_time() {
    let idle = NoiseState { measuring: false, calibrating: false };
    let menu = show_context_menu(true, Some(idle), &balanced(), &None);
    assert_eq!(find(&menu, ID_NOISE_ADAPTED).map(|e| e.1), Some(true));
    assert_eq!(find(&menu, ID_CALIBRATE).map(|e| e.1), Some(true));
    let busy = NoiseState { measuring: true, calibrating: false };
    let menu = show_context_menu(true, Some(busy), &balanced(), &None);
    assert_eq!(
        find(&menu, ID_NOISE_ADAPTED),
        Some(("Noise Adapted (measuring...)".to_string(), false, false))
    );
    assert_eq!(find(&menu, ID_CALIBRATE).map(|e| e.1), Some(false));
}

fn debug() -> DebugInfo {
    DebugInfo {
        build_id: "140.abc".to_string(),
        build_date: "20260101_120000".to_string(),
        cpu: "".to_string(),
        temp: Some([0, 61]),
        gpu: None,
        pipe_ok: true,
        thermal: Some([0, 1]),
        coolsense: None,
        stack: StackNumbers { depth: 2048, committed: 8192, depth_peak_kb: 3, peak_kb: 9 },
        calibration: None,
        keys: FnKeySettings { screen: true, sleep: false, method: 0 },
        stack_monitor: false,
    }
}

#[test]
fn debug_lines_follow_the_exit() {
    let menu = show_context_menu(true, None, &balanced(), &Some(debug()));
    assert_eq!(
        find(&menu, 300).map(|e| e.0),
        Some("Build: 140.abc (2026-01-01 12:00)".to_string())
    );
    assert_eq!(find(&menu, 301).map(|e| e.0), Some("CPU: 61C unknown".to_string()));
    assert_eq!(find(&menu, 304).map(|e| e.0), Some("thermal: 0x00 0x01".to_string()));
    assert_eq!(find(&menu, 305).map(|e| e.0), Some("coolsense: no response".to_string()));
    assert_eq!(
        find(&menu, 306).map(|e| e.0),
        Some("stack: depth=2 KB committed=8 KB (peak: 3/9)".to_string())
    );
    assert_eq!(find(&menu, ID_SHOW_FINGERPRINT).map(|e| e.1), Some(true));
    assert_eq!(find(&menu, ID_METHOD_DPMS).map(|e| e.2), Some(true));
    assert_eq!(find(&menu, ID_CLEAR_CAL), None);
}

#[test]
fn values_come_from_good_answers_only() {
    let v = values_from_responses(Some([0x80, 2]), Some([3, 1]));
    assert_eq!(v, MenuValues { mode: Some(2), smart: None });
    assert_eq!(values_from_cache(0xFF, 1), MenuValues { mode: None, smart: Some(true) });
    assert_eq!(values_from_cache(3, 0xFF), MenuValues { mode: Some(3), smart: None });
}

#[test]
fn ages_are_in_days_or_hours() {
    assert_eq!(age_text(0, true), "never");
    assert_eq!(age_text(100, false), "never");
    assert_eq!(age_text(7200, true), "2h ago");
    assert_eq!(age_text(86400 * 3 + 5, true), "3d ago");
}

#[test]
fn dates_are_for_people() {
    assert_eq!(date_text("20260101_123456"), "2026-01-01 12:34");
    assert_eq!(date_text("unknown"), "unknown");
}

#[test]
fn menus_open_where_the_shell_says() {
    assert_eq!(menu_anchor(0, 0, (7, 8)), (7, 8));
    assert_eq!(menu_anchor(0, 5, (7, 8)), (0, 5));
}
