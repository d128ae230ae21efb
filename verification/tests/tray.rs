use std::cell::RefCell;

use hp_thermal::calls::Line;
use hp_thermal::menu::{
    FnKeySettings, ID_CALIBRATE, ID_COOL, ID_EXIT, ID_FNKEY_SLEEP, ID_METHOD_BLACK,
    ID_NOISE_ADAPTED, ID_SMART_SENSE, ID_STACK_MONITOR, METHOD_BLACK, METHOD_BRIGHTNESS,
    METHOD_DPMS,
};
use hp_thermal::protocol::{
    Request, CMD_READ_COOLSENSE, CMD_READ_THERMAL, CMD_SET_COOLSENSE, CMD_SET_STACK_MONITOR,
    CMD_SET_THERMAL,
};
use hp_thermal::tray::{
    baseline_mode, black_window_dismissed, cache_store, calibrate_done, calibrate_lparam, clipped,
    dialog_text, dismisses_black_window, exit_if_service_newer, fnkey_config_path, handle_fn_key,
    handle_menu, is_only_instance, load_fnkey_settings, maybe_warm, noise_adapt_done, noise_body,
    noise_lparam, noise_wparam, reclaim_worker, refreshes_tooltip, release_worker,
    request_monitor_off, requests, resumed, run_inner, save_fnkey_settings, screen_off, screen_on,
    send, settings_line, smart_sense_target, start_measurement, take_request, update_tooltip,
    warmed, wnd_proc, FnKeyAction, FnKeyState, MenuAction, MenuCache, MonitorOff, ScreenStep, Told,
    TrayState, WaitEvent, WindowEvent, WM_CALIBRATE_DONE,
    WM_COMMAND, WM_CONTEXTMENU, WM_DESTROY, WM_KEYDOWN, WM_MOUSEMOVE, WM_NOISE_ADAPT_DONE,
    WM_SCREEN_ON, WM_TIMER, WM_TRAYICON,
};

#[test]
fn messages_are_told_apart() {
    assert_eq!(
        wnd_proc(WM_TRAYICON, 0xFFFE_0010, WM_CONTEXTMENU as u64),
        WindowEvent::OpenMenu { x: 16, y: -2 }
    );
    assert_eq!(wnd_proc(WM_TRAYICON, 0, WM_MOUSEMOVE as u64), WindowEvent::Warm);
    assert_eq!(wnd_proc(WM_COMMAND, 0x5_0065, 0), WindowEvent::Command(0x65));
    assert_eq!(wnd_proc(WM_TIMER, 1, 0), WindowEvent::IdleSweep);
    assert_eq!(wnd_proc(WM_TIMER, 2, 0), WindowEvent::Ignore);
    assert_eq!(wnd_proc(WM_DESTROY, 0, 0), WindowEvent::Quit);
    assert_eq!(wnd_proc(WM_SCREEN_ON, 0, 0), WindowEvent::ScreenOn);
    assert_eq!(wnd_proc(0x7777, 0, 0), WindowEvent::Default);
}

#[test]
fn posted_results_arrive() {
    assert_eq!(
        wnd_proc(WM_NOISE_ADAPT_DONE, noise_wparam(1, true), noise_lparam(-47)),
        WindowEvent::NoiseDone { chosen: 1, fast: true, delta_tenths: -47 }
    );
    assert_eq!(
        wnd_proc(WM_CALIBRATE_DONE, 1, calibrate_lparam(0x3F80_0000, 0x4040_0000)),
        WindowEvent::CalibrateDone { ok: true, perf_bits: 0x3F80_0000, bal_bits: 0x4040_0000 }
    );
}

#[test]
fn keys_and_clicks_dismiss_the_black_window() {
    assert!(dismisses_black_window(WM_KEYDOWN));
    assert!(!dismisses_black_window(WM_MOUSEMOVE));
}

#[test]
fn a_second_tray_waits_for_the_first() {
    assert!(is_only_instance(false, true, 0));
    assert!(is_only_instance(true, true, 0x80));
    assert!(!is_only_instance(true, true, 0x102));
    assert!(!is_only_instance(true, false, 0));
}

#[test]
fn waits_tell_their_events() {
    assert_eq!(run_inner(true, true, 0), WaitEvent::FnKey);
    assert_eq!(run_inner(true, true, 1), WaitEvent::ServiceStarted);
    assert_eq!(run_inner(true, true, 2), WaitEvent::Messages);
    assert_eq!(run_inner(false, true, 0), WaitEvent::ServiceStarted);
    assert_eq!(run_inner(false, false, 0), WaitEvent::Messages);
    assert_eq!(run_inner(true, true, 0xFFFF_FFFF), WaitEvent::Failed);
}

#[test]
fn values_are_read_once_while_fresh() {
    let mut c = MenuCache::new();
    assert!(maybe_warm(&mut c, 10));
    assert!(!maybe_warm(&mut c, 11), "a read is under way");
    warmed(&mut c, Some([0, 0x12]), 20);
    assert_eq!((c.thermal, c.coolsense), (2, 1));
    assert!(!maybe_warm(&mut c, 20 + 4999));
    assert!(maybe_warm(&mut c, 20 + 5000));
    warmed(&mut c, None, 6000);
    assert_eq!((c.thermal, c.coolsense), (0xFF, 0xFF));
    cache_store(&mut c, Some(3), None, 6001);
    assert_eq!((c.thermal, c.coolsense, c.stamp), (3, 0xFF, 6001));
}

fn state() -> TrayState {
    TrayState {
        noise_feature: true,
        measuring: false,
        calibrating: false,
        stack_monitor: false,
        keys: FnKeySettings::initial(),
    }
}

#[test]
fn entries_do_what_they_say() {
    let mut s = state();
    assert_eq!(handle_menu(&mut s, ID_SMART_SENSE), MenuAction::ToggleSmartSense);
    assert_eq!(handle_menu(&mut s, ID_COOL), MenuAction::SetMode(2));
    assert_eq!(handle_menu(&mut s, ID_STACK_MONITOR), MenuAction::SetStackMonitor(true));
    assert!(s.stack_monitor);
    assert_eq!(handle_menu(&mut s, ID_FNKEY_SLEEP), MenuAction::SaveSettings);
    assert!(s.keys.sleep);
    assert_eq!(handle_menu(&mut s, ID_METHOD_BLACK), MenuAction::SaveSettings);
    assert_eq!(s.keys.method, METHOD_BLACK);
    assert_eq!(handle_menu(&mut s, ID_EXIT), MenuAction::Exit);
    assert_eq!(handle_menu(&mut s, 9999), MenuAction::Nothing);
    assert!(refreshes_tooltip(MenuAction::SetMode(0)));
    assert!(!refreshes_tooltip(MenuAction::Exit));
}

#[test]
fn measurements_exclude_each_other() {
    let mut s = state();
    assert_eq!(handle_menu(&mut s, ID_NOISE_ADAPTED), MenuAction::StartNoiseAdapt);
    assert_eq!(handle_menu(&mut s, ID_NOISE_ADAPTED), MenuAction::Nothing);
    assert_eq!(handle_menu(&mut s, ID_CALIBRATE), MenuAction::Nothing);
    noise_adapt_done(&mut s);
    assert_eq!(handle_menu(&mut s, ID_CALIBRATE), MenuAction::StartCalibration);
    calibrate_done(&mut s);
    assert_eq!(s, state());
}

#[test]
fn answers_are_interpreted() {
    assert_eq!(smart_sense_target(Some([0, 1])), 0);
    assert_eq!(smart_sense_target(Some([0, 0])), 1);
    assert_eq!(smart_sense_target(None), 1);
    assert_eq!(baseline_mode(Some([0, 3])), 3);
    assert_eq!(baseline_mode(None), 1);
    assert_eq!(update_tooltip(Some([0, 0x10])), "HP Thermal Control: Smart Sense");
    assert_eq!(update_tooltip(Some([0, 0x03])), "HP Thermal Control: Power Saver");
    assert_eq!(update_tooltip(None), "HP Thermal Control: (unavailable)");
}

#[test]
fn texts_fit_their_fields() {
    assert_eq!(clipped("abc", 2), vec![97, 98, 0]);
    assert_eq!(clipped("abc", 5), vec![97, 98, 99, 0]);
    assert_eq!(dialog_text("a\nb"), "a\r\nb");
    assert_eq!(
        noise_body(1, false, 42, "Mic: x"),
        "Chose Balanced (calibrated)\nFans would be audible in this environment.\nDelta: +4.2 dB (A-weighted)\nMic: x"
    );
    assert_eq!(
        noise_body(0, true, -5, ""),
        "Chose Performance (cached)\nEnvironment noise masks fan sound.\nDelta: -0.5 dB\n"
    );
}

fn key_state(method: u8) -> FnKeyState {
    FnKeyState {
        keys: FnKeySettings { screen: true, sleep: false, method },
        last: 0,
        suppress_until: 0,
        screen_on: true,
        saved_brightness: 0,
        black_window: false,
    }
}

#[test]
fn presses_are_debounced() {
    let mut s = key_state(METHOD_DPMS);
    assert_eq!(handle_fn_key(&mut s, 1000), FnKeyAction::ScreenOff);
    assert_eq!(handle_fn_key(&mut s, 2999), FnKeyAction::Debounced);
    assert_eq!(handle_fn_key(&mut s, 3000), FnKeyAction::ScreenOn);
    resumed(&mut s, 10_000);
    assert_eq!(handle_fn_key(&mut s, 12_999), FnKeyAction::Suppressed);
    s.keys.screen = false;
    s.keys.sleep = true;
    assert_eq!(handle_fn_key(&mut s, 13_000), FnKeyAction::Sleep);
}

#[test]
fn the_screen_comes_back_as_it_was() {
    let mut s = key_state(METHOD_BRIGHTNESS);
    assert_eq!(
        screen_off(&mut s, Some([0, 70])),
        vec![ScreenStep::SetBrightness(0), ScreenStep::ShowBlackWindow]
    );
    assert_eq!(
        screen_on(&mut s),
        vec![
            ScreenStep::SetBrightness(70),
            ScreenStep::DestroyBlackWindow,
            ScreenStep::PowerOn,
        ]
    );
    assert_eq!(s, key_state(METHOD_BRIGHTNESS));
    let mut d = key_state(METHOD_DPMS);
    assert_eq!(screen_off(&mut d, None), vec![ScreenStep::PowerOff]);
    let mut b = key_state(METHOD_BLACK);
    assert_eq!(screen_off(&mut b, None), vec![ScreenStep::ShowBlackWindow]);
    b.screen_on = false;
    assert!(black_window_dismissed(&mut b));
    assert!(b.screen_on);
    assert!(!black_window_dismissed(&mut b));
}

#[test]
fn no_request_to_switch_off_is_lost() {
    let mut m = MonitorOff { dirty: false, active: false };
    assert!(request_monitor_off(&mut m));
    assert!(take_request(&mut m));
    assert!(!request_monitor_off(&mut m), "the worker is at it");
    release_worker(&mut m);
    assert!(reclaim_worker(&mut m), "a request came in between");
    assert!(take_request(&mut m));
    release_worker(&mut m);
    assert!(!reclaim_worker(&mut m));
}

#[test]
fn settings_are_read_back() {
    let k = FnKeySettings { screen: false, sleep: true, method: METHOD_BRIGHTNESS };
    assert_eq!(save_fnkey_settings(k), [2, 1]);
    assert_eq!(load_fnkey_settings(&save_fnkey_settings(k), FnKeySettings::initial()), k);
    let one = load_fnkey_settings(&[3], FnKeySettings::initial());
    assert_eq!(one, FnKeySettings { screen: true, sleep: true, method: METHOD_DPMS });
    let bad = load_fnkey_settings(&[1, 9], k);
    assert_eq!(bad, FnKeySettings { screen: true, sleep: false, method: METHOD_BRIGHTNESS });
    assert_eq!(settings_line(k).text, "fnkey: loaded screen=false sleep=true method=1");
    assert_eq!(fnkey_config_path("C:\\d"), "C:\\d\\fnkey");
}

#[test]
fn another_build_ends_the_tray() {
    assert!(exit_if_service_newer([1, 2], Some([1, 2])).is_none());
    assert!(exit_if_service_newer([1, 2], None).is_none());
    let line = exit_if_service_newer([1, 0xAB], Some([3, 4])).unwrap();
    assert_eq!(
        line.text,
        "tray: service is a newer build (tray=01AB svc=0304), exiting for relaunch"
    );
}

/// A service that keeps what it is asked, and gives the same answer to all of it.
fn asked(action: MenuAction, answer: Option<[u8; 2]>) -> (Option<Told>, Vec<(u8, u8)>) {
    let seen = RefCell::new(Vec::new());
    let transact = |command: u8, payload: u8| {
        seen.borrow_mut().push((command, payload));
        answer
    };
    let told = send(action, &mut Line::new(&transact));
    let seen = seen.borrow().clone();
    (told, seen)
}

#[test]
fn actions_have_their_requests() {
    assert_eq!(requests(MenuAction::SetMode(2)), vec![(CMD_SET_COOLSENSE, 0), (CMD_SET_THERMAL, 2)]);
    assert_eq!(requests(MenuAction::StartNoiseAdapt), vec![(CMD_SET_COOLSENSE, 0)]);
    assert_eq!(requests(MenuAction::StartDebugCalibration), vec![(CMD_SET_COOLSENSE, 0)]);
    assert_eq!(requests(MenuAction::SetStackMonitor(true)), vec![(CMD_SET_STACK_MONITOR, 1)]);
    assert_eq!(requests(MenuAction::SetStackMonitor(false)), vec![(CMD_SET_STACK_MONITOR, 0)]);
    for none in [
        MenuAction::ToggleSmartSense,
        MenuAction::ShowFingerprint,
        MenuAction::StartCalibration,
        MenuAction::ClearCalibration,
        MenuAction::RestartService,
        MenuAction::SaveSettings,
        MenuAction::Exit,
        MenuAction::Nothing,
    ] {
        assert_eq!(requests(none), vec![]);
    }
}

#[test]
fn a_mode_is_set_with_smart_sense_off() {
    let (told, seen) = asked(MenuAction::SetMode(3), None);
    assert_eq!(seen, vec![(CMD_SET_COOLSENSE, 0), (CMD_SET_THERMAL, 3)]);
    assert_eq!(told, Some(Told { thermal: Some(3), coolsense: Some(0) }));
    let (told, seen) = asked(MenuAction::SetStackMonitor(true), Some([0, 0]));
    assert_eq!(seen, vec![(CMD_SET_STACK_MONITOR, 1)]);
    assert_eq!(told, None);
    assert_eq!(asked(MenuAction::Exit, None), (None, vec![]));
}

#[test]
fn smart_sense_is_read_before_it_is_switched_over() {
    let (told, seen) = asked(MenuAction::ToggleSmartSense, Some([0, 1]));
    assert_eq!(seen, vec![(CMD_READ_COOLSENSE, 0), (CMD_SET_COOLSENSE, 0)]);
    assert_eq!(told, Some(Told { thermal: None, coolsense: Some(0) }));
    let (told, seen) = asked(MenuAction::ToggleSmartSense, None);
    assert_eq!(seen, vec![(CMD_READ_COOLSENSE, 0), (CMD_SET_COOLSENSE, 1)]);
    assert_eq!(told, Some(Told { thermal: None, coolsense: Some(1) }));
}

#[test]
fn a_measurement_starts_from_the_mode_with_smart_sense_off() {
    for debug in [false, true] {
        let seen = RefCell::new(Vec::new());
        let transact = |command: u8, payload: u8| {
            seen.borrow_mut().push((command, payload));
            if command == CMD_READ_THERMAL { Some([0, 2]) } else { None }
        };
        assert_eq!(start_measurement(debug, &mut Line::new(&transact)), 2);
        assert_eq!(*seen.borrow(), vec![(CMD_SET_COOLSENSE, 0), (CMD_READ_THERMAL, 0)]);
    }
    assert_eq!(start_measurement(false, &mut Line::new(&|_: u8, _: u8| None)), 1);
}

#[test]
fn the_service_accepts_what_the_menu_sends() {
    for id in [ID_SMART_SENSE, ID_COOL, ID_STACK_MONITOR, ID_NOISE_ADAPTED, ID_CALIBRATE, ID_EXIT] {
        let mut s = TrayState {
            noise_feature: true,
            measuring: false,
            calibrating: false,
            stack_monitor: false,
            keys: FnKeySettings { screen: true, sleep: false, method: METHOD_DPMS },
        };
        let (_, seen) = asked(handle_menu(&mut s, id), Some([0, 1]));
        for (command, payload) in seen {
            assert!(Request::try_from([command, payload]).is_ok());
        }
    }
}
