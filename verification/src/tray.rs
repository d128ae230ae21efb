//! The tray: what its window is told, what its menu does, and the Fn+F12 key.

use vstd::prelude::*;
use vstd::string::*;

use crate::app::{FNKEY_CONFIG, NAME};
use crate::calls::{carried, goes_on, since, Exchange};
use crate::log::{Level, Line};
use crate::menu::{
    FnKeySettings, ID_BALANCED, ID_CALIBRATE, ID_CLEAR_CAL, ID_COOL, ID_DEBUG_CAL, ID_EXIT,
    ID_FNKEY_SCREEN, ID_FNKEY_SLEEP, ID_METHOD_BLACK, ID_METHOD_BRIGHTNESS, ID_METHOD_DPMS,
    ID_NOISE_ADAPTED, ID_PERFORMANCE, ID_POWER_SAVER, ID_RESTART_SVC, ID_SHOW_FINGERPRINT,
    ID_SMART_SENSE, ID_STACK_MONITOR, METHOD_BLACK, METHOD_BRIGHTNESS, METHOD_DPMS,
};
use crate::mode::ThermalMode;
use crate::protocol::{
    status_ok, unpack_state, Request, CMD_READ_COOLSENSE, CMD_READ_THERMAL, CMD_SET_COOLSENSE,
    CMD_SET_STACK_MONITOR, CMD_SET_THERMAL,
};
use crate::text::{chars_of, push_decimal, push_hex_upper};
use crate::wide::wide_null;

verus! {

/// Messages of the tray's window.
pub const WM_USER: u32 = 0x0400;
pub const WM_TRAYICON: u32 = 0x0401;
pub const WM_NOISE_ADAPT_DONE: u32 = 0x0402;
pub const WM_CALIBRATE_DONE: u32 = 0x0403;
pub const WM_SCREEN_ON: u32 = 0x0404;
pub const WM_DESTROY: u32 = 0x0002;
pub const WM_CONTEXTMENU: u32 = 0x007B;
pub const WM_COMMAND: u32 = 0x0111;
pub const WM_TIMER: u32 = 0x0113;
pub const WM_KEYDOWN: u32 = 0x0100;
pub const WM_MOUSEMOVE: u32 = 0x0200;
pub const WM_LBUTTONDOWN: u32 = 0x0201;
pub const WM_RBUTTONDOWN: u32 = 0x0204;
pub const WM_MBUTTONDOWN: u32 = 0x0207;
/// Events of the icon: chosen, chosen by key, hovered over.
pub const NIN_SELECT: u32 = 0x0400;
pub const NIN_KEYSELECT: u32 = 0x0401;
pub const NIN_POPUPOPEN: u32 = 0x0406;

/// The timer that unloads the library of the graphics card, and its period.
pub const NVML_TIMER_ID: u64 = 1;
pub const NVML_SWEEP_MS: u32 = 10_000;

/// What a message to the window asks for.
#[derive(Clone, Copy, PartialEq, Eq, Structural, Debug)]
pub enum WindowEvent {
    /// Open the menu at this point.
    OpenMenu { x: i32, y: i32 },
    /// The user is near the icon: refresh what the menu will show.
    Warm,
    /// An entry of the menu was chosen.
    Command(u32),
    /// Look whether the library of the graphics card can be unloaded.
    IdleSweep,
    /// The window goes away.
    Quit,
    /// A measurement ended; the difference is in tenths of a decibel.
    NoiseDone { chosen: u8, fast: bool, delta_tenths: i64 },
    /// A calibration ended; the powers are the bits of two numbers.
    CalibrateDone { ok: bool, perf_bits: u32, bal_bits: u32 },
    /// A key or a click on the black window.
    ScreenOn,
    /// Nothing to do.
    Ignore,
    /// Not for the tray.
    Default,
}

/// A number of sixteen bits with a sign.
pub open spec fn signed16(v: int) -> int {
    if v < 0x8000 {
        v
    } else {
        v - 0x10000
    }
}

/// A number of 64 bits with a sign.
pub open spec fn signed64(v: int) -> int {
    if v < 0x8000_0000_0000_0000 {
        v
    } else {
        v - 0x1_0000_0000_0000_0000
    }
}

/// What an event of the icon asks for. The low half of `lparam` is the event, and
/// `wparam` holds the point, each coordinate with its sign.
pub open spec fn icon_event(wparam: u64, lparam: u64) -> WindowEvent {
    let event = lparam % 0x10000;
    if event == WM_CONTEXTMENU {
        WindowEvent::OpenMenu {
            x: signed16(wparam as int % 0x10000) as i32,
            y: signed16(wparam as int / 0x10000 % 0x10000) as i32,
        }
    } else if event == WM_MOUSEMOVE || event == NIN_POPUPOPEN || event == NIN_SELECT || event
        == NIN_KEYSELECT {
        WindowEvent::Warm
    } else {
        WindowEvent::Ignore
    }
}

/// What a message to the window asks for.
pub open spec fn window_event(msg: u32, wparam: u64, lparam: u64) -> WindowEvent {
    if msg == WM_TRAYICON {
        icon_event(wparam, lparam)
    } else if msg == WM_COMMAND {
        WindowEvent::Command((wparam % 0x10000) as u32)
    } else if msg == WM_TIMER {
        if wparam == NVML_TIMER_ID {
            WindowEvent::IdleSweep
        } else {
            WindowEvent::Ignore
        }
    } else if msg == WM_DESTROY {
        WindowEvent::Quit
    } else if msg == WM_NOISE_ADAPT_DONE {
        WindowEvent::NoiseDone {
            chosen: (wparam % 0x100) as u8,
            fast: wparam / 0x100 % 2 == 1,
            delta_tenths: signed64(lparam as int) as i64,
        }
    } else if msg == WM_CALIBRATE_DONE {
        WindowEvent::CalibrateDone {
            ok: wparam != 0,
            perf_bits: (lparam % 0x1_0000_0000) as u32,
            bal_bits: (lparam / 0x1_0000_0000) as u32,
        }
    } else if msg == WM_SCREEN_ON {
        WindowEvent::ScreenOn
    } else {
        WindowEvent::Default
    }
}

fn with_sign(v: u64) -> (r: i32)
    requires
        v < 0x10000,
    ensures
        r == signed16(v as int),
{
    if v < 0x8000 {
        v as i32
    } else {
        v as i32 - 0x10000
    }
}

fn with_sign64(v: u64) -> (r: i64)
    ensures
        r == signed64(v as int),
{
    if v < 0x8000_0000_0000_0000 {
        v as i64
    } else {
        -((u64::MAX - v) as i64) - 1
    }
}

/// What a message to the window asks for.
pub fn wnd_proc(msg: u32, wparam: u64, lparam: u64) -> (e: WindowEvent)
    ensures
        e == window_event(msg, wparam, lparam),
{
    match msg {
        WM_TRAYICON => {
            let event: u32 = (lparam % 0x10000) as u32;
            match event {
                WM_CONTEXTMENU => WindowEvent::OpenMenu {
                    x: with_sign(wparam % 0x10000),
                    y: with_sign(wparam / 0x10000 % 0x10000),
                },
                WM_MOUSEMOVE | NIN_POPUPOPEN | NIN_SELECT | NIN_KEYSELECT => WindowEvent::Warm,
                _ => WindowEvent::Ignore,
            }
        },
        WM_COMMAND => WindowEvent::Command((wparam % 0x10000) as u32),
        WM_TIMER => if wparam == NVML_TIMER_ID {
            WindowEvent::IdleSweep
        } else {
            WindowEvent::Ignore
        },
        WM_DESTROY => WindowEvent::Quit,
        WM_NOISE_ADAPT_DONE => WindowEvent::NoiseDone {
            chosen: (wparam % 0x100) as u8,
            fast: wparam / 0x100 % 2 == 1,
            delta_tenths: with_sign64(lparam),
        },
        WM_CALIBRATE_DONE => WindowEvent::CalibrateDone {
            ok: wparam != 0,
            perf_bits: (lparam % 0x1_0000_0000) as u32,
            bal_bits: (lparam / 0x1_0000_0000) as u32,
        },
        WM_SCREEN_ON => WindowEvent::ScreenOn,
        _ => WindowEvent::Default,
    }
}

/// The first parameter of the message that says how a measurement ended.
pub open spec fn noise_wparam_of(chosen: u8, fast: bool) -> u64 {
    (chosen + if fast {
        0x100int
    } else {
        0
    }) as u64
}

/// The first parameter of the message that says how a measurement ended.
pub fn noise_wparam(chosen: u8, fast: bool) -> (w: u64)
    ensures
        w == noise_wparam_of(chosen, fast),
{
    let flag: u64 = if fast {
        0x100
    } else {
        0
    };
    chosen as u64 + flag
}

/// The second parameter of the message that says how a measurement ended: the
/// difference in tenths of a decibel, with its sign.
pub open spec fn noise_lparam_of(delta_tenths: i32) -> u64 {
    (if delta_tenths < 0 {
        delta_tenths + 0x1_0000_0000_0000_0000
    } else {
        delta_tenths as int
    }) as u64
}

/// The second parameter of the message that says how a measurement ended.
pub fn noise_lparam(delta_tenths: i32) -> (l: u64)
    ensures
        l == noise_lparam_of(delta_tenths),
{
    if delta_tenths < 0 {
        let below: i64 = -1 - delta_tenths as i64;
        u64::MAX - below as u64
    } else {
        delta_tenths as u64
    }
}

/// The second parameter of the message that says how a calibration ended: two
/// numbers of 32 bits, the first one low.
pub open spec fn calibrate_lparam_of(perf_bits: u32, bal_bits: u32) -> u64 {
    (perf_bits + bal_bits * 0x1_0000_0000) as u64
}

/// The second parameter of the message that says how a calibration ended.
pub fn calibrate_lparam(perf_bits: u32, bal_bits: u32) -> (l: u64)
    ensures
        l == calibrate_lparam_of(perf_bits, bal_bits),
{
    perf_bits as u64 + bal_bits as u64 * 0x1_0000_0000
}

/// What is posted when a measurement or a calibration ends is what the window
/// reads.
pub proof fn posted_results_arrive(
    chosen: u8,
    fast: bool,
    tenths: i32,
    perf_bits: u32,
    bal_bits: u32,
    l: u64,
)
    ensures
        window_event(WM_NOISE_ADAPT_DONE, noise_wparam_of(chosen, fast), noise_lparam_of(tenths))
            == (WindowEvent::NoiseDone { chosen, fast, delta_tenths: tenths as i64 }),
        window_event(WM_CALIBRATE_DONE, 1, calibrate_lparam_of(perf_bits, bal_bits))
            == (WindowEvent::CalibrateDone { ok: true, perf_bits, bal_bits }),
        window_event(WM_CALIBRATE_DONE, 0, l) matches WindowEvent::CalibrateDone { ok, .. } && !ok,
{
}

/// Whether a message is of a key or a button that goes down.
pub open spec fn is_press(msg: u32) -> bool {
    msg == WM_KEYDOWN || msg == WM_LBUTTONDOWN || msg == WM_MBUTTONDOWN || msg == WM_RBUTTONDOWN
}

/// Whether a message to the black window dismisses it: any key or click does.
pub fn dismisses_black_window(msg: u32) -> (r: bool)
    ensures
        r == is_press(msg),
{
    msg == WM_KEYDOWN || msg == WM_LBUTTONDOWN || msg == WM_MBUTTONDOWN || msg == WM_RBUTTONDOWN
}

/// Whether no other tray runs.
pub open spec fn is_alone(taken: bool, handle_ok: bool, waited: u32) -> bool {
    !taken || (handle_ok && (waited == 0 || waited == 0x80))
}

/// Whether this is the only tray: nobody holds the lock, or whoever held it gave it
/// up (or was abandoned) within the wait.
pub fn is_only_instance(taken: bool, handle_ok: bool, waited: u32) -> (r: bool)
    ensures
        r == is_alone(taken, handle_ok, waited),
{
    !taken || (handle_ok && (waited == 0 || waited == 0x80))
}

/// What the tray waits for.
#[derive(Clone, Copy, PartialEq, Eq, Structural, Debug)]
pub enum WaitEvent {
    /// Fn+F12 was pressed.
    FnKey,
    /// The service started.
    ServiceStarted,
    /// The window has messages.
    Messages,
    /// The wait failed: the tray ends.
    Failed,
}

/// What a wait came to, given which of the two events could be opened. The events
/// come first, in their order, and the messages after them.
pub open spec fn wait_outcome(fn_key: bool, svc_start: bool, signaled: u32) -> WaitEvent {
    let count = (if fn_key {
        1int
    } else {
        0
    }) + (if svc_start {
        1int
    } else {
        0
    });
    if signaled < count {
        if fn_key && signaled == 0 {
            WaitEvent::FnKey
        } else {
            WaitEvent::ServiceStarted
        }
    } else if signaled == count {
        WaitEvent::Messages
    } else {
        WaitEvent::Failed
    }
}

/// What a wait came to.
pub fn run_inner(fn_key: bool, svc_start: bool, signaled: u32) -> (e: WaitEvent)
    ensures
        e == wait_outcome(fn_key, svc_start, signaled),
{
    let first: u32 = if fn_key {
        1
    } else {
        0
    };
    let second: u32 = if svc_start {
        1
    } else {
        0
    };
    let count: u32 = first + second;
    if signaled < count {
        if fn_key && signaled == 0 {
            WaitEvent::FnKey
        } else {
            WaitEvent::ServiceStarted
        }
    } else if signaled == count {
        WaitEvent::Messages
    } else {
        WaitEvent::Failed
    }
}

/// How long the values for the menu stay fresh, in milliseconds.
pub const CACHE_FRESH_MS: u64 = 5_000;
/// A value that is not known.
pub const UNKNOWN: u8 = 0xFF;

/// The values for the menu, read ahead so that the menu opens at once.
#[derive(Clone, Copy, PartialEq, Eq, Structural, Debug)]
pub struct MenuCache {
    pub thermal: u8,
    pub coolsense: u8,
    /// When they were last read, or tried to be; zero for never.
    pub stamp: u64,
    /// They are being read.
    pub in_flight: bool,
}

impl MenuCache {
    /// Nothing is known yet.
    pub fn new() -> (c: MenuCache)
        ensures
            c == (MenuCache { thermal: UNKNOWN, coolsense: UNKNOWN, stamp: 0, in_flight: false }),
    {
        MenuCache { thermal: UNKNOWN, coolsense: UNKNOWN, stamp: 0, in_flight: false }
    }
}

/// Whether the values are to be read: they are not being read, and were never read
/// or not within the time they stay fresh.
pub open spec fn is_stale(c: MenuCache, now: u64) -> bool {
    !c.in_flight && (c.stamp == 0 || (now - c.stamp) % 0x1_0000_0000_0000_0000 >= CACHE_FRESH_MS)
}

/// Claims the next read of the values, where one is due. Asking again while they
/// are fresh or being read does nothing.
pub fn maybe_warm(c: &mut MenuCache, now: u64) -> (read: bool)
    ensures
        read == is_stale(*old(c), now),
        *final(c) == (MenuCache { in_flight: old(c).in_flight || read, ..*old(c) }),
{
    if c.in_flight {
        return false;
    }
    let age: u64 = now.wrapping_sub(c.stamp);
    proof {
        if now >= c.stamp {
            assert((now - c.stamp) % 0x1_0000_0000_0000_0000 == now - c.stamp);
        } else {
            assert((now - c.stamp) % 0x1_0000_0000_0000_0000 == now - c.stamp
                + 0x1_0000_0000_0000_0000);
        }
    }
    if c.stamp != 0 && age < CACHE_FRESH_MS {
        return false;
    }
    c.in_flight = true;
    true
}

/// The two values of a response to a combined read; both unknown where it failed.
pub open spec fn state_values(resp: Option<[u8; 2]>) -> (u8, u8) {
    if resp is Some && crate::protocol::ok_status(resp->0[0]) {
        (resp->0[1] % 16, resp->0[1] / 16)
    } else {
        (UNKNOWN, UNKNOWN)
    }
}

/// The cache after a read brought this.
pub open spec fn refreshed(resp: Option<[u8; 2]>, now: u64) -> MenuCache {
    MenuCache {
        thermal: state_values(resp).0,
        coolsense: state_values(resp).1,
        stamp: now,
        in_flight: false,
    }
}

/// Takes in what a read brought. A read that failed counts too, so that a service
/// that is down is not asked again at once.
pub fn warmed(c: &mut MenuCache, resp: Option<[u8; 2]>, now: u64)
    ensures
        *final(c) == refreshed(resp, now),
{
    let values: (u8, u8) = match resp {
        Some(r) => if status_ok(r[0]) {
            unpack_state(r[1])
        } else {
            (UNKNOWN, UNKNOWN)
        },
        None => (UNKNOWN, UNKNOWN),
    };
    c.thermal = values.0;
    c.coolsense = values.1;
    c.stamp = now;
    c.in_flight = false;
}

/// The cache after this was set.
pub open spec fn stored(
    c: MenuCache,
    thermal: Option<u8>,
    coolsense: Option<u8>,
    now: u64,
) -> MenuCache {
    MenuCache {
        thermal: match thermal {
            Some(t) => t,
            None => c.thermal,
        },
        coolsense: match coolsense {
            Some(s) => s,
            None => c.coolsense,
        },
        stamp: now,
        in_flight: c.in_flight,
    }
}

/// Takes in what was set, so that the menu shows it without asking. What was not
/// set stays.
pub fn cache_store(c: &mut MenuCache, thermal: Option<u8>, coolsense: Option<u8>, now: u64)
    ensures
        *final(c) == stored(*old(c), thermal, coolsense, now),
{
    if let Some(t) = thermal {
        c.thermal = t;
    }
    if let Some(s) = coolsense {
        c.coolsense = s;
    }
    c.stamp = now;
}

/// The values are read at most once within the time they stay fresh, whatever the
/// read brought. A clock that shows zero is left out: zero stands for never.
pub proof fn reads_are_throttled(resp: Option<[u8; 2]>, read_at: u64, now: u64)
    requires
        0 < read_at <= now < read_at + CACHE_FRESH_MS,
    ensures
        !is_stale(
            MenuCache {
                thermal: state_values(resp).0,
                coolsense: state_values(resp).1,
                stamp: read_at,
                in_flight: false,
            },
            now,
        ),
{
    assert((now - read_at) % 0x1_0000_0000_0000_0000 == now - read_at);
}

/// What the tray is doing and set to.
#[derive(Clone, Copy, PartialEq, Eq, Structural, Debug)]
pub struct TrayState {
    /// The noise adaptation is part of this build.
    pub noise_feature: bool,
    pub measuring: bool,
    pub calibrating: bool,
    pub stack_monitor: bool,
    pub keys: FnKeySettings,
}

/// What an entry of the menu does.
#[derive(Clone, Copy, PartialEq, Eq, Structural, Debug)]
pub enum MenuAction {
    /// Switch Smart Sense over.
    ToggleSmartSense,
    ShowFingerprint,
    StartNoiseAdapt,
    StartCalibration,
    StartDebugCalibration,
    ClearCalibration,
    /// Set this mode, and Smart Sense off.
    SetMode(u8),
    RestartService,
    /// Tell the service whether to monitor its stack.
    SetStackMonitor(bool),
    /// Store what Fn+F12 does.
    SaveSettings,
    Exit,
    Nothing,
}

/// What an entry does, and the state after it.
pub open spec fn menu_outcome(s: TrayState, id: u32) -> (TrayState, MenuAction) {
    let idle = s.noise_feature && !s.measuring && !s.calibrating;
    if id == ID_SMART_SENSE {
        (s, MenuAction::ToggleSmartSense)
    } else if id == ID_SHOW_FINGERPRINT {
        (s, MenuAction::ShowFingerprint)
    } else if id == ID_NOISE_ADAPTED && idle {
        (TrayState { measuring: true, ..s }, MenuAction::StartNoiseAdapt)
    } else if id == ID_CALIBRATE && idle {
        (TrayState { calibrating: true, ..s }, MenuAction::StartCalibration)
    } else if id == ID_DEBUG_CAL && idle {
        (TrayState { measuring: true, ..s }, MenuAction::StartDebugCalibration)
    } else if id == ID_CLEAR_CAL && s.noise_feature {
        (s, MenuAction::ClearCalibration)
    } else if ID_PERFORMANCE <= id <= ID_POWER_SAVER {
        (s, MenuAction::SetMode((id - ID_PERFORMANCE) as u8))
    } else if id == ID_RESTART_SVC {
        (s, MenuAction::RestartService)
    } else if id == ID_STACK_MONITOR {
        (
            TrayState { stack_monitor: !s.stack_monitor, ..s },
            MenuAction::SetStackMonitor(!s.stack_monitor),
        )
    } else if id == ID_FNKEY_SCREEN {
        (
            TrayState { keys: FnKeySettings { screen: !s.keys.screen, ..s.keys }, ..s },
            MenuAction::SaveSettings,
        )
    } else if id == ID_FNKEY_SLEEP {
        (
            TrayState { keys: FnKeySettings { sleep: !s.keys.sleep, ..s.keys }, ..s },
            MenuAction::SaveSettings,
        )
    } else if id == ID_METHOD_BRIGHTNESS || id == ID_METHOD_DPMS || id == ID_METHOD_BLACK {
        (
            TrayState {
                keys: FnKeySettings {
                    method: if id == ID_METHOD_BRIGHTNESS {
                        METHOD_BRIGHTNESS
                    } else if id == ID_METHOD_DPMS {
                        METHOD_DPMS
                    } else {
                        METHOD_BLACK
                    },
                    ..s.keys
                },
                ..s
            },
            MenuAction::SaveSettings,
        )
    } else if id == ID_EXIT {
        (s, MenuAction::Exit)
    } else {
        (s, MenuAction::Nothing)
    }
}

/// What an entry of the menu does. A measurement or a calibration starts only while
/// none runs.
pub fn handle_menu(s: &mut TrayState, id: u32) -> (a: MenuAction)
    ensures
        (*final(s), a) == menu_outcome(*old(s), id),
{
    match id {
        ID_SMART_SENSE => MenuAction::ToggleSmartSense,
        ID_SHOW_FINGERPRINT => MenuAction::ShowFingerprint,
        ID_NOISE_ADAPTED => {
            if !s.noise_feature || s.measuring || s.calibrating {
                return MenuAction::Nothing;
            }
            s.measuring = true;
            MenuAction::StartNoiseAdapt
        },
        ID_CALIBRATE => {
            if !s.noise_feature || s.calibrating || s.measuring {
                return MenuAction::Nothing;
            }
            s.calibrating = true;
            MenuAction::StartCalibration
        },
        ID_PERFORMANCE => MenuAction::SetMode(0),
        ID_BALANCED => MenuAction::SetMode(1),
        ID_COOL => MenuAction::SetMode(2),
        ID_POWER_SAVER => MenuAction::SetMode(3),
        ID_RESTART_SVC => MenuAction::RestartService,
        ID_STACK_MONITOR => {
            s.stack_monitor = !s.stack_monitor;
            MenuAction::SetStackMonitor(s.stack_monitor)
        },
        ID_FNKEY_SCREEN => {
            s.keys.screen = !s.keys.screen;
            MenuAction::SaveSettings
        },
        ID_FNKEY_SLEEP => {
            s.keys.sleep = !s.keys.sleep;
            MenuAction::SaveSettings
        },
        ID_METHOD_BRIGHTNESS => {
            s.keys.method = METHOD_BRIGHTNESS;
            MenuAction::SaveSettings
        },
        ID_METHOD_DPMS => {
            s.keys.method = METHOD_DPMS;
            MenuAction::SaveSettings
        },
        ID_METHOD_BLACK => {
            s.keys.method = METHOD_BLACK;
            MenuAction::SaveSettings
        },
        ID_CLEAR_CAL => {
            if s.noise_feature {
                MenuAction::ClearCalibration
            } else {
                MenuAction::Nothing
            }
        },
        ID_DEBUG_CAL => {
            if !s.noise_feature || s.measuring || s.calibrating {
                return MenuAction::Nothing;
            }
            s.measuring = true;
            MenuAction::StartDebugCalibration
        },
        ID_EXIT => MenuAction::Exit,
        _ => MenuAction::Nothing,
    }
}

/// The state once a measurement ended.
pub open spec fn measured(s: TrayState) -> TrayState {
    TrayState { measuring: false, ..s }
}

/// The state once a calibration ended.
pub open spec fn calibrated(s: TrayState) -> TrayState {
    TrayState { calibrating: false, ..s }
}

/// A measurement ended.
pub fn noise_adapt_done(s: &mut TrayState)
    ensures
        *final(s) == measured(*old(s)),
{
    s.measuring = false;
}

/// A calibration ended.
pub fn calibrate_done(s: &mut TrayState)
    ensures
        *final(s) == calibrated(*old(s)),
{
    s.calibrating = false;
}

/// Never more than one measurement or calibration runs.
pub proof fn at_most_one_measurement(s: TrayState, id: u32)
    requires
        !(s.measuring && s.calibrating),
    ensures
        !(menu_outcome(s, id).0.measuring && menu_outcome(s, id).0.calibrating),
        s.measuring || s.calibrating ==> menu_outcome(s, id).0.measuring == s.measuring
            && menu_outcome(s, id).0.calibrating == s.calibrating,
{
}

/// Whether the tooltip is out of date after an action.
pub open spec fn outdates_tooltip(a: MenuAction) -> bool {
    a is ToggleSmartSense || a is ShowFingerprint || a is SetMode
}

/// Whether the tooltip is read anew after an action.
pub fn refreshes_tooltip(a: MenuAction) -> (r: bool)
    ensures
        r == outdates_tooltip(a),
{
    matches!(a, MenuAction::ToggleSmartSense | MenuAction::ShowFingerprint | MenuAction::SetMode(_))
}

/// The requests behind an action that the responses have no say in, in their order:
/// command and payload. Smart Sense goes off before a mode is set or measured from.
pub open spec fn requests_of(a: MenuAction) -> Seq<(u8, u8)> {
    match a {
        MenuAction::SetMode(m) => seq![(CMD_SET_COOLSENSE, 0u8), (CMD_SET_THERMAL, m)],
        MenuAction::StartNoiseAdapt => seq![(CMD_SET_COOLSENSE, 0u8)],
        MenuAction::StartDebugCalibration => seq![(CMD_SET_COOLSENSE, 0u8)],
        MenuAction::SetStackMonitor(on) => seq![
            (
                CMD_SET_STACK_MONITOR,
                if on {
                    1u8
                } else {
                    0u8
                },
            ),
        ],
        _ => Seq::empty(),
    }
}

/// The requests behind an action, but for those that depend on a response.
pub fn requests(a: MenuAction) -> (r: Vec<(u8, u8)>)
    ensures
        r@ == requests_of(a),
{
    let mut r: Vec<(u8, u8)> = Vec::new();
    match a {
        MenuAction::SetMode(m) => {
            r.push((CMD_SET_COOLSENSE, 0));
            r.push((CMD_SET_THERMAL, m));
        },
        MenuAction::StartNoiseAdapt => r.push((CMD_SET_COOLSENSE, 0)),
        MenuAction::StartDebugCalibration => r.push((CMD_SET_COOLSENSE, 0)),
        MenuAction::SetStackMonitor(on) => {
            let value: u8 = if on {
                1
            } else {
                0
            };
            r.push((CMD_SET_STACK_MONITOR, value));
        },
        _ => {},
    }
    assert(r@ =~= requests_of(a));
    r
}

/// What Smart Sense is switched to after this response.
pub open spec fn switched(resp: Option<[u8; 2]>) -> u8 {
    if resp is Some && crate::protocol::ok_status(resp->0[0]) && resp->0[1] != 0 {
        0u8
    } else {
        1u8
    }
}

/// What Smart Sense is switched to, given the response that says what it is: off
/// where it is known to be on, else on.
pub fn smart_sense_target(resp: Option<[u8; 2]>) -> (v: u8)
    ensures
        v == switched(resp),
{
    match resp {
        Some(r) => if status_ok(r[0]) && r[1] != 0 {
            0
        } else {
            1
        },
        None => 1,
    }
}

/// The requests of a course are these, in this order.
pub open spec fn went_out(course: Seq<Exchange>, requests: Seq<(u8, u8)>) -> bool {
    &&& course.len() == requests.len()
    &&& forall|i: int|
        0 <= i < course.len() ==> (#[trigger] course[i]).asks(requests[i].0, requests[i].1)
}

/// What goes over the line for an action. To switch Smart Sense over, it is read and
/// then set.
pub open spec fn menu_course(a: MenuAction, course: Seq<Exchange>) -> bool {
    if a is ToggleSmartSense {
        &&& course.len() == 2
        &&& course[0].asks(CMD_READ_COOLSENSE, 0)
        &&& course[1].asks(CMD_SET_COOLSENSE, switched(course[0].answer))
    } else {
        went_out(course, requests_of(a))
    }
}

/// What the menu is told without asking the service: what was set, if it was.
#[derive(Clone, Copy, PartialEq, Eq, Structural, Debug)]
pub struct Told {
    pub thermal: Option<u8>,
    pub coolsense: Option<u8>,
}

/// What an action tells the menu, once its requests are out.
pub open spec fn told_by(a: MenuAction, course: Seq<Exchange>) -> Option<Told> {
    match a {
        MenuAction::ToggleSmartSense => Some(
            Told { thermal: None, coolsense: Some(switched(course[0].answer)) },
        ),
        MenuAction::SetMode(m) => Some(Told { thermal: Some(m), coolsense: Some(0u8) }),
        _ => None,
    }
}

/// The requests that an action may make can be carried.
pub open spec fn can_send<F: Fn(u8, u8) -> Option<[u8; 2]>>(transact: F, a: MenuAction) -> bool {
    &&& a is ToggleSmartSense ==> transact.requires((CMD_READ_COOLSENSE, 0u8))
        && transact.requires((CMD_SET_COOLSENSE, 0u8)) && transact.requires(
        (CMD_SET_COOLSENSE, 1u8),
    )
    &&& forall|i: int|
        0 <= i < requests_of(a).len() ==> transact.requires(#[trigger] requests_of(a)[i])
}

/// Sends the requests behind an action, whatever the responses. Gives back what the
/// menu is told, where it is told anything.
pub fn send<F: Fn(u8, u8) -> Option<[u8; 2]>>(a: MenuAction, line: &mut crate::calls::Line<F>) -> (
told: Option<Told>)
    requires
        can_send(old(line).transact(), a),
    ensures
        final(line).transact() == old(line).transact(),
        goes_on(old(line).log(), final(line).log()),
        carried(old(line).transact(), since(old(line).log(), final(line).log())),
        menu_course(a, since(old(line).log(), final(line).log())),
        told == told_by(a, since(old(line).log(), final(line).log())),
{
    let ghost start = line.log();
    if let MenuAction::ToggleSmartSense = a {
        let was = line.ask(CMD_READ_COOLSENSE, 0);
        let target: u8 = smart_sense_target(was);
        let answer = line.ask(CMD_SET_COOLSENSE, target);
        proof {
            let read = Exchange { command: CMD_READ_COOLSENSE, payload: 0, answer: was };
            let set = Exchange { command: CMD_SET_COOLSENSE, payload: target, answer };
            assert(since(start, line.log()) =~= seq![read, set]);
            assert(line.log() =~= start + since(start, line.log()));
        }
        return Some(Told { thermal: None, coolsense: Some(target) });
    }
    let out = requests(a);
    let mut i: usize = 0;
    assert(start =~= start + since(start, start));
    while i < out.len()
        invariant
            i <= out@.len(),
            out@ == requests_of(a),
            start == old(line).log(),
            line.transact() == old(line).transact(),
            can_send(line.transact(), a),
            goes_on(start, line.log()),
            carried(line.transact(), since(start, line.log())),
            went_out(since(start, line.log()), out@.take(i as int)),
        decreases out@.len() - i,
    {
        let ghost before = since(start, line.log());
        let (command, payload) = out[i];
        assert(requests_of(a)[i as int] == (command, payload));
        let answer = line.ask(command, payload);
        i = i + 1;
        proof {
            let asked = Exchange { command, payload, answer };
            assert(since(start, line.log()) =~= before.push(asked));
            assert(line.log() =~= start + since(start, line.log()));
        }
    }
    assert(out@.take(i as int) =~= out@);
    match a {
        MenuAction::SetMode(m) => Some(Told { thermal: Some(m), coolsense: Some(0) }),
        _ => None,
    }
}

/// The mode that a measurement starts from after this response.
pub open spec fn baseline_of(resp: Option<[u8; 2]>) -> u8 {
    match resp {
        Some(r) => r[1],
        None => 1u8,
    }
}

/// The mode that a measurement starts from: the one that the service reports,
/// whatever its status, and balanced where it does not answer.
pub fn baseline_mode(resp: Option<[u8; 2]>) -> (m: u8)
    ensures
        m == baseline_of(resp),
{
    match resp {
        Some(r) => r[1],
        None => 1,
    }
}

/// The action that starts a measurement.
pub open spec fn measurement(debug: bool) -> MenuAction {
    if debug {
        MenuAction::StartDebugCalibration
    } else {
        MenuAction::StartNoiseAdapt
    }
}

/// Sends what a measurement begins with, then asks for the mode to start from.
pub fn start_measurement<F: Fn(u8, u8) -> Option<[u8; 2]>>(
    debug: bool,
    line: &mut crate::calls::Line<F>,
) -> (m: u8)
    requires
        can_send(old(line).transact(), measurement(debug)),
        old(line).transact().requires((CMD_READ_THERMAL, 0u8)),
    ensures
        final(line).transact() == old(line).transact(),
        goes_on(old(line).log(), final(line).log()),
        carried(old(line).transact(), since(old(line).log(), final(line).log())),
        went_out(
            since(old(line).log(), final(line).log()),
            requests_of(measurement(debug)).push((CMD_READ_THERMAL, 0)),
        ),
        m == baseline_of(since(old(line).log(), final(line).log()).last().answer),
{
    let ghost start = line.log();
    let action = if debug {
        MenuAction::StartDebugCalibration
    } else {
        MenuAction::StartNoiseAdapt
    };
    let _told = send(action, line);
    let ghost first = since(start, line.log());
    let answer = line.ask(CMD_READ_THERMAL, 0);
    proof {
        let asked = Exchange { command: CMD_READ_THERMAL, payload: 0, answer };
        assert(since(start, line.log()) =~= first.push(asked));
        assert(line.log() =~= start + since(start, line.log()));
    }
    baseline_mode(answer)
}

/// The service turns away nothing that an entry of the menu sends.
pub proof fn menu_requests_are_accepted(s: TrayState, id: u32, course: Seq<Exchange>, i: int)
    requires
        menu_course(menu_outcome(s, id).1, course),
        0 <= i < course.len(),
    ensures
        crate::protocol::parsed(course[i].command, course[i].payload) == Ok::<_, u8>(
            Request { command: course[i].command, payload: course[i].payload },
        ),
{
    let a = menu_outcome(s, id).1;
    assert(course[i].asks(requests_of(a)[i].0, requests_of(a)[i].1) || a is ToggleSmartSense);
}

/// No mode is set and no measurement starts while Smart Sense may still be on: the
/// first request turns it off.
pub proof fn smart_sense_goes_off_first(a: MenuAction, course: Seq<Exchange>)
    requires
        a is SetMode || a is StartNoiseAdapt || a is StartDebugCalibration,
        menu_course(a, course),
    ensures
        course.len() > 0,
        course[0].asks(CMD_SET_COOLSENSE, 0),
{
    assert(course[0].asks(requests_of(a)[0].0, requests_of(a)[0].1));
}

/// The menu is told just what the requests set.
pub proof fn menu_is_told_what_was_set(a: MenuAction, course: Seq<Exchange>, told: Told)
    requires
        menu_course(a, course),
        told_by(a, course) == Some(told),
    ensures
        course.len() == 2,
        told.thermal is Some ==> course[0].asks(CMD_SET_COOLSENSE, told.coolsense->0)
            && course[1].asks(CMD_SET_THERMAL, told.thermal->0),
        told.thermal is None ==> course[1].asks(CMD_SET_COOLSENSE, told.coolsense->0),
        told.coolsense is Some,
{
    if !(a is ToggleSmartSense) {
        assert(course[0].asks(requests_of(a)[0].0, requests_of(a)[0].1));
        assert(course[1].asks(requests_of(a)[1].0, requests_of(a)[1].1));
    }
}

/// What the tooltip says, from the response to a combined read.
pub open spec fn tooltip_of(resp: Option<[u8; 2]>) -> Seq<char> {
    NAME@ + ": "@ + (if resp is Some && crate::protocol::ok_status(resp->0[0]) {
        if resp->0[1] / 16 == 1 {
            "Smart Sense"@
        } else {
            label_of(resp->0[1] as int % 16 % 4)
        }
    } else {
        "(unavailable)"@
    })
}

/// The label of the mode with a wire byte.
pub open spec fn label_of(wire: int) -> Seq<char> {
    if wire == 0 {
        "Performance"@
    } else if wire == 1 {
        "Balanced"@
    } else if wire == 2 {
        "Cool"@
    } else {
        "Power Saver"@
    }
}

/// What the tooltip says: Smart Sense where it is on, else the mode.
pub fn update_tooltip(resp: Option<[u8; 2]>) -> (out: String)
    ensures
        out@ == tooltip_of(resp),
{
    let mode: &'static str = match resp {
        Some(r) => if status_ok(r[0]) {
            let state: (u8, u8) = unpack_state(r[1]);
            if state.1 == 1 {
                "Smart Sense"
            } else {
                ThermalMode::from_u8(state.0).name()
            }
        } else {
            "(unavailable)"
        },
        None => "(unavailable)",
    };
    let mut out: String = NAME.to_owned();
    out.append(": ");
    out.append(mode);
    out
}

/// The first `max` code units of a text, with a zero unit at the end.
pub open spec fn clipped_units(text: Seq<char>, max: int) -> Seq<u16> {
    let all = crate::wide::utf16(text);
    all.take(
        if all.len() < max {
            all.len() as int
        } else {
            max
        },
    ).push(0)
}

/// A text for a buffer of `max` code units and a zero.
pub fn clipped(text: &str, max: usize) -> (out: Vec<u16>)
    ensures
        out@ == clipped_units(text@, max as int),
{
    let units = wide_null(text);
    let n: usize = units.len() - 1;
    let keep: usize = if n < max {
        n
    } else {
        max
    };
    let mut out: Vec<u16> = Vec::new();
    let mut i: usize = 0;
    while i < keep
        invariant
            i <= keep < units@.len(),
            units@ == crate::wide::utf16(text@).push(0),
            out@ == crate::wide::utf16(text@).take(i as int),
        decreases keep - i,
    {
        out.push(units[i]);
        i = i + 1;
        assert(out@ =~= crate::wide::utf16(text@).take(i as int));
    }
    out.push(0);
    out
}

/// How much of a text the tooltip and the two parts of a balloon hold.
pub const TIP_MAX: usize = 127;
pub const BALLOON_TITLE_MAX: usize = 63;
pub const BALLOON_BODY_MAX: usize = 255;

/// Lines with the ends that an edit field needs.
pub open spec fn with_crlf(s: Seq<char>) -> Seq<char>
    decreases s.len(),
{
    if s.len() == 0 {
        Seq::empty()
    } else if s.last() == '\n' {
        with_crlf(s.drop_last()).push('\r').push('\n')
    } else {
        with_crlf(s.drop_last()).push(s.last())
    }
}

/// A text for an edit field.
pub fn dialog_text(text: &str) -> (out: String)
    ensures
        out@ == with_crlf(text@),
{
    let chars = chars_of(text);
    let mut out: String = String::new();
    let mut i: usize = 0;
    while i < chars.len()
        invariant
            chars@ == text@,
            i <= chars@.len(),
            out@ == with_crlf(text@.take(i as int)),
        decreases chars@.len() - i,
    {
        proof {
            assert(text@.take(i + 1).drop_last() =~= text@.take(i as int));
        }
        if chars[i] == '\n' {
            out.push('\r');
            out.push('\n');
        } else {
            out.push(chars[i]);
        }
        i = i + 1;
    }
    assert(text@.take(i as int) =~= text@);
    out
}

/// A number of tenths with its sign and one decimal.
pub open spec fn tenths_text(tenths: int) -> Seq<char> {
    let n = if tenths < 0 {
        -tenths
    } else {
        tenths
    };
    (if tenths < 0 {
        "-"@
    } else {
        "+"@
    }) + crate::text::decimal(n / 10) + "."@ + crate::text::decimal(n % 10)
}

fn push_tenths(out: &mut String, tenths: i64)
    requires
        tenths > i64::MIN,
    ensures
        final(out)@ == old(out)@ + tenths_text(tenths as int),
{
    let ghost start = out@;
    let n: u64 = if tenths < 0 {
        (-tenths) as u64
    } else {
        tenths as u64
    };
    out.append(
        if tenths < 0 {
            "-"
        } else {
            "+"
        },
    );
    push_decimal(out, n / 10);
    out.append(".");
    push_decimal(out, n % 10);
    assert(out@ =~= start + tenths_text(tenths as int));
}

/// What the balloon says when a measurement ends.
pub open spec fn noise_body_of(
    chosen: u8,
    fast: bool,
    delta_tenths: int,
    mic_line: Seq<char>,
) -> Seq<char> {
    "Chose "@ + (if chosen == 0 {
        "Performance"@
    } else {
        "Balanced"@
    }) + " ("@ + (if fast {
        "cached"@
    } else {
        "calibrated"@
    }) + ")\n"@ + (if chosen == 0 {
        "Environment noise masks fan sound."@
    } else {
        "Fans would be audible in this environment."@
    }) + "\nDelta: "@ + tenths_text(delta_tenths) + " dB"@ + (if fast {
        ""@
    } else {
        " (A-weighted)"@
    }) + "\n"@ + mic_line
}

/// What the balloon says when a measurement ends. The difference is in tenths of a
/// decibel.
pub fn noise_body(chosen: u8, fast: bool, delta_tenths: i64, mic_line: &str) -> (out: String)
    requires
        delta_tenths > i64::MIN,
    ensures
        out@ == noise_body_of(chosen, fast, delta_tenths as int, mic_line@),
{
    let mut out: String = "Chose ".to_owned();
    out.append(
        if chosen == 0 {
            "Performance"
        } else {
            "Balanced"
        },
    );
    out.append(" (");
    out.append(
        if fast {
            "cached"
        } else {
            "calibrated"
        },
    );
    out.append(")\n");
    out.append(
        if chosen == 0 {
            "Environment noise masks fan sound."
        } else {
            "Fans would be audible in this environment."
        },
    );
    out.append("\nDelta: ");
    push_tenths(&mut out, delta_tenths);
    out.append(" dB");
    out.append(
        if fast {
            ""
        } else {
            " (A-weighted)"
        },
    );
    out.append("\n");
    out.append(mic_line);
    out
}

/// Presses within this time count as one, in milliseconds.
pub const FNKEY_DEBOUNCE_MS: u64 = 2000;
/// After a sleep the key is not heard for this time, in milliseconds.
pub const FNKEY_RESUME_SUPPRESS_MS: u64 = 3000;

/// The Fn+F12 key and the screen.
#[derive(Clone, Copy, PartialEq, Eq, Structural, Debug)]
pub struct FnKeyState {
    pub keys: FnKeySettings,
    /// When a press last did something; zero for never.
    pub last: u64,
    /// Presses before this time are dropped.
    pub suppress_until: u64,
    pub screen_on: bool,
    /// Brightness to go back to; zero for none.
    pub saved_brightness: u8,
    /// The black window is shown.
    pub black_window: bool,
}

/// What a press of Fn+F12 does.
#[derive(Clone, Copy, PartialEq, Eq, Structural, Debug)]
pub enum FnKeyAction {
    /// Dropped: it came from a wake-up.
    Suppressed,
    /// Dropped: it belongs to the press before.
    Debounced,
    ScreenOn,
    ScreenOff,
    Sleep,
    Nothing,
}

/// Whether a press at `now` is dropped.
pub open spec fn is_dropped(s: FnKeyState, now: u64) -> bool {
    now < s.suppress_until || (s.last != 0 && now < s.last + FNKEY_DEBOUNCE_MS)
}

/// What a press does, and the state after it. The screen comes before the sleep.
pub open spec fn press_outcome(s: FnKeyState, now: u64) -> (FnKeyState, FnKeyAction) {
    if now < s.suppress_until {
        (s, FnKeyAction::Suppressed)
    } else if is_dropped(s, now) {
        (s, FnKeyAction::Debounced)
    } else if s.keys.screen {
        (
            FnKeyState { last: now, screen_on: !s.screen_on, ..s },
            if s.screen_on {
                FnKeyAction::ScreenOff
            } else {
                FnKeyAction::ScreenOn
            },
        )
    } else if s.keys.sleep {
        (FnKeyState { last: now, ..s }, FnKeyAction::Sleep)
    } else {
        (FnKeyState { last: now, ..s }, FnKeyAction::Nothing)
    }
}

/// What a press of Fn+F12 does.
pub fn handle_fn_key(s: &mut FnKeyState, now: u64) -> (a: FnKeyAction)
    ensures
        (*final(s), a) == press_outcome(*old(s), now),
{
    if now < s.suppress_until {
        return FnKeyAction::Suppressed;
    }
    if s.last != 0 && now.saturating_sub(s.last) < FNKEY_DEBOUNCE_MS {
        return FnKeyAction::Debounced;
    }
    s.last = now;
    if s.keys.screen {
        let was_on: bool = s.screen_on;
        s.screen_on = !was_on;
        if was_on {
            FnKeyAction::ScreenOff
        } else {
            FnKeyAction::ScreenOn
        }
    } else if s.keys.sleep {
        FnKeyAction::Sleep
    } else {
        FnKeyAction::Nothing
    }
}

/// The state after the machine woke up.
pub open spec fn woken(s: FnKeyState, now: u64) -> FnKeyState {
    FnKeyState { suppress_until: (now + FNKEY_RESUME_SUPPRESS_MS) as u64, last: now, ..s }
}

/// The machine woke up from a sleep that Fn+F12 began.
pub fn resumed(s: &mut FnKeyState, now: u64)
    requires
        now <= u64::MAX - FNKEY_RESUME_SUPPRESS_MS,
    ensures
        *final(s) == woken(*old(s), now),
{
    s.suppress_until = now + FNKEY_RESUME_SUPPRESS_MS;
    s.last = now;
}

/// Presses within the debounce time of one that was heard do nothing. A clock that
/// shows zero is left out: zero stands for never.
pub proof fn presses_are_debounced(s: FnKeyState, first: u64, later: u64)
    requires
        0 < first <= later < first + FNKEY_DEBOUNCE_MS,
        !is_dropped(s, first),
    ensures
        press_outcome(press_outcome(s, first).0, later).0 == press_outcome(s, first).0,
        press_outcome(press_outcome(s, first).0, later).1 is Debounced,
{
}

/// Nothing that is pressed around a wake-up sends the machine back to sleep.
pub proof fn waking_does_not_sleep_again(s: FnKeyState, woke: u64, press: u64)
    requires
        woke <= u64::MAX - FNKEY_RESUME_SUPPRESS_MS,
        press < woke + FNKEY_RESUME_SUPPRESS_MS,
    ensures
        ({
            let after = woken(s, woke);
            press_outcome(after, press) == (after, FnKeyAction::Suppressed)
        }),
{
}

/// A step of switching the screen on or off.
#[derive(Clone, Copy, PartialEq, Eq, Structural, Debug)]
pub enum ScreenStep {
    SetBrightness(u8),
    ShowBlackWindow,
    DestroyBlackWindow,
    /// Keep the machine awake and switch the display off.
    PowerOff,
    /// Let the machine sleep again and switch the display on.
    PowerOn,
}

/// The brightness that is kept for later: the one that was read, where it could be
/// read and is not zero, else the one kept before.
pub open spec fn kept_brightness(saved: u8, resp: Option<[u8; 2]>) -> u8 {
    if resp is Some && crate::protocol::ok_status(resp->0[0]) && resp->0[1] > 0 {
        resp->0[1]
    } else {
        saved
    }
}

/// The steps that switch the screen off, and the state after them.
pub open spec fn off_outcome(s: FnKeyState, brightness: Option<[u8; 2]>) -> (
    FnKeyState,
    Seq<ScreenStep>,
) {
    let black = if s.black_window {
        Seq::empty()
    } else {
        seq![ScreenStep::ShowBlackWindow]
    };
    if s.keys.method == METHOD_BRIGHTNESS {
        (
            FnKeyState {
                saved_brightness: kept_brightness(s.saved_brightness, brightness),
                black_window: true,
                ..s
            },
            seq![ScreenStep::SetBrightness(0)] + black,
        )
    } else if s.keys.method == METHOD_DPMS {
        (s, seq![ScreenStep::PowerOff])
    } else if s.keys.method == METHOD_BLACK {
        (FnKeyState { black_window: true, ..s }, black)
    } else {
        (s, Seq::empty())
    }
}

/// Switches the screen off by the method that is set. `brightness` is the response
/// that says how bright the screen is; it matters only where that is the method.
pub fn screen_off(s: &mut FnKeyState, brightness: Option<[u8; 2]>) -> (steps: Vec<ScreenStep>)
    ensures
        (*final(s), steps@) == off_outcome(*old(s), brightness),
{
    let mut steps: Vec<ScreenStep> = Vec::new();
    let ghost before = *s;
    match s.keys.method {
        METHOD_BRIGHTNESS => {
            if let Some(r) = brightness {
                if status_ok(r[0]) && r[1] > 0 {
                    s.saved_brightness = r[1];
                }
            }
            steps.push(ScreenStep::SetBrightness(0));
            if !s.black_window {
                steps.push(ScreenStep::ShowBlackWindow);
                s.black_window = true;
            }
        },
        METHOD_DPMS => {
            steps.push(ScreenStep::PowerOff);
        },
        METHOD_BLACK => {
            if !s.black_window {
                steps.push(ScreenStep::ShowBlackWindow);
                s.black_window = true;
            }
        },
        _ => {},
    }
    assert(steps@ =~= off_outcome(before, brightness).1);
    steps
}

/// The steps that switch the screen on, and the state after them.
pub open spec fn on_outcome(s: FnKeyState) -> (FnKeyState, Seq<ScreenStep>) {
    (
        FnKeyState { saved_brightness: 0, black_window: false, ..s },
        (if s.saved_brightness > 0 {
            seq![ScreenStep::SetBrightness(s.saved_brightness)]
        } else {
            Seq::empty()
        }) + (if s.black_window {
            seq![ScreenStep::DestroyBlackWindow]
        } else {
            Seq::empty()
        }) + seq![ScreenStep::PowerOn],
    )
}

/// Switches the screen on. It undoes every method, whichever is set by now.
pub fn screen_on(s: &mut FnKeyState) -> (steps: Vec<ScreenStep>)
    ensures
        (*final(s), steps@) == on_outcome(*old(s)),
{
    let ghost before = *s;
    let mut steps: Vec<ScreenStep> = Vec::new();
    if s.saved_brightness > 0 {
        steps.push(ScreenStep::SetBrightness(s.saved_brightness));
        s.saved_brightness = 0;
    }
    if s.black_window {
        steps.push(ScreenStep::DestroyBlackWindow);
        s.black_window = false;
    }
    steps.push(ScreenStep::PowerOn);
    assert(steps@ =~= on_outcome(before).1);
    steps
}

/// A click or key on the black window: the screen goes on where it is off.
pub fn black_window_dismissed(s: &mut FnKeyState) -> (on: bool)
    ensures
        on == !old(s).screen_on,
        *final(s) == (FnKeyState { screen_on: true, ..*old(s) }),
{
    if s.screen_on {
        return false;
    }
    s.screen_on = true;
    true
}

/// Switching the screen on undoes switching it off: the brightness goes back to
/// what it was, whatever method is set by then, and no black window stays.
pub proof fn screen_on_undoes_screen_off(s: FnKeyState, level: u8, status: u8, method: u8)
    requires
        !s.black_window,
        s.saved_brightness == 0,
        level > 0,
        crate::protocol::ok_status(status),
    ensures
        ({
            let off = off_outcome(s, Some([status, level])).0;
            let on = on_outcome(
                FnKeyState { keys: FnKeySettings { method, ..off.keys }, ..off },
            );
            &&& !on.0.black_window
            &&& on.0.saved_brightness == 0
            &&& on.1.last() is PowerOn
            &&& s.keys.method == METHOD_BRIGHTNESS ==> on.1[0] == ScreenStep::SetBrightness(level)
            &&& off.black_window ==> on.1.contains(ScreenStep::DestroyBlackWindow)
        }),
{
    let resp: Option<[u8; 2]> = Some([status, level]);
    assert(resp->0[0] == status && resp->0[1] == level);
    let off = off_outcome(s, resp).0;
    let steps = on_outcome(FnKeyState { keys: FnKeySettings { method, ..off.keys }, ..off }).1;
    if off.black_window {
        if off.saved_brightness > 0 {
            assert(steps[1] is DestroyBlackWindow);
        } else {
            assert(steps[0] is DestroyBlackWindow);
        }
    }
}

/// Requests to switch the display off, which a worker carries out one after the
/// other.
#[derive(Clone, Copy, PartialEq, Eq, Structural, Debug)]
pub struct MonitorOff {
    /// A request is waiting.
    pub dirty: bool,
    /// A worker is at it.
    pub active: bool,
}

impl MonitorOff {
    /// After a request.
    pub open spec fn requested(self) -> MonitorOff {
        MonitorOff { dirty: true, active: true }
    }

    /// After the worker took what was waiting.
    pub open spec fn taken(self) -> MonitorOff {
        MonitorOff { dirty: false, ..self }
    }

    /// After the worker stepped back.
    pub open spec fn released(self) -> MonitorOff {
        MonitorOff { active: false, ..self }
    }

    /// After the worker looked once more: whoever is at it stays at it, and a request
    /// that is waiting has somebody at it.
    pub open spec fn reclaimed(self) -> MonitorOff {
        MonitorOff { active: self.active || self.dirty, ..self }
    }

    /// Whoever waits is served.
    pub open spec fn served(self) -> bool {
        self.dirty ==> self.active
    }
}

/// Asks for the display to be switched off. Says whether a worker has to be
/// started; where one is at it, that one will see the request.
pub fn request_monitor_off(m: &mut MonitorOff) -> (start: bool)
    ensures
        start == !old(m).active,
        *final(m) == old(m).requested(),
{
    m.dirty = true;
    let start: bool = !m.active;
    m.active = true;
    start
}

/// The worker takes the request that is waiting, if there is one.
pub fn take_request(m: &mut MonitorOff) -> (taken: bool)
    ensures
        taken == old(m).dirty,
        *final(m) == old(m).taken(),
{
    let taken: bool = m.dirty;
    m.dirty = false;
    taken
}

/// The worker steps back.
pub fn release_worker(m: &mut MonitorOff)
    ensures
        *final(m) == old(m).released(),
{
    m.active = false;
}

/// The worker looks once more after it stepped back: it goes on where a request
/// came in between and nobody else is at it.
pub fn reclaim_worker(m: &mut MonitorOff) -> (again: bool)
    ensures
        again == (old(m).dirty && !old(m).active),
        *final(m) == old(m).reclaimed(),
{
    let again: bool = m.dirty && !m.active;
    if m.dirty {
        m.active = true;
    }
    again
}

/// No request is lost, whenever it comes: after a request somebody is at it, taking
/// a request leaves none unserved, and whatever a worker finds when it looks once
/// more, it leaves no request that nobody is at.
pub proof fn no_request_is_lost(m: MonitorOff)
    ensures
        m.requested().served(),
        m.served() ==> m.taken().served(),
        m.reclaimed().served(),
{
}

/// The settings of Fn+F12 in a file of two bytes: flags and method.
pub open spec fn settings_bytes(k: FnKeySettings) -> Seq<u8> {
    seq![
        ((if k.screen {
            1int
        } else {
            0
        }) + (if k.sleep {
            2int
        } else {
            0
        })) as u8,
        k.method,
    ]
}

/// The settings that a file holds. Where it holds less, what was set before stays;
/// so it does where the method is none.
pub open spec fn settings_from(data: Seq<u8>, k: FnKeySettings) -> FnKeySettings {
    FnKeySettings {
        screen: if data.len() > 0 {
            data[0] % 2 == 1
        } else {
            k.screen
        },
        sleep: if data.len() > 0 {
            data[0] / 2 % 2 == 1
        } else {
            k.sleep
        },
        method: if data.len() > 1 && data[1] <= METHOD_BLACK {
            data[1]
        } else {
            k.method
        },
    }
}

impl FnKeySettings {
    /// What holds without a file: the screen goes off by its power state.
    pub fn initial() -> (k: FnKeySettings)
        ensures
            k == (FnKeySettings { screen: true, sleep: false, method: METHOD_DPMS }),
    {
        FnKeySettings { screen: true, sleep: false, method: METHOD_DPMS }
    }
}

/// The settings that a file holds.
pub fn load_fnkey_settings(data: &[u8], k: FnKeySettings) -> (r: FnKeySettings)
    ensures
        r == settings_from(data@, k),
{
    let mut r = k;
    if data.len() > 0 {
        r.screen = data[0] % 2 == 1;
        r.sleep = data[0] / 2 % 2 == 1;
    }
    if data.len() > 1 && data[1] <= METHOD_BLACK {
        r.method = data[1];
    }
    r
}

/// The file that holds the settings.
pub fn save_fnkey_settings(k: FnKeySettings) -> (data: [u8; 2])
    ensures
        data@ == settings_bytes(k),
{
    let screen: u8 = if k.screen {
        1
    } else {
        0
    };
    let sleep: u8 = if k.sleep {
        2
    } else {
        0
    };
    let data: [u8; 2] = [screen + sleep, k.method];
    assert(data@ =~= settings_bytes(k));
    data
}

/// What is stored is what is read back, whatever was set in between.
pub proof fn settings_round_trip(k: FnKeySettings, other: FnKeySettings)
    requires
        k.method <= METHOD_BLACK,
    ensures
        settings_from(settings_bytes(k), other) == k,
{
}

/// An older file of one byte holds no method: the one that was set stays.
pub proof fn one_byte_files_are_read(flags: u8, k: FnKeySettings)
    ensures
        settings_from(seq![flags], k).method == k.method,
        settings_from(seq![flags], k).screen == (flags % 2 == 1),
        settings_from(seq![flags], k).sleep == (flags / 2 % 2 == 1),
{
}

fn word(b: bool) -> (s: &'static str)
    ensures
        s@ == crate::launch::truth(b),
{
    if b {
        "true"
    } else {
        "false"
    }
}

/// The line that says which settings were read.
pub fn settings_line(k: FnKeySettings) -> (line: Line)
    ensures
        crate::log::line_view(line) == (
            Level::Info,
            "fnkey: loaded screen="@ + crate::launch::truth(k.screen) + " sleep="@
                + crate::launch::truth(k.sleep) + " method="@ + crate::text::decimal(
                k.method as int,
            ),
        ),
{
    let mut text: String = "fnkey: loaded screen=".to_owned();
    text.append(word(k.screen));
    text.append(" sleep=");
    text.append(word(k.sleep));
    text.append(" method=");
    push_decimal(&mut text, k.method as u64);
    Line { level: Level::Info, text }
}

/// Where the settings are stored, below the data directory.
pub fn fnkey_config_path(data_dir: &str) -> (out: String)
    ensures
        out@ == data_dir@ + "\\"@ + FNKEY_CONFIG@,
{
    let mut out: String = data_dir.to_owned();
    out.append("\\");
    out.append(FNKEY_CONFIG);
    out
}

/// Whether the service that answered is another build.
pub open spec fn is_another_build(own: [u8; 2], resp: Option<[u8; 2]>) -> bool {
    resp is Some && (resp->0[0] != own[0] || resp->0[1] != own[1])
}

/// Whether the tray ends because the service that started is another build, and
/// what the log says of it. A service that does not answer ends nothing.
pub fn exit_if_service_newer(own: [u8; 2], resp: Option<[u8; 2]>) -> (r: Option<Line>)
    ensures
        r is Some <==> is_another_build(own, resp),
        r matches Some(line) ==> crate::log::line_view(line) == (
            Level::Info,
            "tray: service is a newer build (tray="@ + crate::text::hex_upper(own[0] as int, 2)
                + crate::text::hex_upper(own[1] as int, 2) + " svc="@ + crate::text::hex_upper(
                resp->0[0] as int,
                2,
            ) + crate::text::hex_upper(resp->0[1] as int, 2) + "), exiting for relaunch"@,
        ),
{
    match resp {
        Some(svc) => {
            if svc[0] == own[0] && svc[1] == own[1] {
                return None;
            }
            let mut text: String = "tray: service is a newer build (tray=".to_owned();
            push_hex_upper(&mut text, own[0] as u64, 2);
            push_hex_upper(&mut text, own[1] as u64, 2);
            text.append(" svc=");
            push_hex_upper(&mut text, svc[0] as u64, 2);
            push_hex_upper(&mut text, svc[1] as u64, 2);
            text.append("), exiting for relaunch");
            Some(Line { level: Level::Info, text })
        },
        None => None,
    }
}

/// An entry that shows the name of a mode sets that mode, whatever the state: Performance
/// is 0, Balanced 1, Cool 2 and Power Saver 3. Nothing else changes.
pub proof fn entries_set_the_mode_they_name(
    s: TrayState,
    noise: Option<crate::menu::NoiseState>,
    v: crate::menu::MenuValues,
    debug: Option<crate::menu::DebugInfo>,
    i: int,
    m: ThermalMode,
)
    requires
        0 <= i < crate::menu::menu_of(true, noise, v, debug).len(),
        crate::menu::is_choice(crate::menu::menu_of(true, noise, v, debug)[i]),
        crate::menu::menu_of(true, noise, v, debug)[i]->text == m.label(),
    ensures
        menu_outcome(s, crate::menu::menu_of(true, noise, v, debug)[i]->id) == (
            s,
            MenuAction::SetMode(m.wire()),
        ),
        menu_outcome(s, ID_PERFORMANCE) == (s, MenuAction::SetMode(0)),
        menu_outcome(s, ID_BALANCED) == (s, MenuAction::SetMode(1)),
        menu_outcome(s, ID_COOL) == (s, MenuAction::SetMode(2)),
        menu_outcome(s, ID_POWER_SAVER) == (s, MenuAction::SetMode(3)),
{
    reveal_strlit("Performance");
    reveal_strlit("Balanced");
    reveal_strlit("Cool");
    reveal_strlit("Power Saver");
    reveal_strlit("Smart Sense");
    crate::menu::choices_are_where(true, noise, v, debug, i);
    let menu = crate::menu::menu_of(true, noise, v, debug);
    assert("Performance"@[1] == 'e' && "Power Saver"@[1] == 'o' && "Smart Sense"@[1] == 'm');
    assert(m.label()[1] == menu[i]->text[1]);
    assert(m.label().len() == menu[i]->text.len());
}

/// What the menu shows once the requests of an action are out.
pub open spec fn shown_after(c: MenuCache, told: Told, now: u64) -> crate::menu::MenuValues {
    let after = stored(c, told.thermal, told.coolsense, now);
    crate::menu::values_in_cache(after.thermal, after.coolsense)
}

/// The menu then shows what was chosen: after an entry with a mode was chosen, the check
/// stands at that entry, and at no other, and not at Smart Sense.
pub proof fn the_chosen_mode_is_checked(
    s: TrayState,
    id: u32,
    course: Seq<Exchange>,
    c: MenuCache,
    now: u64,
    i: int,
    noise: Option<crate::menu::NoiseState>,
)
    requires
        101 <= id <= 104,
        0 <= i < 4,
    ensures
        ({
            let told = told_by(menu_outcome(s, id).1, course);
            let v = shown_after(c, told->0, now);
            &&& told is Some
            &&& crate::menu::entry_checked(crate::menu::mode_section(true, v)[i]) <==> (
            crate::menu::mode_section(true, v)[i]->id == id)
            &&& !crate::menu::entry_checked(crate::menu::top_section(true, noise, v)[0])
        }),
{
}

/// Switching Smart Sense over does so in the menu too: where it was on the mode is checked
/// again, and where it was off it is checked and no mode is.
pub proof fn smart_sense_is_checked_once_it_is_on(
    s: TrayState,
    course: Seq<Exchange>,
    c: MenuCache,
    now: u64,
    i: int,
    noise: Option<crate::menu::NoiseState>,
)
    requires
        0 <= i < 4,
        menu_course(menu_outcome(s, ID_SMART_SENSE).1, course),
        course.len() > 0,
        course[0].answer matches Some(a) && crate::protocol::ok_status(a[0]),
    ensures
        ({
            let was_on = course[0].answer->0[1] != 0;
            let told = told_by(menu_outcome(s, ID_SMART_SENSE).1, course);
            let v = shown_after(c, told->0, now);
            &&& told is Some
            &&& course[0].asks(CMD_READ_COOLSENSE, 0)
            &&& course[1].command == CMD_SET_COOLSENSE && course.len() == 2
            &&& course[1].payload == 0 <==> was_on
            &&& crate::menu::entry_checked(crate::menu::top_section(true, noise, v)[0]) != was_on
            &&& !was_on ==> !crate::menu::entry_checked(crate::menu::mode_section(true, v)[i])
            &&& was_on && c.thermal < 4 ==> (crate::menu::entry_checked(
                crate::menu::mode_section(true, v)[i],
            ) <==> i == c.thermal)
        }),
{
}

/// The mode goes to the service as it was chosen, last, and monitoring goes on or off as
/// it was chosen.
pub proof fn what_was_chosen_is_sent(m: u8, on: bool, course: Seq<Exchange>)
    ensures
        menu_course(MenuAction::SetMode(m), course) ==> course.len() == 2 && course.last().asks(
            CMD_SET_THERMAL,
            m,
        ),
        menu_course(MenuAction::SetStackMonitor(on), course) ==> course.len() == 1
            && course[0].command == CMD_SET_STACK_MONITOR && (course[0].payload == 1 <==> on)
            && (course[0].payload == 0 <==> !on),
        menu_course(MenuAction::StartNoiseAdapt, course) ==> course.len() == 1,
        menu_course(MenuAction::StartDebugCalibration, course) ==> course.len() == 1,
{
    if menu_course(MenuAction::SetMode(m), course) {
        assert(course[1].asks(
            requests_of(MenuAction::SetMode(m))[1].0,
            requests_of(MenuAction::SetMode(m))[1].1,
        ));
    }
    if menu_course(MenuAction::SetStackMonitor(on), course) {
        assert(course[0].asks(
            requests_of(MenuAction::SetStackMonitor(on))[0].0,
            requests_of(MenuAction::SetStackMonitor(on))[0].1,
        ));
    }
}

/// What the entries of the settings show: an entry that is switched over changes its own
/// check and no other; a method that is chosen is checked, and no other method is.
pub proof fn settings_show_what_was_chosen(
    s: TrayState,
    id: u32,
    before: crate::menu::DebugInfo,
    after: crate::menu::DebugInfo,
    i: int,
)
    requires
        before.keys == s.keys,
        before.stack_monitor == s.stack_monitor,
        after.keys == menu_outcome(s, id).0.keys,
        after.stack_monitor == menu_outcome(s, id).0.stack_monitor,
        0 <= i < 9,
        crate::menu::settings_section(after)[i] is Item,
    ensures
        ({
            let was = crate::menu::entry_checked(crate::menu::settings_section(before)[i]);
            let now = crate::menu::entry_checked(crate::menu::settings_section(after)[i]);
            let own = crate::menu::settings_section(after)[i]->id == id;
            let method = crate::menu::settings_section(after)[i]->id == ID_METHOD_DPMS
                || crate::menu::settings_section(after)[i]->id == ID_METHOD_BRIGHTNESS
                || crate::menu::settings_section(after)[i]->id == ID_METHOD_BLACK;
            let by_method = id == ID_METHOD_DPMS || id == ID_METHOD_BRIGHTNESS || id
                == ID_METHOD_BLACK;
            &&& own && !method ==> now != was
            &&& own && method ==> now
            &&& !own && method && by_method ==> !now
            &&& !own && !(method && by_method) ==> now == was
        }),
{
}

/// What each entry does, and which entry does it.
pub proof fn entries_do_what_they_name(s: TrayState, id: u32)
    ensures
        menu_outcome(s, id).1 is ToggleSmartSense <==> id == ID_SMART_SENSE,
        menu_outcome(s, id).1 is ShowFingerprint <==> id == ID_SHOW_FINGERPRINT,
        menu_outcome(s, id).1 is RestartService <==> id == ID_RESTART_SVC,
        menu_outcome(s, id).1 is Exit <==> id == ID_EXIT,
        menu_outcome(s, id).1 is SetMode <==> 101 <= id <= 104,
        menu_outcome(s, id).1 is ClearCalibration <==> id == ID_CLEAR_CAL && s.noise_feature,
        menu_outcome(s, id).1 is SaveSettings <==> menu_outcome(s, id).0.keys != s.keys || id
            == ID_METHOD_DPMS || id == ID_METHOD_BRIGHTNESS || id == ID_METHOD_BLACK,
        menu_outcome(s, id).1 is SetStackMonitor <==> menu_outcome(s, id).0.stack_monitor
            != s.stack_monitor,
        menu_outcome(s, ID_STACK_MONITOR).1 == MenuAction::SetStackMonitor(
            menu_outcome(s, ID_STACK_MONITOR).0.stack_monitor,
        ),
        menu_outcome(s, id).0.stack_monitor != s.stack_monitor <==> id == ID_STACK_MONITOR,
        menu_outcome(s, id).0.keys.screen != s.keys.screen <==> id == ID_FNKEY_SCREEN,
        menu_outcome(s, id).0.keys.sleep != s.keys.sleep <==> id == ID_FNKEY_SLEEP,
        menu_outcome(s, ID_METHOD_DPMS).0.keys.method == 0,
        menu_outcome(s, ID_METHOD_BRIGHTNESS).0.keys.method == 1,
        menu_outcome(s, ID_METHOD_BLACK).0.keys.method == 2,
        menu_outcome(s, id).0.noise_feature == s.noise_feature,
{
}

/// A measurement or a calibration starts only where this build can, and nothing runs; then
/// it runs until it is said to have ended, after which it can be started again.
pub proof fn measurements_start_and_end(s: TrayState, id: u32)
    ensures
        ({
            let idle = s.noise_feature && !s.measuring && !s.calibrating;
            let after = menu_outcome(s, id).0;
            let a = menu_outcome(s, id).1;
            &&& a is StartNoiseAdapt <==> id == ID_NOISE_ADAPTED && idle
            &&& a is StartDebugCalibration <==> id == ID_DEBUG_CAL && idle
            &&& a is StartCalibration <==> id == ID_CALIBRATE && idle
            &&& after.measuring <==> s.measuring || a is StartNoiseAdapt || a
                is StartDebugCalibration
            &&& after.calibrating <==> s.calibrating || a is StartCalibration
            &&& a is StartNoiseAdapt || a is StartDebugCalibration ==> measured(after) == s
            &&& a is StartCalibration ==> calibrated(after) == s
            &&& measured(s).calibrating == s.calibrating && calibrated(s).measuring == s.measuring
        }),
{
}

/// The tooltip is read anew wherever an action may have changed what it shows, and after
/// the probe of the hardware.
pub proof fn the_tooltip_follows_the_service(a: MenuAction, course: Seq<Exchange>)
    requires
        menu_course(a, course),
        told_by(a, course) is Some,
    ensures
        outdates_tooltip(a),
        outdates_tooltip(MenuAction::ShowFingerprint),
        !outdates_tooltip(MenuAction::StartNoiseAdapt) && !outdates_tooltip(
            MenuAction::StartCalibration,
        ),
{
}

/// The point that the shell gives, each coordinate in sixteen bits with its sign.
pub open spec fn packed_point(x: i32, y: i32) -> u64 {
    (x as int % 0x10000 + 0x10000 * (y as int % 0x10000)) as u64
}

/// The menu opens at the point that the shell gave, on whichever monitor it lies, and a
/// command comes with the number of its entry, whatever stands above it.
pub proof fn points_and_commands_arrive(x: i32, y: i32, above: u64, id: u32)
    requires
        -0x8000 <= x < 0x8000,
        -0x8000 <= y < 0x8000,
        id < 0x10000,
        above < 0x1_0000_0000,
    ensures
        window_event(WM_TRAYICON, packed_point(x, y), (WM_CONTEXTMENU + 0x10000 * above) as u64)
            == (WindowEvent::OpenMenu { x, y }),
        window_event(WM_COMMAND, (id + 0x10000 * above) as u64, 0) == WindowEvent::Command(id),
{
    let a = x as int % 0x10000;
    let b = y as int % 0x10000;
    let w = a + 0x10000 * b;
    assert(w % 0x10000 == a && w / 0x10000 == b);
    assert(a == if x < 0 {
        x + 0x10000
    } else {
        x as int
    });
    assert(b == if y < 0 {
        y + 0x10000
    } else {
        y as int
    });
    let l: int = WM_CONTEXTMENU + 0x10000 * above;
    assert(l % 0x10000 == WM_CONTEXTMENU);
    let c: int = id + 0x10000 * above;
    assert(c % 0x10000 == id);
}

/// The window ends when it is destroyed, and only then; the black window is dismissed by
/// any key and any button, and not by moving the mouse.
pub proof fn windows_end_when_destroyed(msg: u32, wparam: u64, lparam: u64)
    ensures
        window_event(msg, wparam, lparam) is Quit <==> msg == 2,
        window_event(msg, wparam, lparam) is Command <==> msg == 0x111,
        window_event(msg, wparam, lparam) is ScreenOn <==> msg == WM_SCREEN_ON,
        window_event(msg, wparam, lparam) is IdleSweep <==> msg == 0x113 && wparam == NVML_TIMER_ID,
        window_event(msg, wparam, lparam) is OpenMenu ==> msg == WM_TRAYICON,
        is_press(0x100) && is_press(0x201) && is_press(0x204) && is_press(0x207),
        !is_press(0x200) && !is_press(2),
{
}

/// A tray is alone unless the lock is taken; where it is, only once it got the lock.
pub proof fn one_tray_runs(handle_ok: bool, waited: u32)
    ensures
        is_alone(false, handle_ok, waited),
        is_alone(true, handle_ok, waited) ==> handle_ok && crate::install::lock_taken(Some(waited)),
        crate::install::lock_taken(Some(waited)) ==> is_alone(true, true, waited),
{
}

/// What is waited for, in its order.
pub open spec fn awaited(fn_key: bool, svc_start: bool) -> Seq<WaitEvent> {
    (if fn_key {
        seq![WaitEvent::FnKey]
    } else {
        Seq::empty()
    }) + (if svc_start {
        seq![WaitEvent::ServiceStarted]
    } else {
        Seq::empty()
    })
}

/// A wait that ended with one of the events tells that event, whichever of them could be
/// opened; one that ended behind them tells of messages, and any other has failed.
pub proof fn waits_tell_their_event(fn_key: bool, svc_start: bool, signaled: u32)
    ensures
        ({
            let events = awaited(fn_key, svc_start);
            wait_outcome(fn_key, svc_start, signaled) == if signaled < events.len() {
                events[signaled as int]
            } else if signaled == events.len() {
                WaitEvent::Messages
            } else {
                WaitEvent::Failed
            }
        }),
{
}

/// The cache is read again five seconds after it was filled, or tried to be, and not
/// before; never while it is being read. What a read brings is what the service packed,
/// and a failure leaves both values unknown.
pub proof fn caches_are_fresh_for_five_seconds(
    c: MenuCache,
    status: u8,
    thermal: u8,
    coolsense: u8,
    read_at: u64,
    now: u64,
)
    requires
        0 < read_at <= now,
        thermal < 16,
        coolsense < 16,
    ensures
        ({
            let resp: Option<[u8; 2]> = Some(
                [status, crate::protocol::packed_state(thermal, coolsense)],
            );
            let good = crate::protocol::ok_status(status);
            &&& is_stale(refreshed(resp, read_at), now) <==> now - read_at >= 5000
            &&& is_stale(stored(c, Some(thermal), None, read_at), now) <==> !c.in_flight && now
                - read_at >= 5000
            &&& good ==> refreshed(resp, now).thermal == thermal && refreshed(resp, now).coolsense
                == coolsense
            &&& !good ==> refreshed(resp, now).thermal == 255 && refreshed(resp, now).coolsense
                == 255
            &&& refreshed(None, now).thermal == 255 && refreshed(None, now).coolsense == 255
            &&& c.in_flight ==> !is_stale(c, now)
        }),
{
    let packed = crate::protocol::packed_state(thermal, coolsense);
    let resp: Option<[u8; 2]> = Some([status, packed]);
    assert(resp->0[0] == status && resp->0[1] == packed);
    crate::protocol::packed_state_unpacks(thermal, coolsense);
    assert((now - read_at) % 0x1_0000_0000_0000_0000 == now - read_at);
}

/// Smart Sense goes off where it is known to be on, and on in every other case; a
/// measurement starts from the mode that was answered, and from Balanced without an
/// answer.
pub proof fn smart_sense_is_switched_over(status: u8, value: u8)
    ensures
        ({
            let resp: Option<[u8; 2]> = Some([status, value]);
            &&& crate::protocol::ok_status(status) ==> (switched(resp) == 0 <==> value != 0)
            &&& !crate::protocol::ok_status(status) ==> switched(resp) == 1
            &&& switched(resp) <= 1
            &&& switched(None) == 1
            &&& baseline_of(resp) == value
            &&& baseline_of(None) == ThermalMode::Balanced.wire()
        }),
{
    let resp: Option<[u8; 2]> = Some([status, value]);
    assert(resp->0[0] == status && resp->0[1] == value);
}

/// The tooltip names the mode that the service reports, and Smart Sense in its place where
/// it is on; a service that fails or does not answer is unavailable.
pub proof fn tooltips_name_the_mode(status: u8, m: ThermalMode, coolsense: u8)
    requires
        coolsense < 16,
    ensures
        ({
            let resp: Option<[u8; 2]> = Some(
                [status, crate::protocol::packed_state(m.wire(), coolsense)],
            );
            let good = crate::protocol::ok_status(status);
            &&& good && coolsense != 1 ==> tooltip_of(resp) == NAME@ + ": "@ + m.label()
            &&& good && coolsense == 1 ==> tooltip_of(resp) == NAME@ + ": "@ + "Smart Sense"@
            &&& !good ==> tooltip_of(resp) == NAME@ + ": "@ + "(unavailable)"@
            &&& tooltip_of(None) == NAME@ + ": "@ + "(unavailable)"@
        }),
{
    let packed = crate::protocol::packed_state(m.wire(), coolsense);
    let resp: Option<[u8; 2]> = Some([status, packed]);
    assert(resp->0[0] == status && resp->0[1] == packed);
    crate::protocol::packed_state_unpacks(m.wire(), coolsense);
    assert(m.wire() as int % 4 == m.wire());
}

/// A text for a buffer is as much of it as fits, with a zero behind it; a text that fits is
/// there in whole.
pub proof fn clipped_texts_end_in_zero(text: Seq<char>, max: int)
    requires
        max >= 0,
    ensures
        clipped_units(text, max).len() <= max + 1,
        clipped_units(text, max).last() == 0,
        clipped_units(text, max).drop_last().is_prefix_of(crate::wide::utf16(text)),
        crate::wide::utf16(text).len() <= max ==> clipped_units(text, max).drop_last()
            == crate::wide::utf16(text),
        crate::wide::utf16(text).len() > max ==> clipped_units(text, max).len() == max + 1,
{
    let all = crate::wide::utf16(text);
    let n = if all.len() < max {
        all.len() as int
    } else {
        max
    };
    assert(clipped_units(text, max).drop_last() =~= all.take(n));
    assert(all.take(all.len() as int) =~= all);
}

/// In a text for an edit field every end of a line has its return, and nothing else of the
/// text is changed.
pub proof fn edit_fields_get_whole_line_ends(s: Seq<char>, i: int)
    requires
        0 <= i < with_crlf(s).len(),
    ensures
        with_crlf(s)[i] == '\n' ==> i > 0 && with_crlf(s)[i - 1] == '\r',
        with_crlf(s).filter(|c: char| c != '\r') == s.filter(|c: char| c != '\r'),
    decreases s.len(),
{
    reveal(Seq::filter);
    let keep = |c: char| c != '\r';
    if s.len() > 0 {
        let rest = s.drop_last();
        let done = with_crlf(rest);
        if 0 < done.len() {
            if i < done.len() {
                edit_fields_get_whole_line_ends(rest, i);
            } else {
                edit_fields_get_whole_line_ends(rest, 0);
            }
        } else {
            assert(rest.len() == 0) by {
                if rest.len() > 0 {
                    assert(with_crlf(rest).len() > 0);
                }
            }
            assert(done.filter(keep) =~= rest.filter(keep));
        }
        if s.last() == '\n' {
            let one = done.push('\r');
            assert(one.drop_last() =~= done);
            assert(with_crlf(s).drop_last() =~= one);
            assert(one.filter(keep) == done.filter(keep));
            assert(with_crlf(s).filter(keep) == done.filter(keep).push('\n'));
        } else {
            assert(with_crlf(s).drop_last() =~= done);
        }
    }
}

/// What a measurement chose is what its balloon names.
pub proof fn balloons_name_the_chosen_mode(m: ThermalMode, fast: bool, tenths: int, mic: Seq<char>)
    requires
        m is Performance || m is Balanced,
    ensures
        ("Chose "@ + m.label() + " ("@).is_prefix_of(noise_body_of(m.wire(), fast, tenths, mic)),
        mic.is_suffix_of(noise_body_of(m.wire(), fast, tenths, mic)),
        noise_body_of(m.wire(), fast, tenths, mic).len() >= mic.len(),
{
    let body = noise_body_of(m.wire(), fast, tenths, mic);
    let head = "Chose "@ + m.label() + " ("@;
    assert(body.take(head.len() as int) =~= head);
    assert(body.skip(body.len() - mic.len()) =~= mic);
}

/// When Fn+F12 is heard: at least two seconds after the press before it, and not within
/// three seconds of a wake-up. A press that is heard switches the screen where that is
/// set; else it sleeps where that is set.
pub proof fn presses_do_what_is_set(s: FnKeyState, now: u64)
    ensures
        ({
            let (after, a) = press_outcome(s, now);
            let heard = now >= s.suppress_until && (s.last == 0 || now >= s.last + 2000);
            &&& a is Suppressed <==> now < s.suppress_until
            &&& a is Debounced <==> now >= s.suppress_until && !heard
            &&& !heard ==> after == s
            &&& heard ==> after.last == now && after.keys == s.keys
            &&& a is ScreenOff <==> heard && s.keys.screen && s.screen_on
            &&& a is ScreenOn <==> heard && s.keys.screen && !s.screen_on
            &&& a is Sleep <==> heard && !s.keys.screen && s.keys.sleep
            &&& after.screen_on != s.screen_on <==> a is ScreenOn || a is ScreenOff
            &&& a is ScreenOn ==> after.screen_on
            &&& a is ScreenOff ==> !after.screen_on
            &&& after.saved_brightness == s.saved_brightness && after.black_window
                == s.black_window && after.suppress_until == s.suppress_until
        }),
        now <= u64::MAX - 3000 ==> woken(s, now).suppress_until == now + 3000 && woken(s, now).last
            == now && woken(s, now).screen_on == s.screen_on && woken(s, now).keys == s.keys,
{
}

/// Two presses that are heard leave the screen as it was.
pub proof fn two_presses_restore_the_screen(s: FnKeyState, first: u64, second: u64)
    requires
        0 < first,
        first + 2000 <= second,
        !is_dropped(s, first),
    ensures
        press_outcome(press_outcome(s, first).0, second).0.screen_on == s.screen_on,
        s.keys.screen ==> (press_outcome(s, first).1 is ScreenOff <==> press_outcome(
            press_outcome(s, first).0,
            second,
        ).1 is ScreenOn),
{
}

/// What switches the screen off, by the method that is set: its power, a dark screen behind
/// a black window, or a black window alone. A black window that is there is not shown
/// again, and the brightness is kept only where it can be gone back to.
pub proof fn screens_go_off_by_their_method(s: FnKeyState, brightness: Option<[u8; 2]>, step: ScreenStep)
    ensures
        ({
            let (after, steps) = off_outcome(s, brightness);
            &&& steps.contains(ScreenStep::PowerOff) <==> s.keys.method == METHOD_DPMS
            &&& steps.contains(ScreenStep::SetBrightness(0)) <==> s.keys.method == METHOD_BRIGHTNESS
            &&& steps.contains(ScreenStep::ShowBlackWindow) <==> !s.black_window && (s.keys.method
                == METHOD_BRIGHTNESS || s.keys.method == METHOD_BLACK)
            &&& steps.contains(step) ==> step is PowerOff || step is ShowBlackWindow || step
                == ScreenStep::SetBrightness(0)
            &&& after.black_window <==> s.black_window || s.keys.method == METHOD_BRIGHTNESS
                || s.keys.method == METHOD_BLACK
            &&& after.saved_brightness != s.saved_brightness ==> s.keys.method == METHOD_BRIGHTNESS
                && brightness is Some && crate::protocol::ok_status(brightness->0[0])
                && after.saved_brightness == brightness->0[1] && after.saved_brightness > 0
            &&& after.screen_on == s.screen_on && after.keys == s.keys && after.last == s.last
        }),
{
    let (after, steps) = off_outcome(s, brightness);
    if s.keys.method == METHOD_DPMS {
        assert(steps[0] is PowerOff);
    }
    if s.keys.method == METHOD_BRIGHTNESS {
        assert(steps[0] == ScreenStep::SetBrightness(0));
        if !s.black_window {
            assert(steps[1] is ShowBlackWindow);
        }
    }
    if s.keys.method == METHOD_BLACK && !s.black_window {
        assert(steps[0] is ShowBlackWindow);
    }
}

/// What switches the screen on: the brightness that was kept, if any, then the black window
/// goes, if it is there, and the display goes on in any case.
pub proof fn screens_come_on_whatever_the_method(s: FnKeyState, step: ScreenStep)
    ensures
        ({
            let (after, steps) = on_outcome(s);
            &&& steps.last() is PowerOn
            &&& steps.contains(ScreenStep::DestroyBlackWindow) <==> s.black_window
            &&& s.saved_brightness > 0 ==> steps[0] == ScreenStep::SetBrightness(s.saved_brightness)
            &&& steps.contains(step) && step is SetBrightness ==> step == ScreenStep::SetBrightness(
                s.saved_brightness,
            ) && s.saved_brightness > 0
            &&& !steps.contains(ScreenStep::PowerOff) && !steps.contains(
                ScreenStep::ShowBlackWindow,
            )
            &&& !after.black_window && after.saved_brightness == 0
            &&& after.screen_on == s.screen_on && after.keys == s.keys && after.last == s.last
        }),
{
    let steps = on_outcome(s).1;
    if s.black_window {
        if s.saved_brightness > 0 {
            assert(steps[1] is DestroyBlackWindow);
        } else {
            assert(steps[0] is DestroyBlackWindow);
        }
    }
}

/// The tray ends for a service that answers with another build, be it by one byte, and for
/// no other.
pub proof fn trays_end_for_another_build(own: [u8; 2], answer: [u8; 2])
    ensures
        !is_another_build(own, None),
        !is_another_build(own, Some(own)),
        answer[0] != own[0] ==> is_another_build(own, Some(answer)),
        answer[1] != own[1] ==> is_another_build(own, Some(answer)),
{
}

/// A mode is called by the same name wherever it is shown.
pub proof fn modes_have_one_name(m: ThermalMode)
    ensures
        label_of(m.wire() as int) == m.label(),
{
}

/// A number of tenths is written with its sign, its whole part and one digit.
pub proof fn tenths_have_one_digit(whole: int, digit: int)
    requires
        0 <= whole,
        0 <= digit < 10,
    ensures
        tenths_text(10 * whole + digit) == "+"@ + crate::text::decimal(whole) + "."@
            + crate::text::decimal(digit),
        10 * whole + digit > 0 ==> tenths_text(-(10 * whole + digit)) == "-"@
            + crate::text::decimal(whole) + "."@ + crate::text::decimal(digit),
{
}

/// The messages that reach the tray are known by their numbers: what the icon says opens
/// the menu on the key or the click for it and only there, and the tray's own messages
/// say that a measurement or a calibration ended or that the screen is wanted.
pub proof fn messages_are_known_by_their_numbers(msg: u32, wparam: u64, lparam: u64)
    ensures
        window_event(msg, wparam, lparam) is OpenMenu <==> msg == 0x401 && lparam % 0x10000 == 0x7B,
        window_event(msg, wparam, lparam) is Warm <==> msg == 0x401 && (lparam % 0x10000 == 0x200
            || lparam % 0x10000 == 0x400 || lparam % 0x10000 == 0x401 || lparam % 0x10000 == 0x406),
        window_event(msg, wparam, lparam) is NoiseDone <==> msg == 0x402,
        window_event(msg, wparam, lparam) is CalibrateDone <==> msg == 0x403,
        window_event(msg, wparam, lparam) is ScreenOn <==> msg == 0x404,
        window_event(msg, wparam, lparam) is IdleSweep <==> msg == 0x113 && wparam == 1,
{
}

/// What a calibration found arrives whole: the power of Performance in the low half, that
/// of Balanced in the high one, and whether it came to an end.
pub proof fn powers_arrive_by_their_modes(ok: bool, perf: u32, bal: u32)
    ensures
        window_event(
            0x403,
            if ok {
                1
            } else {
                0
            },
            (perf + 0x1_0000_0000 * bal) as u64,
        ) == (WindowEvent::CalibrateDone { ok, perf_bits: perf, bal_bits: bal }),
{
    let l = perf + 0x1_0000_0000 * bal;
    assert(l % 0x1_0000_0000 == perf && l / 0x1_0000_0000 == bal);
}

/// Tooltips and balloons get as much text as the shell takes with a zero behind it.
pub proof fn texts_fit_the_shell(text: Seq<char>)
    ensures
        clipped_units(text, TIP_MAX as int).len() <= 128,
        clipped_units(text, BALLOON_TITLE_MAX as int).len() <= 64,
        clipped_units(text, BALLOON_BODY_MAX as int).len() <= 256,
        crate::wide::utf16(text).len() <= 63 ==> clipped_units(
            text,
            BALLOON_TITLE_MAX as int,
        ).drop_last() == crate::wide::utf16(text),
        crate::wide::utf16(text).len() <= 127 ==> clipped_units(text, TIP_MAX as int).drop_last()
            == crate::wide::utf16(text),
        crate::wide::utf16(text).len() <= 255 ==> clipped_units(
            text,
            BALLOON_BODY_MAX as int,
        ).drop_last() == crate::wide::utf16(text),
{
    clipped_texts_end_in_zero(text, TIP_MAX as int);
    clipped_texts_end_in_zero(text, BALLOON_TITLE_MAX as int);
    clipped_texts_end_in_zero(text, BALLOON_BODY_MAX as int);
}

} // verus!
