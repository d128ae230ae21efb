use std::cell::Cell;

use hp_thermal::calls::{Machine, Reading};
use hp_thermal::log::StackMonitor;
use hp_thermal::protocol::{
    build_fingerprint, status_ok, unpack_state, Request, CMD_READ_BRIGHTNESS, CMD_READ_BUILD_ID,
    CMD_READ_COOLSENSE, CMD_READ_STATE, CMD_READ_TEMP, CMD_READ_THERMAL, CMD_SET_BRIGHTNESS,
    CMD_SET_COOLSENSE, CMD_SET_LOGGING, CMD_SET_STACK_MONITOR, CMD_SET_THERMAL, STATUS_CACHED,
    STATUS_INVALID_CMD, STATUS_INVALID_PAYLOAD, STATUS_OK, STATUS_WMI_ERROR,
};
use hp_thermal::service::{
    dispatch, dispatch_with, is_stop_control, respond, sample_label, serve_next, service_status,
    start_next, token_reduced, wmi_error_line, write_line, Answers, CacheSet, ReadTimes,
    ServeStep, StartStep, ThermalOps, COOLDOWN_TEMP_MS, COOLDOWN_THERMAL_MS, SERVICE_RUNNING,
    SERVICE_STOPPED,
};

/// Stands for the firmware, and counts the reads.
#[derive(Default)]
struct MockWmi {
    thermal: Cell<u8>,
    coolsense: Cell<u8>,
    temp: Cell<u8>,
    brightness: Cell<u8>,
    fail: Cell<bool>,
    read_thermal_calls: Cell<u32>,
    read_coolsense_calls: Cell<u32>,
    read_temp_calls: Cell<u32>,
}

impl ThermalOps for MockWmi {
    fn read_thermal(&self) -> Result<u8, u8> {
        self.read_thermal_calls.set(self.read_thermal_calls.get() + 1);
        if self.fail.get() {
            Err(STATUS_WMI_ERROR)
        } else {
            Ok(self.thermal.get())
        }
    }
    fn set_thermal(&self, mode: u8) -> Result<(), u8> {
        self.thermal.set(mode);
        Ok(())
    }
    fn read_coolsense(&self) -> Result<u8, u8> {
        self.read_coolsense_calls.set(self.read_coolsense_calls.get() + 1);
        Ok(self.coolsense.get())
    }
    fn set_coolsense(&self, on: u8) -> Result<(), u8> {
        self.coolsense.set(on);
        Ok(())
    }
    fn read_temp(&self) -> Result<u8, u8> {
        self.read_temp_calls.set(self.read_temp_calls.get() + 1);
        Ok(self.temp.get())
    }
    fn read_brightness(&self) -> Result<u8, u8> {
        Ok(self.brightness.get())
    }
    fn set_brightness(&self, level: u8) -> Result<(), u8> {
        self.brightness.set(level);
        Ok(())
    }
}

fn req(cmd: u8, payload: u8) -> Request {
    Request::try_from([cmd, payload]).expect("valid request")
}

fn fingerprint() -> [u8; 2] {
    build_fingerprint("140.abc", "20260101_120000")
}

/// Dispatches a request at a fixed time.
fn at(wmi: &MockWmi, cache: &mut CacheSet, now: u64, request: &Request) -> [u8; 2] {
    let mut monitor = StackMonitor::new();
    dispatch(&mut Machine::new(wmi), cache, &mut monitor, fingerprint(), &|| now, request).0
}

#[test]
fn read_thermal_returns_mode_then_serves_from_cache() {
    let wmi = MockWmi::default();
    wmi.thermal.set(2);
    let mut cache = CacheSet::new();

    assert_eq!(at(&wmi, &mut cache, 1000, &req(CMD_READ_THERMAL, 0)), [STATUS_OK, 2]);
    assert_eq!(wmi.read_thermal_calls.get(), 1);

    let r2 = at(&wmi, &mut cache, 1001, &req(CMD_READ_THERMAL, 0));
    assert_eq!(r2[0], STATUS_OK | STATUS_CACHED);
    assert_eq!(r2[1], 2);
    assert_eq!(wmi.read_thermal_calls.get(), 1, "cache must suppress the second WMI read");
}

#[test]
fn read_state_batches_thermal_and_coolsense() {
    let wmi = MockWmi::default();
    wmi.thermal.set(2);
    wmi.coolsense.set(1);
    let mut cache = CacheSet::new();

    let r = at(&wmi, &mut cache, 1000, &req(CMD_READ_STATE, 0));
    assert!(status_ok(r[0]), "batched read should succeed");
    assert_eq!(unpack_state(r[1]), (2, 1), "packed thermal=2, coolsense=1");
    assert_eq!(wmi.read_thermal_calls.get(), 1);
    assert_eq!(wmi.read_coolsense_calls.get(), 1);
}

#[test]
fn read_state_propagates_wmi_error() {
    let wmi = MockWmi::default();
    wmi.fail.set(true);
    let mut cache = CacheSet::new();
    assert_eq!(
        at(&wmi, &mut cache, 1000, &req(CMD_READ_STATE, 0)),
        [STATUS_WMI_ERROR, 0],
        "a failed sub-read propagates as an error, not a partial packed value",
    );
}

#[test]
fn set_thermal_invalidates_the_read_cache() {
    let wmi = MockWmi::default();
    wmi.thermal.set(1);
    let mut cache = CacheSet::new();

    let _ = at(&wmi, &mut cache, 1000, &req(CMD_READ_THERMAL, 0));
    assert_eq!(wmi.read_thermal_calls.get(), 1);

    assert_eq!(at(&wmi, &mut cache, 1001, &req(CMD_SET_THERMAL, 3)), [STATUS_OK, 0]);
    assert_eq!(wmi.thermal.get(), 3);

    assert_eq!(at(&wmi, &mut cache, 1002, &req(CMD_READ_THERMAL, 0)), [STATUS_OK, 3]);
    assert_eq!(wmi.read_thermal_calls.get(), 2, "a write must invalidate the read cache");
}

#[test]
fn wmi_error_is_propagated_and_not_cached() {
    let wmi = MockWmi::default();
    wmi.fail.set(true);
    let mut cache = CacheSet::new();

    assert_eq!(at(&wmi, &mut cache, 1000, &req(CMD_READ_THERMAL, 0)), [STATUS_WMI_ERROR, 0]);
    let _ = at(&wmi, &mut cache, 1001, &req(CMD_READ_THERMAL, 0));
    assert_eq!(wmi.read_thermal_calls.get(), 2, "errors must not be cached");
}

#[test]
fn coolsense_read_set_roundtrip_with_cache_invalidation() {
    let wmi = MockWmi::default();
    wmi.coolsense.set(1);
    let mut cache = CacheSet::new();

    assert_eq!(at(&wmi, &mut cache, 1000, &req(CMD_READ_COOLSENSE, 0)), [STATUS_OK, 1]);
    assert_eq!(at(&wmi, &mut cache, 1001, &req(CMD_SET_COOLSENSE, 0)), [STATUS_OK, 0]);
    assert_eq!(wmi.coolsense.get(), 0);
    assert_eq!(at(&wmi, &mut cache, 1002, &req(CMD_READ_COOLSENSE, 0)), [STATUS_OK, 0]);
    assert_eq!(wmi.read_coolsense_calls.get(), 2);
}

#[test]
fn temp_read_is_cached() {
    let wmi = MockWmi::default();
    wmi.temp.set(60);
    let mut cache = CacheSet::new();

    assert_eq!(at(&wmi, &mut cache, 1000, &req(CMD_READ_TEMP, 0)), [STATUS_OK, 60]);
    let r2 = at(&wmi, &mut cache, 1001, &req(CMD_READ_TEMP, 0));
    assert_eq!(r2[0], STATUS_OK | STATUS_CACHED);
    assert_eq!(r2[1], 60);
    assert_eq!(wmi.read_temp_calls.get(), 1);
}

#[test]
fn brightness_read_and_set_are_uncached_passthroughs() {
    let wmi = MockWmi::default();
    wmi.brightness.set(50);
    let mut cache = CacheSet::new();

    assert_eq!(at(&wmi, &mut cache, 1000, &req(CMD_READ_BRIGHTNESS, 0)), [STATUS_OK, 50]);
    assert_eq!(at(&wmi, &mut cache, 1001, &req(CMD_SET_BRIGHTNESS, 80)), [STATUS_OK, 0]);
    assert_eq!(wmi.brightness.get(), 80);
}

#[test]
fn read_build_id_returns_fingerprint_without_touching_wmi() {
    let wmi = MockWmi::default();
    let mut cache = CacheSet::new();

    assert_eq!(at(&wmi, &mut cache, 1000, &req(CMD_READ_BUILD_ID, 0)), fingerprint());
    assert_eq!(wmi.read_thermal_calls.get(), 0);
}

#[test]
fn caches_end_with_their_cooldown() {
    let wmi = MockWmi::default();
    wmi.thermal.set(1);
    wmi.temp.set(40);
    let mut cache = CacheSet::new();
    let _ = at(&wmi, &mut cache, 1000, &req(CMD_READ_THERMAL, 0));
    let _ = at(&wmi, &mut cache, 1000, &req(CMD_READ_TEMP, 0));
    let end = 1000 + COOLDOWN_THERMAL_MS;
    assert_eq!(
        at(&wmi, &mut cache, end - 1, &req(CMD_READ_THERMAL, 0)),
        [STATUS_OK | STATUS_CACHED, 1]
    );
    assert_eq!(at(&wmi, &mut cache, end, &req(CMD_READ_THERMAL, 0)), [STATUS_OK, 1]);
    assert_eq!(
        at(&wmi, &mut cache, 1000 + COOLDOWN_TEMP_MS - 1, &req(CMD_READ_TEMP, 0)),
        [STATUS_OK | STATUS_CACHED, 40]
    );
    assert_eq!(
        at(&wmi, &mut cache, 1000 + COOLDOWN_TEMP_MS, &req(CMD_READ_TEMP, 0)),
        [STATUS_OK, 40]
    );
}

#[test]
fn the_stack_monitor_is_switched() {
    let wmi = MockWmi::default();
    let mut cache = CacheSet::new();
    let mut monitor = StackMonitor::new();
    let (reply, line) = dispatch(
        &mut Machine::new(&wmi),
        &mut cache,
        &mut monitor,
        fingerprint(),
        &|| 0,
        &req(CMD_SET_STACK_MONITOR, 1),
    );
    assert_eq!(reply, [STATUS_OK, 0]);
    assert!(monitor.on);
    assert!(line.is_some());
}

#[test]
fn logging_is_no_longer_switched() {
    let wmi = MockWmi::default();
    let mut cache = CacheSet::new();
    assert_eq!(
        at(&wmi, &mut cache, 0, &req(CMD_SET_LOGGING, 1)),
        [STATUS_INVALID_CMD, 0]
    );
}

#[test]
fn bad_requests_are_answered_with_their_error() {
    let wmi = MockWmi::default();
    let mut cache = CacheSet::new();
    let mut monitor = StackMonitor::new();
    let mut ask = |buf: [u8; 2]| {
        respond(&mut Machine::new(&wmi), &mut cache, &mut monitor, fingerprint(), &|| 0, buf).0
    };
    assert_eq!(ask([0x0B, 0]), [STATUS_INVALID_CMD, 0]);
    assert_eq!(ask([CMD_SET_THERMAL, 4]), [STATUS_INVALID_PAYLOAD, 0]);
    assert_eq!(ask([CMD_READ_THERMAL, 9]), [STATUS_OK, 0]);
}

#[test]
fn each_refusal_has_its_code() {
    let mut codes: Vec<u32> = Vec::new();
    for step in [
        StartStep::CheckDirectory,
        StartStep::CheckImage,
        StartStep::CheckIntegrity,
        StartStep::ReduceToken,
    ] {
        match start_next(step, false) {
            StartStep::Stopped(code) => codes.push(code),
            other => panic!("{step:?} leads to {other:?}"),
        }
    }
    let n = codes.len();
    codes.sort();
    codes.dedup();
    assert_eq!(codes.len(), n);
    assert_eq!(start_next(StartStep::Register, false), StartStep::Unregistered);
}

#[test]
fn clients_are_validated_before_they_are_read() {
    assert_eq!(serve_next(ServeStep::Wait, true), ServeStep::Validate);
    assert_eq!(serve_next(ServeStep::Wait, false), ServeStep::End);
    assert_eq!(serve_next(ServeStep::Validate, true), ServeStep::Read);
    assert_eq!(serve_next(ServeStep::Validate, false), ServeStep::Disconnect);
    assert_eq!(serve_next(ServeStep::Read, false), ServeStep::Disconnect);
    assert_eq!(serve_next(ServeStep::Read, true), ServeStep::Answer);
    assert_eq!(serve_next(ServeStep::Answer, true), ServeStep::Disconnect);
    assert_eq!(serve_next(ServeStep::Disconnect, true), ServeStep::Wait);
}

#[test]
fn only_a_running_service_takes_a_shutdown() {
    let running = service_status(SERVICE_RUNNING, 0);
    assert_eq!(running.accepts, 5);
    assert_eq!(running.win32_exit_code, 0);
    let stopped = service_status(SERVICE_STOPPED, 7);
    assert_eq!(stopped.accepts, 1);
    assert_eq!(stopped.win32_exit_code, 1066);
    assert_eq!(stopped.specific_exit_code, 7);
    assert!(is_stop_control(1));
    assert!(is_stop_control(5));
    assert!(!is_stop_control(4));
}

#[test]
fn leftover_privileges_refuse_the_start() {
    assert!(token_reduced(0));
    assert!(!token_reduced(1));
}

#[test]
fn labels_name_the_command() {
    assert_eq!(sample_label(CMD_READ_THERMAL), "svc:read_thermal");
    assert_eq!(sample_label(CMD_SET_THERMAL), "svc:set_thermal");
    assert_eq!(sample_label(CMD_READ_TEMP), "svc:other");
    assert_eq!(wmi_error_line(0x13).text, "FAIL: WMI connect error=0x13");
}

#[test]
fn writes_are_announced() {
    let text = |buf| write_line(buf).map(|l| l.text);
    assert_eq!(text([CMD_SET_THERMAL, 3]).as_deref(), Some("set thermal mode=3"));
    assert_eq!(text([CMD_SET_COOLSENSE, 1]).as_deref(), Some("set coolsense=1"));
    assert_eq!(text([CMD_SET_BRIGHTNESS, 100]).as_deref(), Some("set brightness=100"));
    // Not one that is turned away, nor a read.
    assert_eq!(text([CMD_SET_THERMAL, 4]), None);
    assert_eq!(text([CMD_READ_THERMAL, 0]), None);
}

#[test]
fn answers_decide_the_reply() {
    let mut cache = CacheSet::new();
    let answers = Answers {
        thermal: Ok(2),
        coolsense: Ok(1),
        temp: Err(STATUS_WMI_ERROR),
        brightness: Ok(40),
        set: Ok(()),
    };
    let at = |ms| ReadTimes { asked: ms, stored: ms };
    let mut ask = |command, ms| {
        let req = Request { command, payload: 0 };
        dispatch_with(&mut cache, [7, 9], &req, &answers, at(ms), at(ms))
    };
    assert_eq!(ask(CMD_READ_STATE, 10), [STATUS_OK, 0x12]);
    assert_eq!(ask(CMD_READ_THERMAL, 109), [STATUS_CACHED, 2]);
    assert_eq!(ask(CMD_READ_COOLSENSE, 110), [STATUS_OK, 1]);
    assert_eq!(ask(CMD_READ_TEMP, 111), [STATUS_WMI_ERROR, 0]);
    assert_eq!(ask(CMD_READ_BUILD_ID, 112), [7, 9]);
    assert_eq!(ask(CMD_SET_THERMAL, 113), [STATUS_OK, 0]);
    assert_eq!(ask(CMD_READ_THERMAL, 114), [STATUS_OK, 2]);
}

#[test]
fn requests_ask_their_own() {
    let wmi = MockWmi::default();
    wmi.brightness.set(50);
    let mut cache = CacheSet::new();
    assert_eq!(at(&wmi, &mut cache, 1000, &req(CMD_SET_THERMAL, 3)), [STATUS_OK, 0]);
    assert_eq!((wmi.thermal.get(), wmi.coolsense.get(), wmi.brightness.get()), (3, 0, 50));
    assert_eq!(wmi.read_thermal_calls.get(), 0);
    assert_eq!(wmi.read_coolsense_calls.get(), 0);
    assert_eq!(wmi.read_temp_calls.get(), 0);
}

#[test]
fn fresh_slots_ask_nothing() {
    let wmi = MockWmi::default();
    wmi.temp.set(60);
    let mut machine = Machine::new(&wmi);
    let mut slot = None;
    let mut read = |now: u64| {
        CacheSet::cached_read(&mut slot, COOLDOWN_TEMP_MS, &|| now, &mut machine, Reading::Temp)
    };
    assert_eq!(read(1000), [STATUS_OK, 60]);
    assert_eq!(read(1499), [STATUS_CACHED, 60]);
    assert_eq!(wmi.read_temp_calls.get(), 1);
    assert_eq!(read(1500), [STATUS_OK, 60]);
    assert_eq!(wmi.read_temp_calls.get(), 2);
}
