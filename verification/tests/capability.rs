use std::cell::{Cell, RefCell};

use hp_thermal::calls::Line;
use hp_thermal::capability::{
    json_escape, mode_of, probe_next, probe_request, probe_write, read_ok, report, report_json,
    tier, tier_from, write_ok, ProbeStep, Proofs, Tier,
};
use hp_thermal::hwinfo::HwInfo;
use hp_thermal::protocol::{CMD_READ_THERMAL, CMD_SET_THERMAL};

/// Stands for the service: a mode, and which requests succeed.
struct MockEc {
    mode: Cell<u8>,
    read_ok: bool,
    write_ok: bool,
}

impl MockEc {
    fn transact(&self) -> impl Fn(u8, u8) -> Option<[u8; 2]> + '_ {
        move |cmd, payload| match cmd {
            CMD_READ_THERMAL if self.read_ok => Some([0, self.mode.get()]),
            CMD_SET_THERMAL if self.write_ok => {
                self.mode.set(payload & 0x03);
                Some([0, 0])
            }
            _ => None,
        }
    }
}

#[test]
fn read_only_hardware_proves_read_but_not_write() {
    let mut proofs = Proofs::new();
    let ec = MockEc { mode: Cell::new(1), read_ok: true, write_ok: false };
    let t = ec.transact();
    assert!(read_ok(&mut proofs, &mut Line::new(&t)), "read must pass");
    assert!(!write_ok(&mut proofs, &mut Line::new(&t)), "write must fail on read-only hardware");
    assert_eq!(ec.mode.get(), 1, "a failed write leaves the mode untouched");
}

#[test]
fn full_control_proves_write_and_restores_original() {
    let mut proofs = Proofs::new();
    let ec = MockEc { mode: Cell::new(2), read_ok: true, write_ok: true };
    let t = ec.transact();
    assert!(write_ok(&mut proofs, &mut Line::new(&t)), "write must pass on controllable hardware");
    assert_eq!(ec.mode.get(), 2, "the write probe must restore the original mode");
}

#[test]
fn no_service_fails_every_tier() {
    let mut proofs = Proofs::new();
    let ec = MockEc { mode: Cell::new(0), read_ok: false, write_ok: false };
    let t = ec.transact();
    assert!(!read_ok(&mut proofs, &mut Line::new(&t)));
    assert!(!write_ok(&mut proofs, &mut Line::new(&t)));
}

fn sample_hw() -> HwInfo {
    HwInfo {
        manufacturer: "HP".into(),
        product: "HP ENVY 16".into(),
        board: "8BE5".into(),
        family: "103C_5335KV".into(),
        bios_version: "F.26".into(),
        board_version: "72.35".into(),
    }
}

#[test]
fn report_gates_submission_on_write_proof() {
    let hw = sample_hw();
    let fp = hw.fingerprint();

    let ok = report(&hw, Tier::Verified, "0.3.1+140.abc");
    assert!(ok.contains(&fp), "KNOWN_GOOD line present verbatim");
    assert!(ok.contains("VERIFIED"));
    assert!(ok.contains("Verified by:      hp-thermal 0.3.1+140.abc"));
    assert!(ok.contains("To contribute"));
    assert!(!ok.contains("Not submittable"));

    for tier in [Tier::ReadOnly, Tier::Unverified] {
        let s = report(&hw, tier, "0.3.1+140.abc");
        assert!(s.contains("Not submittable"), "non-verified must not be submittable");
    }
}

#[test]
fn report_json_escapes_and_marks_submittable() {
    let mut hw = sample_hw();
    hw.product = "HP \"Quoty\" 16".into();
    let j = report_json(&hw, Tier::Verified, "0.3.1");
    assert!(j.contains("\\\"Quoty\\\""), "quotes must be JSON-escaped");
    assert!(j.contains("\"submittable\":true"));
    assert!(report_json(&hw, Tier::ReadOnly, "0.3.1").contains("\"submittable\":false"));
}

#[test]
fn tiers_follow_the_proofs() {
    assert_eq!(tier_from(true, true), Tier::Verified);
    assert_eq!(tier_from(false, true), Tier::ReadOnly);
    assert_eq!(tier_from(false, false), Tier::Unverified);
    let mut proofs = Proofs::new();
    let ec = MockEc { mode: Cell::new(3), read_ok: true, write_ok: true };
    assert_eq!(tier(&mut proofs, &mut Line::new(&ec.transact())), Tier::Verified);
    assert_eq!(ec.mode.get(), 3);
}

#[test]
fn writes_are_tried_once() {
    // The service was down at first: the write counts as failed from then on, the
    // read is tried again.
    let mut proofs = Proofs::new();
    let down = MockEc { mode: Cell::new(0), read_ok: false, write_ok: false };
    assert_eq!(tier(&mut proofs, &mut Line::new(&down.transact())), Tier::Unverified);
    assert_eq!(proofs, Proofs { read: false, write: Some(false) });
    let up = MockEc { mode: Cell::new(0), read_ok: true, write_ok: true };
    assert_eq!(tier(&mut proofs, &mut Line::new(&up.transact())), Tier::ReadOnly);
    assert_eq!(proofs, Proofs { read: true, write: Some(false) });
    // Once verified, it stays so without another word from the service.
    let mut proofs = Proofs::new();
    assert_eq!(tier(&mut proofs, &mut Line::new(&up.transact())), Tier::Verified);
    assert_eq!(tier(&mut proofs, &mut Line::new(&down.transact())), Tier::Verified);
}

#[test]
fn a_write_that_does_not_take_is_no_proof() {
    // The service says that it wrote, but the mode stays.
    let t = |cmd: u8, _payload: u8| -> Option<[u8; 2]> {
        match cmd {
            CMD_READ_THERMAL => Some([0, 1]),
            CMD_SET_THERMAL => Some([0, 0]),
            _ => None,
        }
    };
    assert!(!probe_write(&mut Line::new(&t)));
}

#[test]
fn probe_visits_a_mode_of_the_same_band() {
    let seen = Cell::new(255u8);
    let mode = Cell::new(1u8);
    let t = |cmd: u8, payload: u8| -> Option<[u8; 2]> {
        match cmd {
            CMD_READ_THERMAL => Some([0, mode.get()]),
            CMD_SET_THERMAL => {
                if seen.get() == 255 {
                    seen.set(payload);
                }
                mode.set(payload);
                Some([0, 0])
            }
            _ => None,
        }
    };
    assert!(probe_write(&mut Line::new(&t)));
    assert_eq!(seen.get(), 3, "Balanced is probed with Power Saver");
    assert_eq!(mode.get(), 1);
}

#[test]
fn probes_go_step_by_step() {
    let ok = |v: u8| Some([0u8, v]);
    let run = |answers: &[Option<[u8; 2]>]| {
        let mut step = ProbeStep::Find;
        let mut asked = Vec::new();
        for a in answers {
            asked.extend(probe_request(step));
            step = probe_next(step, *a);
        }
        (step, asked)
    };
    let (step, asked) = run(&[ok(1), ok(0), ok(3), ok(0), ok(1)]);
    assert_eq!(step, ProbeStep::Done(true));
    assert_eq!(
        asked,
        vec![
            (CMD_READ_THERMAL, 0),
            (CMD_SET_THERMAL, 3),
            (CMD_READ_THERMAL, 0),
            (CMD_SET_THERMAL, 1),
            (CMD_READ_THERMAL, 0),
        ]
    );
    // The mode is set again whatever went wrong, and the probe has failed.
    for bad in 1..5 {
        let mut answers = [ok(1), ok(0), ok(3), ok(0), ok(1)];
        answers[bad] = None;
        let (step, asked) = run(&answers);
        assert_eq!(step, ProbeStep::Done(false));
        assert_eq!(asked[3], (CMD_SET_THERMAL, 1));
    }
    // A probe that does not find the mode sets nothing.
    assert_eq!(run(&[None]).0, ProbeStep::Done(false));
    assert_eq!(run(&[Some([3, 1])]).0, ProbeStep::Done(false));
    assert_eq!(probe_request(ProbeStep::Done(false)), None);
}

/// A service in mode 1 that notes what it is asked.
fn noting(asked: &RefCell<Vec<(u8, u8)>>, cmd: u8, payload: u8) -> Option<[u8; 2]> {
    asked.borrow_mut().push((cmd, payload));
    let mode = asked.borrow().iter().rev().find(|(c, _)| *c == CMD_SET_THERMAL).map_or(1, |r| r.1);
    Some([0, if cmd == CMD_READ_THERMAL { mode } else { 0 }])
}

#[test]
fn requests_go_in_order_and_once() {
    let asked = RefCell::new(Vec::new());
    let t = |c: u8, p: u8| noting(&asked, c, p);
    let mut proofs = Proofs::new();
    assert_eq!(tier(&mut proofs, &mut Line::new(&t)), Tier::Verified);
    assert_eq!(*asked.borrow(), vec![(1, 0), (1, 0), (2, 3), (1, 0), (2, 1), (1, 0)]);
    // Whatever is asked for from now on, nothing goes over the line.
    assert_eq!(tier(&mut proofs, &mut Line::new(&t)), Tier::Verified);
    assert!(read_ok(&mut proofs, &mut Line::new(&t)));
    assert!(write_ok(&mut proofs, &mut Line::new(&t)));
    assert_eq!(asked.borrow().len(), 6);
}

#[test]
fn modes_are_the_low_bits() {
    assert_eq!(mode_of([0, 0xFE]), 2);
}

#[test]
fn control_characters_are_escaped() {
    assert_eq!(json_escape("a\"b\\c\nd\re\tf\u{1}g"), "a\\\"b\\\\c\\nd\\re\\tf\\u0001g");
}
