use hp_thermal::audio::{
    adjusts_gain, choose_path, debug_info, fan_power, fast_path, interpolates, look_up, Lookup,
    Path,
};
use hp_thermal::calibration::{
    cal_for, estimate_crossover, has_fan_powers, insert_point, is_usable, load_cal, new_cal,
    save_cal, set_fan_powers, sort_points, CalPoint, NoiseCal, CAL_BYTES, MAX_CAL_AGE, MAX_POINTS,
};
use hp_thermal::measure::{after_calibration, note_comparison, Ambient};
use hp_thermal::single::{abs, is_positive, less, not_less, sort};

fn bits(x: f32) -> u32 {
    x.to_bits()
}

fn point(ambient: f32, delta: f32, chosen: u8) -> CalPoint {
    CalPoint { ambient_dbfs: bits(ambient), delta_db: bits(delta), chosen, temp_c: 60 }
}

/// Takes a point in, with the distances that go with it.
fn insert(cal: &mut NoiseCal, pt: CalPoint) {
    let n = cal.num_points as usize;
    let level = |i: usize| f32::from_bits(cal.points[i].ambient_dbfs);
    let gaps: Vec<u32> =
        (0..n.saturating_sub(1)).map(|i| bits((level(i + 1) - level(i)).abs())).collect();
    let crossover = estimate_crossover(cal, &gaps).map(|i| (level(i) + level(i + 1)) / 2.0);
    let from = crossover.unwrap_or(f32::from_bits(pt.ambient_dbfs));
    let distances: Vec<u32> = (0..n).map(|i| bits((level(i) - from).abs())).collect();
    let new = bits((f32::from_bits(pt.ambient_dbfs) - from).abs());
    insert_point(cal, pt, crossover.map(bits), &distances, new);
}

fn levels(cal: &NoiseCal) -> Vec<f32> {
    cal.points[..cal.num_points as usize]
        .iter()
        .map(|p| f32::from_bits(p.ambient_dbfs))
        .collect()
}

#[test]
fn patterns_compare_as_numbers() {
    let values = [
        f32::NEG_INFINITY,
        -3.5,
        -1e-30,
        -0.0,
        0.0,
        1e-40,
        1e-10,
        2.0,
        f32::MAX,
        f32::INFINITY,
        f32::NAN,
    ];
    for a in values {
        assert_eq!(f32::from_bits(abs(bits(a))).to_bits(), a.abs().to_bits());
        assert_eq!(is_positive(bits(a)), a > 0.0);
        for b in values {
            assert_eq!(less(bits(a), bits(b)), a < b, "{a} {b}");
            assert_eq!(not_less(bits(a), bits(b)), a >= b, "{a} {b}");
        }
    }
}

#[test]
fn patterns_are_sorted_as_numbers() {
    let v: Vec<u32> = [3.0f32, -1.0, 0.5, -7.25, 0.5].iter().map(|x| bits(*x)).collect();
    let sorted: Vec<f32> = sort(&v).iter().map(|b| f32::from_bits(*b)).collect();
    assert_eq!(sorted, vec![-7.25, -1.0, 0.5, 0.5, 3.0]);
}

#[test]
fn points_are_kept_in_order() {
    let mut cal = new_cal(7, bits(0.8));
    for (level, chosen) in [(-30.0, 0u8), (-50.0, 1), (-40.0, 1)] {
        insert(&mut cal, point(level, 2.0, chosen));
    }
    assert_eq!(levels(&cal), vec![-50.0, -40.0, -30.0]);
    assert_eq!(cal.num_points, 3);
}

#[test]
fn crossover_lies_between_differing_neighbours() {
    let mut cal = new_cal(7, bits(0.8));
    assert_eq!(estimate_crossover(&cal, &[]), None);
    for (level, chosen) in [(-50.0, 1u8), (-40.0, 0), (-38.0, 1), (-20.0, 0)] {
        insert(&mut cal, point(level, 2.0, chosen));
    }
    let gaps = [bits(10.0), bits(2.0), bits(18.0)];
    assert_eq!(estimate_crossover(&cal, &gaps), Some(1));
    let equal = [bits(2.0), bits(2.0), bits(2.0)];
    assert_eq!(estimate_crossover(&cal, &equal), Some(0));
}

fn full() -> NoiseCal {
    let mut cal = new_cal(7, bits(0.8));
    for (level, chosen) in [
        (-80.0, 1u8),
        (-70.0, 1),
        (-60.0, 1),
        (-52.0, 1),
        (-48.0, 0),
        (-40.0, 0),
        (-30.0, 0),
        (-20.0, 0),
    ] {
        insert(&mut cal, point(level, 2.0, chosen));
    }
    assert_eq!(cal.num_points as usize, MAX_POINTS);
    cal
}

#[test]
fn nearer_points_replace_the_farthest_of_their_side() {
    let mut cal = full();
    insert(&mut cal, point(-55.0, 2.0, 1));
    assert_eq!(levels(&cal), vec![-70.0, -60.0, -55.0, -52.0, -48.0, -40.0, -30.0, -20.0]);
}

#[test]
fn farther_points_are_redundant() {
    let mut cal = full();
    let before = levels(&cal);
    insert(&mut cal, point(-90.0, 2.0, 1));
    assert_eq!(levels(&cal), before);
}

#[test]
fn contradicting_points_are_always_kept() {
    let mut cal = full();
    // Balanced far above the crossover at -50.
    insert(&mut cal, point(-5.0, 2.0, 1));
    assert!(levels(&cal).contains(&-5.0));
    assert!(!levels(&cal).contains(&-80.0));
    assert_eq!(cal.num_points as usize, MAX_POINTS);
}

#[test]
fn the_first_of_a_side_takes_the_farthest_place() {
    // A file may hold more points of one side than the side has slots.
    let mut cal = new_cal(7, bits(0.8));
    for i in 0..8 {
        cal.points[i] = point(-80.0 + i as f32, 2.0, 1);
    }
    cal.num_points = 8;
    insert(&mut cal, point(-10.0, 1.0, 0));
    assert!(levels(&cal).contains(&-10.0));
    assert!(!levels(&cal).contains(&-80.0));
}

#[test]
fn a_side_has_four_slots() {
    let mut cal = new_cal(7, bits(0.8));
    for level in [-80.0, -70.0, -60.0, -50.0] {
        insert(&mut cal, point(level, 2.0, 0));
    }
    assert_eq!(cal.num_points, 4);
    // A fifth of the side: the one farthest from it leaves.
    insert(&mut cal, point(-40.0, 2.0, 0));
    assert_eq!(levels(&cal), vec![-70.0, -60.0, -50.0, -40.0]);
    // The other side has its own slots.
    for level in [-90.0, -95.0, -100.0, -105.0] {
        insert(&mut cal, point(level, 2.0, 1));
    }
    assert_eq!(cal.num_points, 8);
    // The crossover is at -80 now: farther points of a side stay out, nearer ones do not.
    insert(&mut cal, point(-110.0, 2.0, 1));
    assert!(!levels(&cal).contains(&-110.0));
    insert(&mut cal, point(-85.0, 2.0, 1));
    assert!(levels(&cal).contains(&-85.0) && !levels(&cal).contains(&-105.0));
    for side in 0..2u8 {
        assert_eq!(cal.points.iter().filter(|p| p.chosen == side).count(), 4);
    }
}

#[test]
fn points_are_sorted_by_level() {
    let mut cal = new_cal(7, bits(0.8));
    cal.num_points = 3;
    cal.points[0] = point(3.0, 0.0, 0);
    cal.points[1] = point(-2.0, 0.0, 1);
    cal.points[2] = point(1.0, 0.0, 0);
    sort_points(&mut cal);
    assert_eq!(levels(&cal), vec![-2.0, 1.0, 3.0]);
}

#[test]
fn saved_calibrations_are_read_back() {
    let mut cal = full();
    set_fan_powers(&mut cal, bits(0.5), bits(0.25), 1_700_000_000, bits(0.9));
    let file = save_cal(&cal);
    assert_eq!(file.len(), CAL_BYTES);
    assert_eq!(&file[0..4], b"NAC2");
    let read = load_cal(Some(&file)).unwrap();
    assert_eq!(read.mic_hash, 7);
    assert_eq!(read.ref_gain, bits(0.9));
    assert_eq!(read.fan_perf_power, bits(0.5));
    assert_eq!(read.fan_bal_power, bits(0.25));
    assert_eq!(read.cal_timestamp, 1_700_000_000);
    assert_eq!(read.num_points, 8);
    assert_eq!(read.points, cal.points);
}

#[test]
fn other_files_are_no_calibrations() {
    let file = save_cal(&new_cal(7, 0));
    assert!(load_cal(None).is_none());
    assert!(load_cal(Some(&file[..135])).is_none());
    let mut other = file.clone();
    other[3] = b'1';
    assert!(load_cal(Some(&other)).is_none());
    let mut newer = file.clone();
    newer[4] = 3;
    assert!(load_cal(Some(&newer)).is_none());
    let mut overfull = file;
    overfull[36] = 9;
    assert!(!is_usable(&load_cal(Some(&overfull)).unwrap()));
}

#[test]
fn calibrations_are_of_one_microphone() {
    let kept = full();
    assert_eq!(cal_for(Some(kept), 8, bits(0.5)).num_points, 0);
    assert_eq!(cal_for(Some(full()), 7, bits(0.5)).num_points, 8);
    assert_eq!(cal_for(None, 7, bits(0.5)).ref_gain, bits(0.5));
    let cal = after_calibration(Some(full()), 7, bits(0.5), bits(2.0), bits(1.0), 99);
    assert_eq!((cal.num_points, cal.cal_timestamp, cal.ref_gain), (8, 99, bits(0.5)));
}

#[test]
fn first_comparisons_stand_in_for_the_fans() {
    let mut cal = new_cal(7, bits(0.8));
    assert_eq!(
        note_comparison(&mut cal, bits(2.0), bits(1.0), 50, bits(0.7)),
        Ambient::Difference
    );
    assert!(has_fan_powers(&cal));
    assert_eq!(cal.cal_timestamp, 50);
    assert_eq!(
        note_comparison(&mut cal, bits(9.0), bits(9.0), 60, bits(0.1)),
        Ambient::OverFans
    );
    assert_eq!((cal.fan_perf_power, cal.cal_timestamp), (bits(2.0), 50));
}

#[test]
fn the_table_is_asked_while_it_is_fresh() {
    assert_eq!(choose_path(None, 7, 0), Path::NoCache);
    let mut cal = full();
    cal.cal_timestamp = 1000;
    assert_eq!(choose_path(Some(&cal), 7, 1000), Path::NoFanPowers);
    set_fan_powers(&mut cal, bits(0.5), bits(0.25), 1000, bits(0.9));
    assert_eq!(choose_path(Some(&cal), 7, 1000 + MAX_CAL_AGE - 1), Path::Fast);
    assert_eq!(choose_path(Some(&cal), 7, 1000 + MAX_CAL_AGE), Path::Stale);
    assert_eq!(choose_path(Some(&cal), 8, 1000), Path::Stale);
    assert_eq!(choose_path(Some(&cal), 7, 0), Path::Fast, "the clock was set back");
}

#[test]
fn levels_are_looked_up() {
    let cal = full();
    assert_eq!(
        look_up(&cal, bits(-90.0)),
        Lookup::Beyond { chosen: 1, delta_db: bits(2.0) }
    );
    assert_eq!(
        look_up(&cal, bits(-10.0)),
        Lookup::Beyond { chosen: 0, delta_db: bits(2.0) }
    );
    assert_eq!(look_up(&cal, bits(-50.0)), Lookup::Between { low: 3 });
    assert_eq!(look_up(&new_cal(7, 0), bits(-50.0)), Lookup::NoPoints);
    let mut one = new_cal(7, 0);
    insert(&mut one, point(-50.0, 1.0, 0));
    assert_eq!(look_up(&one, bits(-60.0)), Lookup::BelowAll);
    let mut other = new_cal(7, 0);
    insert(&mut other, point(-50.0, 1.0, 1));
    assert_eq!(look_up(&other, bits(-40.0)), Lookup::AboveAll);
}

#[test]
fn the_uncertain_band_asks_for_a_comparison() {
    let cal = full();
    let level = bits(-50.0);
    assert_eq!(fast_path(&cal, level, bits(3.0)), None);
    assert_eq!(fast_path(&cal, level, bits(1.6)), None);
    assert_eq!(fast_path(&cal, level, bits(4.4)), None);
    assert_eq!(fast_path(&cal, level, bits(1.5)), Some((0, bits(1.5))));
    assert_eq!(fast_path(&cal, level, bits(4.5)), Some((1, bits(4.5))));
    assert_eq!(fast_path(&cal, bits(-90.0), 0), Some((1, bits(2.0))));
}

#[test]
fn gains_and_spans_have_a_floor() {
    let mut cal = new_cal(7, bits(0.01));
    assert!(!adjusts_gain(&cal));
    cal.ref_gain = bits(0.02);
    assert!(adjusts_gain(&cal));
    assert!(interpolates(bits(-0.5)));
    assert!(!interpolates(bits(0.001)));
    set_fan_powers(&mut cal, bits(2.0), bits(1.0), 1, bits(1.0));
    assert_eq!(fan_power(&cal, 0), bits(2.0));
    assert_eq!(fan_power(&cal, 1), bits(1.0));
}

#[test]
fn the_menu_shows_the_age() {
    assert_eq!(debug_info(None, 5, None), None);
    let mut cal = full();
    cal.cal_timestamp = 100;
    let info = debug_info(Some(&cal), 160, Some(bits(-50.0))).unwrap();
    assert_eq!((info.num_points, info.cal_age_secs), (8, 60));
    assert_eq!(debug_info(Some(&cal), 50, None).unwrap().cal_age_secs, 0);
}
