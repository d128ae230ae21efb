use hp_thermal::audio::{DecisionOutput, Path};
use hp_thermal::calibration::CalPoint;
use hp_thermal::capture::{
    capture_error_text, capture_with_device, count_packet, device_name, device_score, first_row,
    highest, is_doubtful, mark, mic_device_hash, open, phase_at, poll, sample_format, score_name,
    select_capture_device, select_error_text, table_head, table_row, Candidate, CaptureError,
    CaptureEvent, CaptureStep, PacketCounts, SelectError,
};
use hp_thermal::measure::{
    adaptive_settle, cal_path, calibration_result, comparison_point, comparison_result,
    debug_dir, ends_the_run, fast_result, mode_name, outcome_text, phase_label, point_temp,
    slow_path, slow_path_end, smart_measure, stress_calibrate,
    stress_calibrate_inner, stress_goes_on, stress_threads, telemetry_reading,
    write_telemetry_tsv, Action, CalibrateStep, MeasureEvent, MeasureStep, Outcome, Phase,
    SettleStep, TelemetryReading,
};
use hp_thermal::meter::{
    band_bins, has_band, local_peaks, phase_power, strongest, SampleBuffer, FFT_N, HOP,
};
use hp_thermal::text::chars_of;
use hp_thermal::tracks::{
    bit_reverse, frame_stats, is_moving, is_stationary, lags, process_frame, Fate, Track,
};

#[test]
fn built_in_microphones_score_high() {
    assert_eq!(device_score("Microphone Array (Intel\u{AE} Smart Sound Technology)"), 35);
    assert_eq!(device_score("MICROPHONE ARRAY (REALTEK)"), 30);
    assert_eq!(device_score("Internal Microphone"), 10);
    assert_eq!(device_score("Scarlett 2i2 USB Audio (Focusrite)"), -50);
    assert_eq!(device_score("MOTU Loopback"), -35);
    assert_eq!(device_score("Line In"), 0);
    assert_eq!(score_name(&chars_of("intel")), 0);
}

#[test]
fn nameless_microphones_are_numbered() {
    assert_eq!(device_name(Some("x".to_string()), 3), "x");
    assert_eq!(device_name(None, 3), "Unknown Device 3");
}

#[test]
fn the_best_microphone_is_selected() {
    let c = |score: i32, peak: f32| Candidate { score, peak: peak.to_bits() };
    let all = [c(10, 0.5), c(20, 0.1), c(20, 0.3), c(20, 0.3)];
    assert_eq!(select_capture_device(true, Some(4), &all), Ok(2));
    assert_eq!(
        select_capture_device(false, Some(4), &all),
        Err(SelectError::CannotEnumerate)
    );
    assert_eq!(select_capture_device(true, None, &all), Err(SelectError::CannotCount));
    assert_eq!(select_capture_device(true, Some(0), &[]), Err(SelectError::NoneActive));
    assert_eq!(select_capture_device(true, Some(2), &[]), Err(SelectError::NoneUsable));
    assert_eq!(select_error_text(SelectError::NoneUsable), "no usable capture device");
    assert!(is_doubtful(&c(0, 0.00001)));
    assert!(!is_doubtful(&c(10, 0.0)));
}

#[test]
fn meters_keep_the_highest_level() {
    assert_eq!(highest(0.5f32.to_bits(), Some(0.25f32.to_bits())), 0.5f32.to_bits());
    assert_eq!(highest(0.5f32.to_bits(), Some(0.75f32.to_bits())), 0.75f32.to_bits());
    assert_eq!(highest(0.5f32.to_bits(), Some(f32::NAN.to_bits())), 0.5f32.to_bits());
    assert_eq!(highest(0.5f32.to_bits(), None), 0.5f32.to_bits());
}

#[test]
fn microphones_are_known_by_their_identifier() {
    let id: Vec<u16> = "a\0b".encode_utf16().collect();
    // The hash of the bytes 0x61 and 0.
    let mut h: u64 = 0xcbf2_9ce4_8422_2325;
    for b in [0x61u64, 0] {
        h = (h ^ b).wrapping_mul(0x0100_0000_01b3);
    }
    assert_eq!(mic_device_hash(Some(&id)), h);
    assert_eq!(mic_device_hash(Some(&[])), 0xcbf2_9ce4_8422_2325);
    assert_eq!(mic_device_hash(None), 0);
}

#[test]
fn formats_are_told_apart() {
    assert_eq!(sample_format(3, 0, false), Some(true));
    assert_eq!(sample_format(1, 0, true), Some(false));
    assert_eq!(sample_format(0xFFFE, 22, true), Some(true));
    assert_eq!(sample_format(0xFFFE, 21, true), Some(false));
    assert_eq!(sample_format(0xFFFE, 22, false), Some(false));
    assert_eq!(sample_format(85, 22, true), None);
}

#[test]
fn recordings_run_their_course() {
    let mut step = CaptureStep::Activate;
    let mut seen = 0;
    while step != CaptureStep::NextPacket {
        step = capture_with_device(step, CaptureEvent::Succeeded);
        seen += 1;
    }
    assert_eq!(seen, 7);
    assert_eq!(capture_with_device(step, CaptureEvent::Packet(0)), CaptureStep::Sleep);
    assert_eq!(capture_with_device(step, CaptureEvent::Packet(480)), CaptureStep::GetBuffer);
    assert_eq!(capture_with_device(step, CaptureEvent::TimeUp), CaptureStep::Stop);
    assert_eq!(
        capture_with_device(CaptureStep::GetBuffer, CaptureEvent::Failed),
        CaptureStep::Failed(CaptureError::GetBuffer)
    );
    assert_eq!(
        capture_with_device(CaptureStep::Start, CaptureEvent::Failed),
        CaptureStep::Failed(CaptureError::Start)
    );
    assert_eq!(poll(CaptureStep::NextPacket, CaptureEvent::Packet(0)), CaptureStep::Done);
    assert_eq!(open(CaptureStep::Start, true), CaptureStep::Done);
    assert_eq!(open(CaptureStep::Label, false), CaptureStep::Service);
}

#[test]
fn each_failure_has_its_text() {
    let texts: Vec<&str> = [
        CaptureError::Activate,
        CaptureError::MixFormat,
        CaptureError::Format,
        CaptureError::Initialize,
        CaptureError::Service,
        CaptureError::Start,
        CaptureError::NextPacket,
        CaptureError::GetBuffer,
    ]
    .iter()
    .map(|e| capture_error_text(*e))
    .collect();
    assert_eq!(texts[0], "audio client activate failed");
    assert_eq!(texts[2], "unsupported audio format");
    for (i, t) in texts.iter().enumerate() {
        assert!(!texts[..i].contains(t));
    }
}

#[test]
fn silent_packets_are_passed_over() {
    let mut c = PacketCounts { silent: 0, active: 0 };
    assert!(count_packet(&mut c, 0, true));
    assert!(!count_packet(&mut c, 2, true));
    assert!(!count_packet(&mut c, 3, true));
    assert!(count_packet(&mut c, 1, true));
    assert!(!count_packet(&mut c, 0, false));
    assert_eq!(c, PacketCounts { silent: 2, active: 3 });
}

#[test]
fn phases_last_until_the_next_marker() {
    let mut markers: Vec<(u32, Phase)> = Vec::new();
    assert_eq!(phase_at(&markers, 5), Phase::Init);
    mark(&mut markers, 0, Phase::Init);
    mark(&mut markers, 10, Phase::SettlePerf);
    mark(&mut markers, 20, Phase::CapturePerf);
    assert_eq!(phase_at(&markers, 9), Phase::Init);
    assert_eq!(phase_at(&markers, 10), Phase::SettlePerf);
    assert_eq!(phase_at(&markers, 19), Phase::SettlePerf);
    assert_eq!(phase_at(&markers, 99), Phase::CapturePerf);
    assert_eq!(phase_label(Phase::CapturePerf), "capture_perf");
}

#[test]
fn tables_have_a_head_and_rows() {
    let head = table_head("20260101_120000", true, "0.500", &[(0, Phase::Init), (3, Phase::End)]);
    assert!(head.starts_with("# stress-cal continuous 20260101_120000\n# raw=true mic_gain=0.500\n# markers: 0=init 3=end\nwindow\ttime_s\t"));
    assert!(head.ends_with("\tnoise_power\n"));
    assert_eq!(table_row(&["a".to_string(), "b".to_string()]), "a\tb\n");
    assert_eq!(table_row(&[]), "");
    assert_eq!(first_row(None), 0);
    assert_eq!(first_row(Some(4)), 5);
}

#[test]
fn measurements_fall_back_to_the_comparison() {
    let ok = MeasureEvent::Succeeded;
    assert_eq!(smart_measure(MeasureStep::InitCom, ok), MeasureStep::Enumerate);
    assert_eq!(
        smart_measure(MeasureStep::InitCom, MeasureEvent::Failed),
        MeasureStep::End(Outcome::ComInitFailed)
    );
    assert_eq!(smart_measure(MeasureStep::Enumerate, ok), MeasureStep::SelectDevice);
    assert_eq!(
        smart_measure(MeasureStep::SelectDevice, MeasureEvent::Failed),
        MeasureStep::UninitCom(Outcome::NoDevice)
    );
    assert_eq!(
        smart_measure(MeasureStep::ReadCache, MeasureEvent::Cache(Path::Fast)),
        MeasureStep::Fast
    );
    assert_eq!(
        smart_measure(MeasureStep::ReadCache, MeasureEvent::Cache(Path::Stale)),
        MeasureStep::Slow
    );
    assert_eq!(
        smart_measure(MeasureStep::Fast, MeasureEvent::Asked(Some(1))),
        MeasureStep::SetMode(1)
    );
    assert_eq!(
        smart_measure(MeasureStep::Fast, MeasureEvent::Asked(None)),
        MeasureStep::Slow
    );
    assert_eq!(smart_measure(MeasureStep::Fast, MeasureEvent::Failed), MeasureStep::Slow);
    assert_eq!(
        smart_measure(MeasureStep::Slow, MeasureEvent::Failed),
        MeasureStep::UninitCom(Outcome::RunFailed)
    );
    assert_eq!(
        stress_calibrate(CalibrateStep::Enumerate, false),
        CalibrateStep::UninitCom(Outcome::NoEnumerator)
    );
    assert_eq!(outcome_text(Outcome::NoEnumerator), Some("no audio enumerator"));
    assert_eq!(outcome_text(Outcome::Done), None);
}

#[test]
fn comparisons_measure_performance_first() {
    let plan = slow_path(4, false);
    assert_eq!(plan.len(), 20);
    assert_eq!(plan[0], Action::OpenStream { keep: false });
    let modes: Vec<&Action> =
        plan.iter().filter(|a| matches!(a, Action::SetMode(_))).collect();
    assert_eq!(modes, vec![&Action::SetMode(0), &Action::SetMode(1)]);
    assert_eq!(plan.last(), Some(&Action::StopLoad));
    let debug = slow_path(4, true);
    assert_eq!(debug[0], Action::CreateDebugDir);
    assert_eq!(debug[2], Action::OpenStream { keep: true });
    assert_eq!(slow_path_end(1, false)[0], Action::SetMode(1));
    assert_eq!(slow_path_end(1, true)[2], Action::WriteDebugFiles);
    assert!(ends_the_run(Action::Record(1)));
    assert!(!ends_the_run(Action::VerifyMode));
}

#[test]
fn calibrations_record_for_135_seconds() {
    let plan = stress_calibrate_inner(8);
    let total: u64 =
        plan.iter().map(|a| if let Action::Record(ms) = a { *ms } else { 0 }).sum();
    assert_eq!(total, 135_000);
    assert!(plan.contains(&Action::StartLoad { threads: 8, max_secs: 35 }));
}

#[test]
fn loads_fit_the_processor() {
    assert_eq!(stress_threads(1), 1);
    assert_eq!(stress_threads(8), 4);
    assert_eq!(stress_threads(16), 4);
    assert_eq!(stress_threads(24), 6);
    assert!(stress_goes_on(1, false, true));
    assert!(!stress_goes_on(64, false, true));
    assert!(!stress_goes_on(1, true, false));
}

#[test]
fn the_wait_for_the_fans_has_limits() {
    assert_eq!(adaptive_settle(false, 7_999, 8_000, 20_000, true), SettleStep::Wait);
    assert_eq!(adaptive_settle(false, 8_000, 8_000, 20_000, true), SettleStep::Look);
    assert_eq!(adaptive_settle(true, 9_000, 8_000, 20_000, false), SettleStep::KeepLooking);
    assert_eq!(adaptive_settle(true, 9_000, 8_000, 20_000, true), SettleStep::Detected);
    assert_eq!(adaptive_settle(true, 20_000, 8_000, 20_000, true), SettleStep::TimedOut);
}

#[test]
fn readings_are_tabulated() {
    let r = telemetry_reading(1500, Some([0, 61]), Some([3, 1]));
    assert_eq!(r, TelemetryReading { elapsed_ms: 1500, temp_c: 61, mode: 255 });
    assert_eq!(point_temp(Some([0x80, 44])), 44);
    assert_eq!(point_temp(Some([3, 44])), 0);
    assert_eq!(
        write_telemetry_tsv(&[r]),
        "elapsed_ms\ttemp_c\tmode\tmode_name\n1500\t61\t255\tUnknown\n"
    );
    assert_eq!(mode_name(3), "PowerSaver");
    assert_eq!(mode_name(7), "Other");
    assert_eq!(cal_path("C:\\d"), "C:\\d\\smart-cal.bin");
    assert_eq!(debug_dir("C:\\d", "x"), "C:\\d\\debug-cal-x");
}

#[test]
fn frames_overlap() {
    let mut b = SampleBuffer::new();
    let mut frames: Vec<Vec<u32>> = Vec::new();
    for i in 0..(FFT_N + 2 * HOP) as u32 {
        if let Some(f) = b.feed(i) {
            frames.push(f);
        }
    }
    assert_eq!(frames.len(), 3);
    for (k, f) in frames.iter().enumerate() {
        assert_eq!(f.len(), FFT_N);
        assert_eq!(f[0] as usize, k * HOP);
        assert_eq!(f[FFT_N - 1] as usize, k * HOP + FFT_N - 1);
    }
}

#[test]
fn the_band_depends_on_the_rate() {
    assert_eq!(band_bins(48000), (205, 9557));
    assert_eq!(band_bins(16000), (615, 16383));
    assert!(has_band(48000) && has_band(16000) && has_band(601));
    assert!(!has_band(0) && !has_band(600));
}

#[test]
fn tones_are_ranked() {
    let v: Vec<u32> =
        [0.0f32, 1.0, 0.5, 0.5, 3.0, 2.0, 1e-13].iter().map(|x| x.to_bits()).collect();
    assert_eq!(local_peaks(&v), vec![1, 4]);
    assert_eq!(local_peaks(&[]), Vec::<usize>::new());
    let many: Vec<u32> = (0..12).map(|i| (i as f32).to_bits()).collect();
    assert_eq!(strongest(&many), vec![11, 10, 9, 8, 7, 6, 5, 4]);
    let equal: Vec<u32> = vec![1.0f32.to_bits(); 3];
    assert_eq!(strongest(&equal), vec![0, 1, 2]);
}

#[test]
fn phases_are_trimmed() {
    let v: Vec<u32> = (0..20).rev().map(|i| (i as f32).to_bits()).collect();
    let kept: Vec<f32> = phase_power(&v, 0, 100).iter().map(|b| f32::from_bits(*b)).collect();
    assert_eq!(kept.len(), 14);
    assert_eq!((kept[0], kept[13]), (3.0, 16.0));
    assert!(phase_power(&v, 20, 30).is_empty());
    assert_eq!(phase_power(&v, 19, 20), vec![0.0f32.to_bits()]);
}

fn alive(frames: u16) -> Track {
    Track { alive: true, missed: 0, frames_alive: frames }
}

#[test]
fn tracks_take_the_nearest_free_tone() {
    let mut tracks = vec![alive(5), alive(5), alive(5)];
    let d = |v: &[f32]| -> Vec<u32> { v.iter().map(|x| x.to_bits()).collect() };
    let dist = vec![d(&[10.0, 5.0]), d(&[20.0, 1.0]), d(&[30.0, 2.0])];
    let fates = process_frame(&mut tracks, &dist, 2);
    assert_eq!(fates, vec![Fate::Linked(1), Fate::Linked(0), Fate::Missed]);
    assert_eq!(tracks[0].frames_alive, 6);
    assert_eq!(tracks[2].missed, 1);
}

#[test]
fn far_tones_begin_tracks_of_their_own() {
    let mut tracks = vec![alive(5)];
    let dist = vec![vec![400.0f32.to_bits()]];
    let fates = process_frame(&mut tracks, &dist, 1);
    assert_eq!(fates, vec![Fate::Missed, Fate::Born(0)]);
    assert_eq!(tracks.len(), 2);
}

#[test]
fn dead_tracks_are_replaced_when_full() {
    let mut tracks = vec![alive(5); 16];
    tracks[3].alive = false;
    tracks[3].missed = 8;
    tracks[5].missed = 7;
    let dist = vec![vec![f32::INFINITY.to_bits(); 3]; 16];
    let fates = process_frame(&mut tracks, &dist, 3);
    assert_eq!(fates[3], Fate::Born(0));
    assert_eq!(fates[5], Fate::Born(1), "it died in this frame");
    assert_eq!(fates[4], Fate::Missed);
    assert_eq!(tracks.len(), 16);
    assert_eq!(tracks[3], alive(1));
}

#[test]
fn statistics_count_grown_tracks() {
    let tracks = vec![alive(9), alive(2), alive(9), alive(8)];
    let v = |x: [f32; 4]| -> Vec<u32> { x.iter().map(|f| f.to_bits()).collect() };
    let slopes = v([2.5, 9.0, -2.5, 9.0]);
    let mags = v([1.0, 9.0, 2.0, 2.0]);
    assert_eq!(frame_stats(&tracks, &slopes, &mags), (2, Some(2)));
    assert!(is_moving(&alive(9), (-2.5f32).to_bits()));
    assert!(!is_moving(&alive(9), 2.0f32.to_bits()));
    assert!(is_stationary(&alive(13), 0.3f32.to_bits()));
    assert!(!is_stationary(&alive(12), 0.3f32.to_bits()));
}

#[test]
fn pitches_are_confirmed_around_their_lag() {
    assert_eq!(lags(60, 1000), vec![58, 59, 60, 61, 62]);
    assert_eq!(lags(2, 1000), vec![0, 1, 2, 3, 4]);
    assert_eq!(lags(499, 1000), vec![497, 498, 499]);
    assert!(lags(1, 1000).is_empty());
    assert!(lags(500, 1000).is_empty());
}

#[test]
fn bits_are_reversed() {
    assert_eq!(bit_reverse(1, 9), 256);
    assert_eq!(bit_reverse(0b110, 3), 0b011);
    assert_eq!(bit_reverse(5, 0), 0);
    for x in 0..512 {
        assert_eq!(bit_reverse(bit_reverse(x, 9), 9), x);
    }
}

#[test]
fn comparisons_become_points() {
    let decision = DecisionOutput {
        chosen: 1,
        delta_db: 4.0f32.to_bits(),
        used_tonal: true,
        low_confidence: false,
    };
    let level = (-31.5f32).to_bits();
    assert_eq!(
        comparison_point(&decision, level, Some([0x80, 62])),
        CalPoint { ambient_dbfs: level, delta_db: 4.0f32.to_bits(), chosen: 1, temp_c: 62 }
    );
    assert_eq!(comparison_point(&decision, level, None).temp_c, 0);
}

#[test]
fn results_name_the_decision_and_the_microphone() {
    let decision = DecisionOutput {
        chosen: 1,
        delta_db: 4.5f32.to_bits(),
        used_tonal: false,
        low_confidence: false,
    };
    let r = comparison_result(&decision, 10, 20, "Array".to_string(), 30);
    assert_eq!((r.chosen_mode, r.delta_db, r.fast_path), (1, 4.5f32.to_bits(), false));
    assert_eq!((r.level_balanced, r.level_performance, r.mic_gain), (10, 20, 30));
    assert_eq!(r.mic_name, "Array");
    let r = fast_result((0, 7), 10, 20, "Array".to_string(), 30);
    assert_eq!((r.chosen_mode, r.delta_db, r.fast_path), (0, 7, true));
    assert_eq!((r.level_balanced, r.level_performance, r.mic_gain), (10, 20, 30));
    assert_eq!(r.mic_name, "Array");
    let c = calibration_result(5, 6, "Array".to_string(), 30);
    assert_eq!((c.fan_perf_power, c.fan_bal_power, c.mic_gain), (5, 6, 30));
    assert_eq!(c.mic_name, "Array");
}

#[test]
fn comparison_sets_three_modes() {
    let mut plan = slow_path(4, true);
    plan.extend(slow_path_end(2, true));
    let set: Vec<u8> = plan
        .iter()
        .filter_map(|a| match a {
            Action::SetMode(m) => Some(*m),
            _ => None,
        })
        .collect();
    assert_eq!(set, vec![0, 1, 2]);
}
