use hp_thermal::audio::{
    compared_powers, compute_decision, DecisionInput, DecisionOutput, SETTLE_STABLE_FRAMES,
    THRESHOLD_DB,
};
use hp_thermal::meter::{
    band_bins, fans_settled, local_peaks, strongest, trimmed_power, SampleBuffer, BAND_HI_HZ,
    BAND_LO_HZ, FFT_N, HOP, MAX_PEAKS,
};
use hp_thermal::tracks::{
    bit_reverse, can_be_fundamental, counts, find_harmonic_groups, frame_stats, lags,
    process_frame, Fate, Track,
};

/// The tones and powers of a recording, computed in floating point around the
/// decisions of the library.
struct Meter {
    buffer: SampleBuffer,
    sample_rate: u32,
    bins: (usize, usize),
    hann: Vec<f32>,
    twiddles: (Vec<f32>, Vec<f32>),
    weights: Vec<f32>,
    tracks: Vec<Track>,
    freqs: Vec<f32>,
    mags: Vec<f32>,
    slopes: Vec<f32>,
    window_powers: Vec<f32>,
    window_centroids: Vec<f32>,
    window_moving_count: Vec<u8>,
    window_tonal_power: Vec<f32>,
}

fn precompute_twiddles(n: usize) -> (Vec<f32>, Vec<f32>) {
    let mut re = Vec::with_capacity(n / 2);
    let mut im = Vec::with_capacity(n / 2);
    for i in 0..n / 2 {
        let angle = -std::f32::consts::TAU * i as f32 / n as f32;
        let (s, c) = angle.sin_cos();
        re.push(c);
        im.push(s);
    }
    (re, im)
}

fn fft(re: &mut [f32], im: &mut [f32], n: usize, tw_re: &[f32], tw_im: &[f32]) {
    let bits = n.trailing_zeros();
    for i in 0..n {
        let j = bit_reverse(i, bits);
        if i < j {
            re.swap(i, j);
            im.swap(i, j);
        }
    }
    let mut size = 2usize;
    while size <= n {
        let half = size / 2;
        let stride = n / size;
        let mut k = 0;
        while k < n {
            for j in 0..half {
                let c = tw_re[j * stride];
                let s = tw_im[j * stride];
                let a = k + j;
                let b = a + half;
                let tr = re[b] * c - im[b] * s;
                let ti = re[b] * s + im[b] * c;
                re[b] = re[a] - tr;
                im[b] = im[a] - ti;
                re[a] += tr;
                im[a] += ti;
            }
            k += size;
        }
        size <<= 1;
    }
}

fn a_weight_power(f: f32) -> f32 {
    let f = f.max(1.0) as f64;
    let f2 = f * f;
    let numer = 148693636.0 * f2 * f2;
    let denom = (f2 + 424.36)
        * ((f2 + 11599.29) * (f2 + 544496.41)).sqrt()
        * (f2 + 148693636.0);
    let ra = numer / denom;
    (ra * ra / 0.6309573444801932) as f32
}

fn patterns(v: &[f32]) -> Vec<u32> {
    v.iter().map(|x| x.to_bits()).collect()
}

impl Meter {
    fn new(sample_rate: u32) -> Meter {
        let bins = band_bins(sample_rate);
        let hann = (0..FFT_N)
            .map(|i| 0.5 - 0.5 * (std::f32::consts::TAU * i as f32 / (FFT_N - 1) as f32).cos())
            .collect();
        let weights = (bins.0..=bins.1)
            .map(|k| {
                let w = a_weight_power(k as f32 * sample_rate as f32 / FFT_N as f32);
                (w * 128.0).round().min(255.0) / 128.0
            })
            .collect();
        Meter {
            buffer: SampleBuffer::new(),
            sample_rate,
            bins,
            hann,
            twiddles: precompute_twiddles(FFT_N),
            weights,
            tracks: Vec::new(),
            freqs: Vec::new(),
            mags: Vec::new(),
            slopes: Vec::new(),
            window_powers: Vec::new(),
            window_centroids: Vec::new(),
            window_moving_count: Vec::new(),
            window_tonal_power: Vec::new(),
        }
    }

    fn feed(&mut self, sample: f32) {
        if let Some(frame) = self.buffer.feed(sample.to_bits()) {
            self.frame(&frame);
        }
    }

    fn frame(&mut self, frame: &[u32]) {
        let mut re: Vec<f32> =
            frame.iter().zip(&self.hann).map(|(b, h)| f32::from_bits(*b) * h).collect();
        let mut im = vec![0f32; FFT_N];
        fft(&mut re, &mut im, FFT_N, &self.twiddles.0, &self.twiddles.1);
        let bin_hz = self.sample_rate as f32 / FFT_N as f32;
        let mut power = 0f32;
        let mut weighted = 0f64;
        let mut total = 0f64;
        let mut band: Vec<f32> = Vec::with_capacity(self.weights.len());
        for k in self.bins.0..=self.bins.1 {
            let mag_sq = (re[k] * re[k] + im[k] * im[k]) * self.weights[k - self.bins.0];
            band.push(mag_sq);
            power += mag_sq;
            let mag = mag_sq.sqrt() as f64;
            weighted += k as f64 * self.sample_rate as f64 / FFT_N as f64 * mag;
            total += mag;
        }
        let centroid = if total > 0.0 { (weighted / total) as f32 } else { 0.0 };

        let places = local_peaks(&patterns(&band));
        let all: Vec<(f32, f32)> = places
            .iter()
            .map(|&i| {
                let alpha = band[i - 1].sqrt();
                let beta = band[i].sqrt();
                let gamma = band[i + 1].sqrt();
                let denom = alpha - 2.0 * beta + gamma;
                let offset =
                    if denom.abs() > 1e-10 { 0.5 * (alpha - gamma) / denom } else { 0.0 };
                (((self.bins.0 + i) as f32 + offset) * bin_hz, beta)
            })
            .collect();
        let mags: Vec<f32> = all.iter().map(|p| p.1).collect();
        let peaks: Vec<(f32, f32)> =
            strongest(&patterns(&mags)).iter().map(|&i| all[i]).collect();
        assert!(peaks.len() <= MAX_PEAKS);

        let dist: Vec<Vec<u32>> = self
            .freqs
            .iter()
            .map(|f| peaks.iter().map(|p| (p.0 - f).abs().to_bits()).collect())
            .collect();
        let fates = process_frame(&mut self.tracks, &dist, peaks.len());
        for (t, fate) in fates.iter().enumerate() {
            if t == self.freqs.len() {
                self.freqs.push(0.0);
                self.mags.push(0.0);
                self.slopes.push(0.0);
            }
            match *fate {
                Fate::Linked(i) => {
                    self.slopes[t] = 0.2 * (peaks[i].0 - self.freqs[t]) + 0.8 * self.slopes[t];
                    self.freqs[t] = peaks[i].0;
                    self.mags[t] = peaks[i].1;
                }
                Fate::Born(i) => {
                    self.freqs[t] = peaks[i].0;
                    self.mags[t] = peaks[i].1;
                    self.slopes[t] = 0.0;
                }
                Fate::Idle | Fate::Missed => {}
            }
        }
        let (moving, _loudest) =
            frame_stats(&self.tracks, &patterns(&self.slopes), &patterns(&self.mags));
        let tonal: f32 = self
            .tracks
            .iter()
            .zip(&self.mags)
            .filter(|(t, _)| counts(t))
            .map(|(_, m)| m * m)
            .sum();
        self.window_powers.push(power);
        self.window_centroids.push(centroid);
        self.window_moving_count.push(moving);
        self.window_tonal_power.push(tonal);
    }
}

/// A decision, with its difference as a number.
struct Decision {
    chosen: u8,
    delta_db: f32,
    used_tonal: bool,
    low_confidence: bool,
}

/// What the decision is made of, as numbers.
struct Input {
    perf_power: f32,
    bal_power: f32,
    perf_tonal: f32,
    bal_tonal: f32,
    avg_moving_perf: f32,
    avg_moving_bal: f32,
    current_mode: u8,
    centroid_shift_hz: f32,
}

fn decide(i: &Input) -> Decision {
    let input = DecisionInput {
        perf_power: i.perf_power.to_bits(),
        bal_power: i.bal_power.to_bits(),
        perf_tonal: i.perf_tonal.to_bits(),
        bal_tonal: i.bal_tonal.to_bits(),
        avg_moving_perf: i.avg_moving_perf.to_bits(),
        avg_moving_bal: i.avg_moving_bal.to_bits(),
        current_mode: i.current_mode,
        centroid_shift_hz: i.centroid_shift_hz.to_bits(),
    };
    let (perf, bal) = compared_powers(&input);
    let ratio = 10.0 * (f32::from_bits(perf) / f32::from_bits(bal)).log10();
    let r: DecisionOutput = compute_decision(&input, ratio.to_bits());
    Decision {
        chosen: r.chosen,
        delta_db: f32::from_bits(r.delta_db),
        used_tonal: r.used_tonal,
        low_confidence: r.low_confidence,
    }
}

fn threshold() -> f32 {
    f32::from_bits(THRESHOLD_DB)
}

fn mean(v: &[u32]) -> f32 {
    if v.is_empty() {
        return 0.0;
    }
    v.iter().map(|b| f32::from_bits(*b)).sum::<f32>() / v.len() as f32
}

fn trimmed_mean(v: &[f32]) -> f32 {
    mean(&trimmed_power(&patterns(v)))
}

fn find_phase(markers: &[(u32, String)], label: &str, total: u32) -> (u32, u32) {
    for (i, (pos, l)) in markers.iter().enumerate() {
        if l == label {
            let end = markers.get(i + 1).map(|(p, _)| *p).unwrap_or(total);
            return (*pos, end);
        }
    }
    panic!("marker '{label}' not found")
}

fn replay_synthetic(
    samples: &[f32],
    sample_rate: u32,
    markers: &[(u32, String)],
    current_mode: u8,
) -> Decision {
    let mut meter = Meter::new(sample_rate);
    for &s in samples {
        meter.feed(s);
    }
    let windows: Vec<(u32, String)> = markers
        .iter()
        .map(|(pos, label)| (pos.saturating_sub(FFT_N as u32) / HOP as u32, label.clone()))
        .collect();
    let total = meter.window_powers.len();
    let range = |label: &str| -> (usize, usize) {
        let (s, e) = find_phase(&windows, label, total as u32);
        (s as usize, (e as usize).min(total))
    };
    let (ps, pe) = range("capture_perf");
    let (bs, be) = range("capture_bal");
    let moving = |s: usize, e: usize| -> f32 {
        if e > s {
            meter.window_moving_count[s..e].iter().map(|&c| c as f32).sum::<f32>()
                / (e - s) as f32
        } else {
            0.0
        }
    };
    decide(&Input {
        perf_power: trimmed_mean(&meter.window_powers[ps..pe]),
        bal_power: trimmed_mean(&meter.window_powers[bs..be]),
        perf_tonal: trimmed_mean(&meter.window_tonal_power[ps..pe]),
        bal_tonal: trimmed_mean(&meter.window_tonal_power[bs..be]),
        avg_moving_perf: moving(ps, pe),
        avg_moving_bal: moving(bs, be),
        current_mode,
        centroid_shift_hz: trimmed_mean(&meter.window_centroids[ps..pe])
            - trimmed_mean(&meter.window_centroids[bs..be]),
    })
}

fn synthetic_ab_samples(
    sample_rate: u32,
    settle_secs: f32,
    capture_secs: f32,
    perf_tone_hz: f32,
    perf_amplitude: f32,
    bal_tone_hz: f32,
    bal_amplitude: f32,
) -> (Vec<f32>, u32, Vec<(u32, String)>) {
    let settle = (settle_secs * sample_rate as f32) as usize;
    let capture = (capture_secs * sample_rate as f32) as usize;
    let mut samples: Vec<f32> = Vec::new();
    let mut markers = Vec::new();
    for (name, hz, amplitude) in
        [("perf", perf_tone_hz, perf_amplitude), ("bal", bal_tone_hz, bal_amplitude)]
    {
        markers.push((samples.len() as u32, format!("settle_{name}")));
        samples.extend(std::iter::repeat(0.0f32).take(settle));
        markers.push((samples.len() as u32, format!("capture_{name}")));
        let mut phase = 0.0f32;
        for _ in 0..capture {
            let s = amplitude * (std::f32::consts::TAU * hz * phase / sample_rate as f32).sin();
            samples.push(s);
            phase += 1.0;
        }
    }
    markers.push((samples.len() as u32, "end".to_string()));
    (samples, sample_rate, markers)
}

/// 1 kHz at -20 dBFS in Performance, at -40 dBFS in Balanced.
#[test]
fn synthetic_fans_audible() {
    let (samples, sr, markers) =
        synthetic_ab_samples(48000, 2.0, 6.0, 1000.0, 0.1, 1000.0, 0.01);
    let result = replay_synthetic(&samples, sr, &markers, 0);
    assert_eq!(
        result.chosen, 1,
        "should choose Balanced when fans are 20 dB louder in Performance \
         (delta={:.1} dB, tonal={})",
        result.delta_db, result.used_tonal,
    );
    assert!(
        result.delta_db >= threshold(),
        "delta {:.1} dB should exceed threshold {:.1} dB",
        result.delta_db,
        threshold(),
    );
}

#[test]
fn synthetic_quiet_room() {
    let (samples, sr, markers) =
        synthetic_ab_samples(48000, 2.0, 6.0, 1000.0, 0.001, 1000.0, 0.001);
    let result = replay_synthetic(&samples, sr, &markers, 0);
    assert_eq!(
        result.chosen, 0,
        "should choose Performance when both modes equally quiet (delta={:.1} dB)",
        result.delta_db,
    );
}

#[test]
fn synthetic_marginal_fans() {
    let (samples, sr, markers) =
        synthetic_ab_samples(48000, 2.0, 6.0, 1000.0, 0.05, 1000.0, 0.028);
    let result = replay_synthetic(&samples, sr, &markers, 0);
    assert_eq!(
        result.chosen, 1,
        "should choose Balanced for ~5 dB fan delta (delta={:.1} dB, tonal={})",
        result.delta_db, result.used_tonal,
    );
}

#[test]
fn decision_pure_function() {
    let input = Input {
        perf_power: 1e-3,
        bal_power: 1e-4,
        perf_tonal: 5e-4,
        bal_tonal: 5e-5,
        avg_moving_perf: 2.0,
        avg_moving_bal: 0.5,
        current_mode: 0,
        centroid_shift_hz: 0.0,
    };
    let r1 = decide(&input);
    let r2 = decide(&input);
    assert_eq!(r1.chosen, r2.chosen);
    assert_eq!(r1.delta_db, r2.delta_db);
    assert_eq!(r1.used_tonal, r2.used_tonal);
    assert_eq!(r1.low_confidence, r2.low_confidence);
}

#[test]
fn decision_low_confidence_keeps_current() {
    let result = decide(&Input {
        perf_power: 1e-5,
        bal_power: 1e-5,
        perf_tonal: 0.0,
        bal_tonal: 0.0,
        avg_moving_perf: 0.0,
        avg_moving_bal: 0.0,
        current_mode: 1,
        centroid_shift_hz: 0.0,
    });
    assert!(result.low_confidence, "should be low confidence");
    assert_eq!(result.chosen, 1, "should keep current mode (Balanced)");
}

fn fft_whole(re: &mut [f32], im: &mut [f32], n: usize) {
    let (tw_re, tw_im) = precompute_twiddles(n);
    fft(re, im, n, &tw_re, &tw_im);
}

#[test]
fn fft_single_tone_peak_bin() {
    let n = FFT_N;
    let target_bin = 10usize;
    let mut re = vec![0f32; n];
    let mut im = vec![0f32; n];
    for i in 0..n {
        re[i] = (std::f32::consts::TAU * target_bin as f32 * i as f32 / n as f32).cos();
    }
    fft_whole(&mut re, &mut im, n);
    let mut total_energy = 0f64;
    let mut bin_energy = 0f64;
    for k in 0..n {
        let mag_sq = (re[k] as f64) * (re[k] as f64) + (im[k] as f64) * (im[k] as f64);
        total_energy += mag_sq;
        if k == target_bin || k == n - target_bin {
            bin_energy += mag_sq;
        }
    }
    let ratio = bin_energy / total_energy;
    assert!(
        ratio > 0.99,
        "bin {target_bin} should have >99% energy, got {:.4}%",
        ratio * 100.0,
    );
}

#[test]
fn fft_parseval_energy_conservation() {
    let n = FFT_N;
    let mut re = vec![0f32; n];
    let mut im = vec![0f32; n];
    for i in 0..n {
        re[i] = 0.7 * (std::f32::consts::TAU * 5.0 * i as f32 / n as f32).cos()
            + 0.3 * (std::f32::consts::TAU * 50.0 * i as f32 / n as f32).sin();
    }
    let time_energy: f64 = re.iter().map(|&x| (x as f64) * (x as f64)).sum();
    fft_whole(&mut re, &mut im, n);
    let freq_energy: f64 = re
        .iter()
        .zip(im.iter())
        .map(|(&r, &i)| (r as f64) * (r as f64) + (i as f64) * (i as f64))
        .sum();
    let expected = n as f64 * time_energy;
    let rel_err = (freq_energy - expected).abs() / expected;
    assert!(
        rel_err < 1e-4,
        "Parseval violated: freq={freq_energy:.2}, expected={expected:.2}, rel_err={rel_err:.6}",
    );
}

#[test]
fn fft_dc_signal() {
    let n = FFT_N;
    let mut re = vec![1.0f32; n];
    let mut im = vec![0f32; n];
    fft_whole(&mut re, &mut im, n);
    assert!((re[0] - n as f32).abs() < 0.5, "DC bin should be {n}, got {}", re[0]);
    for k in 1..n {
        let mag = (re[k] * re[k] + im[k] * im[k]).sqrt();
        assert!(mag < 0.5, "bin {k} should be ~0 for DC, got mag={mag:.6}");
    }
}

#[test]
fn fans_settled_requires_stable_frames() {
    let mut moving: Vec<u8> = vec![0; SETTLE_STABLE_FRAMES - 1];
    assert!(!fans_settled(&moving, SETTLE_STABLE_FRAMES), "N-1 frames should not be enough");
    moving.push(0);
    assert!(fans_settled(&moving, SETTLE_STABLE_FRAMES), "exactly N should suffice");
}

#[test]
fn fans_settled_resets_on_movement() {
    let mut moving: Vec<u8> = vec![0; 20];
    moving.push(1);
    for _ in 0..(SETTLE_STABLE_FRAMES - 1) {
        moving.push(0);
    }
    assert!(
        !fans_settled(&moving, SETTLE_STABLE_FRAMES),
        "only N-1 stable after the moving frame, should not settle",
    );
    moving.push(0);
    assert!(
        fans_settled(&moving, SETTLE_STABLE_FRAMES),
        "N stable after the moving frame, should settle",
    );
}

#[test]
fn decision_both_zero_power() {
    let result = decide(&Input {
        perf_power: 0.0,
        bal_power: 0.0,
        perf_tonal: 0.0,
        bal_tonal: 0.0,
        avg_moving_perf: 0.0,
        avg_moving_bal: 0.0,
        current_mode: 0,
        centroid_shift_hz: 0.0,
    });
    assert_eq!(result.delta_db, 0.0, "both zero: delta should be 0");
    assert!(result.low_confidence, "both zero: low confidence");
    assert_eq!(result.chosen, 0, "low confidence: keep current (Performance)");
}

#[test]
fn decision_perf_zero_bal_nonzero() {
    let result = decide(&Input {
        perf_power: 0.0,
        bal_power: 1e-3,
        perf_tonal: 0.0,
        bal_tonal: 1e-3,
        avg_moving_perf: 0.0,
        avg_moving_bal: 2.0,
        current_mode: 1,
        centroid_shift_hz: 0.0,
    });
    assert_eq!(result.chosen, 0, "perf silent: choose Performance");
}

#[test]
fn decision_exact_threshold_boundary() {
    let ratio = 10f32.powf(threshold() / 10.0);
    let bal = 1e-4;
    let perf = bal * ratio;
    let result = decide(&Input {
        perf_power: perf,
        bal_power: bal,
        perf_tonal: 0.0,
        bal_tonal: 0.0,
        avg_moving_perf: 2.0,
        avg_moving_bal: 0.0,
        current_mode: 0,
        centroid_shift_hz: 0.0,
    });
    assert!(!result.low_confidence, "should not be low confidence with moving tracks");
    assert!(
        result.delta_db >= threshold() - 0.01,
        "delta {:.3} should be ~{}",
        result.delta_db,
        threshold(),
    );
    assert_eq!(result.chosen, 1, "exactly at threshold: Balanced");
}

#[test]
fn decision_just_below_threshold() {
    let ratio = 10f32.powf(2.99 / 10.0);
    let bal = 1e-4;
    let perf = bal * ratio;
    let result = decide(&Input {
        perf_power: perf,
        bal_power: bal,
        perf_tonal: 0.0,
        bal_tonal: 0.0,
        avg_moving_perf: 2.0,
        avg_moving_bal: 0.0,
        current_mode: 0,
        centroid_shift_hz: 0.0,
    });
    assert!(
        result.delta_db < threshold(),
        "delta {:.3} should be below {}",
        result.delta_db,
        threshold(),
    );
    assert_eq!(result.chosen, 0, "below threshold: Performance");
}

#[test]
fn decision_negative_delta_loud_balanced() {
    let result = decide(&Input {
        perf_power: 1e-5,
        bal_power: 1e-3,
        perf_tonal: 1e-5,
        bal_tonal: 1e-3,
        avg_moving_perf: 0.0,
        avg_moving_bal: 2.0,
        current_mode: 1,
        centroid_shift_hz: 0.0,
    });
    assert!(
        result.delta_db < 0.0,
        "Balanced louder: delta should be negative, got {:.1}",
        result.delta_db,
    );
    assert_eq!(result.chosen, 0, "negative delta: Performance");
}

#[test]
fn decision_tonal_fallback_to_total_power() {
    let result = decide(&Input {
        perf_power: 1e-3,
        bal_power: 1e-4,
        perf_tonal: 1e-5,
        bal_tonal: 1e-5,
        avg_moving_perf: 2.0,
        avg_moving_bal: 0.0,
        current_mode: 0,
        centroid_shift_hz: 0.0,
    });
    assert!(!result.used_tonal, "both tonal < 1e-4: should use total power");
    assert_eq!(result.chosen, 1, "10 dB delta with total power: Balanced");
}

#[test]
fn decision_current_mode_0_low_confidence() {
    let result = decide(&Input {
        perf_power: 1e-5,
        bal_power: 1e-5,
        perf_tonal: 0.0,
        bal_tonal: 0.0,
        avg_moving_perf: 0.0,
        avg_moving_bal: 0.0,
        current_mode: 0,
        centroid_shift_hz: 0.0,
    });
    assert!(result.low_confidence);
    assert_eq!(result.chosen, 0, "low confidence: keep Performance");
}

#[test]
fn trimmed_power_removes_outliers() {
    let mut powers = vec![1.0f32; 100];
    powers.push(1000.0);
    let tp = trimmed_mean(&powers);
    assert!(
        (tp - 1.0).abs() < 0.1,
        "trimmed power should be ~1.0 with outlier removed, got {tp}",
    );
}

fn pink_noise(n: usize, seed: u64) -> Vec<f32> {
    let mut rng = seed;
    let mut white = || -> f32 {
        rng = rng.wrapping_mul(6364136223846793005).wrapping_add(1442695040888963407);
        ((rng >> 33) as i32 as f32) / (i32::MAX as f32)
    };
    let mut rows = [0f32; 8];
    for r in &mut rows {
        *r = white();
    }
    let mut running_sum: f32 = rows.iter().sum();
    let mut out = Vec::with_capacity(n);
    for i in 0..n {
        let row = (i as u32).trailing_zeros().min(7) as usize;
        running_sum -= rows[row];
        rows[row] = white();
        running_sum += rows[row];
        out.push((running_sum + white()) / 9.0);
    }
    out
}

/// A fan: harmonics of a fundamental that wobbles, over pink noise.
struct FanSoundProfile {
    fundamental_hz: f32,
    n_harmonics: usize,
    harmonic_rolloff_db: f32,
    noise_floor_db: f32,
    amplitude: f32,
    fm_depth_hz: f32,
    fm_rate_hz: f32,
}

impl FanSoundProfile {
    fn generate(&self, sample_rate: u32, duration_secs: f32) -> Vec<f32> {
        let n = (duration_secs * sample_rate as f32) as usize;
        let dt = 1.0 / sample_rate as f32;
        let two_pi = std::f32::consts::TAU;
        let noise_amp = self.amplitude * 10f32.powf(self.noise_floor_db / 20.0);
        let noise = pink_noise(n, 42);
        let mut out = Vec::with_capacity(n);
        let mut phases = vec![0f32; self.n_harmonics];
        for i in 0..n {
            let t = i as f32 * dt;
            let fm_offset = self.fm_depth_hz * (two_pi * self.fm_rate_hz * t).sin();
            let mut tonal = 0f32;
            for h in 0..self.n_harmonics {
                let freq = (self.fundamental_hz + fm_offset) * (h + 1) as f32;
                let gain = 10f32.powf(self.harmonic_rolloff_db * h as f32 / 20.0);
                phases[h] += two_pi * freq * dt;
                if phases[h] > two_pi {
                    phases[h] -= two_pi;
                }
                tonal += gain * phases[h].sin();
            }
            out.push(self.amplitude * tonal / self.n_harmonics as f32 + noise_amp * noise[i]);
        }
        out
    }

    fn nothing() -> FanSoundProfile {
        FanSoundProfile {
            fundamental_hz: 0.0,
            n_harmonics: 0,
            harmonic_rolloff_db: 0.0,
            noise_floor_db: -60.0,
            amplitude: 0.0,
            fm_depth_hz: 0.0,
            fm_rate_hz: 0.0,
        }
    }

    /// Finds the profile of a recording by its averaged spectrum.
    fn characterize(samples: &[f32], sample_rate: u32) -> FanSoundProfile {
        let bin_hz = sample_rate as f32 / FFT_N as f32;
        let lo_bin = (BAND_LO_HZ as f32 / bin_hz).ceil() as usize;
        let hi_bin = (BAND_HI_HZ as f32 / bin_hz).floor() as usize;
        let half = FFT_N / 2;
        let mut avg_mag = vec![0f64; half + 1];
        let mut n_frames = 0usize;
        let (tw_re, tw_im) = precompute_twiddles(FFT_N);
        let mut re = vec![0f32; FFT_N];
        let mut im = vec![0f32; FFT_N];
        let mut pos = 0;
        while pos + FFT_N <= samples.len() {
            for j in 0..FFT_N {
                let w = 0.5 - 0.5 * (std::f32::consts::TAU * j as f32 / FFT_N as f32).cos();
                re[j] = samples[pos + j] * w;
            }
            for v in im.iter_mut() {
                *v = 0.0;
            }
            fft(&mut re, &mut im, FFT_N, &tw_re, &tw_im);
            for k in 0..=half {
                avg_mag[k] += (re[k] as f64 * re[k] as f64 + im[k] as f64 * im[k] as f64).sqrt();
            }
            n_frames += 1;
            pos += HOP;
        }
        if n_frames == 0 {
            return FanSoundProfile::nothing();
        }
        for m in &mut avg_mag {
            *m /= n_frames as f64;
        }
        let mut peaks: Vec<(f32, f32)> = Vec::new();
        let radius = 16usize;
        let last = hi_bin.min(half).min(avg_mag.len().saturating_sub(radius + 1));
        for k in lo_bin.max(radius + 1)..last {
            let mag = avg_mag[k] as f32;
            let prev = avg_mag[k - 1] as f32;
            let next = avg_mag[k + 1] as f32;
            if mag > prev && mag > next {
                let lo_k = k.saturating_sub(radius);
                let hi_k = (k + radius + 1).min(avg_mag.len());
                let mut near: Vec<f32> = avg_mag[lo_k..hi_k].iter().map(|&v| v as f32).collect();
                near.sort_by(|a, b| a.partial_cmp(b).unwrap());
                let local_floor = near[near.len() / 4].max(1e-20);
                if mag / local_floor < 2.0 {
                    continue;
                }
                let denom = prev - 2.0 * mag + next;
                let offset = if denom.abs() > 1e-10 { 0.5 * (prev - next) / denom } else { 0.0 };
                peaks.push(((k as f32 + offset) * bin_hz, mag));
            }
        }
        peaks.sort_by(|a, b| b.1.partial_cmp(&a.1).unwrap());
        peaks.truncate(12);
        peaks.sort_by(|a, b| a.0.partial_cmp(&b.0).unwrap());

        let groups = harmonic_groups(&peaks, 50.0);
        let (fundamental_hz, in_group) = if !groups.is_empty() {
            let mut best = groups[0];
            for g in &groups {
                if g.1 >= best.1 {
                    best = *g;
                }
            }
            let tol = 2f32.powf(50.0 / 1200.0);
            let indices: Vec<bool> = peaks
                .iter()
                .map(|&(freq, _)| {
                    let ratio = freq / best.0;
                    let nearest = ratio.round();
                    (1.0..=8.0).contains(&nearest)
                        && ratio / nearest > 1.0 / tol
                        && ratio / nearest < tol
                })
                .collect();
            (best.0, indices)
        } else if !peaks.is_empty() {
            let mut strongest_at = 0usize;
            for (i, p) in peaks.iter().enumerate() {
                if p.1 >= peaks[strongest_at].1 {
                    strongest_at = i;
                }
            }
            let mut indices = vec![false; peaks.len()];
            indices[strongest_at] = true;
            (peaks[strongest_at].0, indices)
        } else {
            return FanSoundProfile::nothing();
        };
        let mut harmonic_mags: Vec<(f32, f32)> = Vec::new();
        for (j, &(freq, mag)) in peaks.iter().enumerate() {
            if in_group[j] {
                harmonic_mags.push(((freq / fundamental_hz).round(), mag));
            }
        }
        harmonic_mags.sort_by(|a, b| a.0.partial_cmp(&b.0).unwrap());
        let n_harmonics = harmonic_mags.len();
        let rolloff = if harmonic_mags.len() >= 2 {
            let fund_mag = harmonic_mags[0].1.max(1e-20);
            let mut rolloffs = Vec::new();
            for hm in &harmonic_mags[1..] {
                let h_idx = hm.0 - 1.0;
                if h_idx > 0.0 {
                    rolloffs.push(20.0 * (hm.1 / fund_mag).log10() / h_idx);
                }
            }
            if rolloffs.is_empty() {
                -6.0
            } else {
                rolloffs.sort_by(|a, b| a.partial_cmp(b).unwrap());
                rolloffs[rolloffs.len() / 2]
            }
        } else {
            -6.0
        };
        let fund_mag = harmonic_mags.first().map(|hm| hm.1).unwrap_or(0.0);
        FanSoundProfile {
            fundamental_hz,
            n_harmonics,
            harmonic_rolloff_db: rolloff,
            noise_floor_db: -60.0,
            amplitude: fund_mag * 2.0 / (FFT_N as f32 / 2.0),
            fm_depth_hz: 0.0,
            fm_rate_hz: 0.0,
        }
    }
}

/// The series among tones: the fundamental, and how many tones it has.
fn harmonic_groups(peaks: &[(f32, f32)], tolerance_cents: f32) -> Vec<(f32, u8)> {
    let tolerance = 2f32.powf(tolerance_cents / 1200.0);
    let useful: Vec<bool> = peaks.iter().map(|p| can_be_fundamental(p.0.to_bits())).collect();
    let overtone: Vec<Vec<bool>> = peaks
        .iter()
        .map(|f| {
            peaks
                .iter()
                .map(|p| {
                    let ratio = p.0 / f.0;
                    let nearest = ratio.round();
                    let deviation = ratio / nearest;
                    (2.0..=8.0).contains(&nearest)
                        && deviation > 1.0 / tolerance
                        && deviation < tolerance
                })
                .collect()
        })
        .collect();
    find_harmonic_groups(&useful, &overtone).iter().map(|&(i, n)| (peaks[i].0, n)).collect()
}

fn synthetic_fan_ab(
    perf: (f32, f32, f32),
    bal: (f32, f32, f32),
) -> (Vec<f32>, u32, Vec<(u32, String)>) {
    let sample_rate = 48000;
    let mut samples: Vec<f32> = Vec::new();
    let mut markers = Vec::new();
    for (name, p) in [("perf", perf), ("bal", bal)] {
        markers.push((samples.len() as u32, format!("settle_{name}")));
        samples.extend(std::iter::repeat(0.0f32).take(2 * sample_rate as usize));
        markers.push((samples.len() as u32, format!("capture_{name}")));
        let fan = FanSoundProfile {
            fundamental_hz: p.0,
            n_harmonics: 4,
            harmonic_rolloff_db: -6.0,
            noise_floor_db: p.2,
            amplitude: p.1,
            fm_depth_hz: 2.0,
            fm_rate_hz: 0.5,
        };
        samples.extend_from_slice(&fan.generate(sample_rate, 6.0));
    }
    markers.push((samples.len() as u32, "end".to_string()));
    (samples, sample_rate, markers)
}

#[test]
fn synthetic_multiharmonic_fans_audible() {
    let (samples, sr, markers) = synthetic_fan_ab((800.0, 0.1, -20.0), (800.0, 0.01, -20.0));
    let result = replay_synthetic(&samples, sr, &markers, 0);
    assert_eq!(
        result.chosen, 1,
        "multi-harmonic: should choose Balanced (delta={:.1} dB)",
        result.delta_db,
    );
}

#[test]
fn synthetic_broadband_masks_tones() {
    let (samples, sr, markers) = synthetic_fan_ab((800.0, 0.001, 0.0), (800.0, 0.001, 0.0));
    let result = replay_synthetic(&samples, sr, &markers, 1);
    assert!(
        result.delta_db.abs() < threshold(),
        "broadband noise should mask tones, delta={:.1} dB",
        result.delta_db,
    );
}

#[test]
fn centroid_shift_tips_marginal_decision() {
    let ratio = 10f32.powf(2.0 / 10.0);
    let bal = 1e-4;
    let perf = bal * ratio;
    let result = decide(&Input {
        perf_power: perf,
        bal_power: bal,
        perf_tonal: 0.0,
        bal_tonal: 0.0,
        avg_moving_perf: 2.0,
        avg_moving_bal: 0.0,
        current_mode: 0,
        centroid_shift_hz: 400.0,
    });
    assert_eq!(
        result.chosen, 1,
        "centroid boost should tip marginal 2 dB delta to Balanced (delta={:.1})",
        result.delta_db,
    );
}

#[test]
fn centroid_shift_discordant_no_effect() {
    let ratio = 10f32.powf(2.0 / 10.0);
    let bal = 1e-4;
    let perf = bal * ratio;
    let result = decide(&Input {
        perf_power: perf,
        bal_power: bal,
        perf_tonal: 0.0,
        bal_tonal: 0.0,
        avg_moving_perf: 2.0,
        avg_moving_bal: 0.0,
        current_mode: 0,
        centroid_shift_hz: -400.0,
    });
    assert_eq!(
        result.chosen, 0,
        "discordant centroid should not tip decision (delta={:.1})",
        result.delta_db,
    );
}

#[test]
fn centroid_shift_no_effect_above_threshold() {
    let result = decide(&Input {
        perf_power: 1e-3,
        bal_power: 1e-4,
        perf_tonal: 0.0,
        bal_tonal: 0.0,
        avg_moving_perf: 2.0,
        avg_moving_bal: 0.0,
        current_mode: 0,
        centroid_shift_hz: 0.0,
    });
    assert_eq!(result.chosen, 1, "above threshold: Balanced regardless");
}

#[test]
fn harmonic_group_detected_in_multiharmonic() {
    let peaks = vec![(800.0f32, 1.0f32), (1600.0, 0.5), (2400.0, 0.25)];
    let groups = harmonic_groups(&peaks, 50.0);
    assert_eq!(groups.len(), 1, "should detect 1 harmonic group from 800+1600+2400");
    assert!(
        (groups[0].0 - 800.0).abs() < 1.0,
        "fundamental should be ~800 Hz, got {}",
        groups[0].0,
    );
    assert!(
        groups[0].1 >= 2,
        "should have at least 2 peaks in group, got {}",
        groups[0].1,
    );
    assert_eq!(groups[0].1, 3);
}

#[test]
fn harmonic_group_rejects_non_harmonic() {
    let peaks = vec![(800.0f32, 1.0f32), (1100.0, 0.5), (1850.0, 0.25)];
    let groups = harmonic_groups(&peaks, 50.0);
    assert!(
        groups.is_empty(),
        "non-harmonic peaks should not form groups, got {} groups",
        groups.len(),
    );
}

fn autocorrelation_confirm(buf: &[f32], candidate_hz: f32, sample_rate: u32) -> f32 {
    if !can_be_fundamental(candidate_hz.to_bits()) {
        return 0.0;
    }
    let center = (sample_rate as f32 / candidate_hz).round() as usize;
    let mut best = 0f32;
    for lag in lags(center, buf.len()) {
        let (mut xy, mut xx, mut yy) = (0f64, 0f64, 0f64);
        for i in 0..buf.len() - lag {
            let x = buf[i] as f64;
            let y = buf[i + lag] as f64;
            xy += x * y;
            xx += x * x;
            yy += y * y;
        }
        let denom = (xx * yy).sqrt();
        if denom > 1e-20 && (xy / denom) as f32 > best {
            best = (xy / denom) as f32;
        }
    }
    best.min(1.0)
}

#[test]
fn autocorrelation_confirms_stft_pitch() {
    let sr = 48000u32;
    let buf: Vec<f32> = (0..FFT_N)
        .map(|i| (std::f32::consts::TAU * 800.0 * i as f32 / sr as f32).sin())
        .collect();
    let conf = autocorrelation_confirm(&buf, 800.0, sr);
    assert!(conf > 0.9, "ACF confidence for pure 800 Hz tone should be >0.9, got {conf}");
}

#[test]
fn autocorrelation_rejects_noise() {
    let buf: Vec<f32> = (0..FFT_N)
        .map(|i| {
            let mut h = i as u32;
            h ^= h >> 16;
            h = h.wrapping_mul(0x45d9f3b);
            h ^= h >> 16;
            h = h.wrapping_mul(0x45d9f3b);
            h ^= h >> 16;
            (h as f32) / (u32::MAX as f32) * 2.0 - 1.0
        })
        .collect();
    let conf = autocorrelation_confirm(&buf, 800.0, 48000);
    assert!(conf < 0.3, "ACF confidence for white noise should be <0.3, got {conf}");
}

#[test]
fn fan_profile_round_trip_800hz() {
    let original = FanSoundProfile {
        fundamental_hz: 800.0,
        n_harmonics: 4,
        harmonic_rolloff_db: -6.0,
        noise_floor_db: -20.0,
        amplitude: 0.1,
        fm_depth_hz: 2.0,
        fm_rate_hz: 0.5,
    };
    let sr = 48000;
    let recovered = FanSoundProfile::characterize(&original.generate(sr, 3.0), sr);
    let fund_err_pct = ((recovered.fundamental_hz - original.fundamental_hz)
        / original.fundamental_hz)
        .abs()
        * 100.0;
    assert!(
        fund_err_pct < 5.0,
        "fundamental: expected ~{:.0} Hz, got {:.1} Hz ({:.1}% error)",
        original.fundamental_hz,
        recovered.fundamental_hz,
        fund_err_pct,
    );
    assert!(
        recovered.n_harmonics >= original.n_harmonics.saturating_sub(1),
        "harmonics: expected at least {}, got {}",
        original.n_harmonics.saturating_sub(1),
        recovered.n_harmonics,
    );
    let rolloff_err = (recovered.harmonic_rolloff_db - original.harmonic_rolloff_db).abs();
    assert!(
        rolloff_err < 3.0,
        "rolloff: expected {:.1} dB, got {:.1} dB (err {:.1})",
        original.harmonic_rolloff_db,
        recovered.harmonic_rolloff_db,
        rolloff_err,
    );
}

#[test]
fn fan_profile_round_trip_1200hz() {
    let original = FanSoundProfile {
        fundamental_hz: 1200.0,
        n_harmonics: 2,
        harmonic_rolloff_db: -6.0,
        noise_floor_db: -25.0,
        amplitude: 0.08,
        fm_depth_hz: 1.0,
        fm_rate_hz: 0.3,
    };
    let sr = 48000;
    let recovered = FanSoundProfile::characterize(&original.generate(sr, 3.0), sr);
    let fund_err_pct = ((recovered.fundamental_hz - original.fundamental_hz)
        / original.fundamental_hz)
        .abs()
        * 100.0;
    assert!(
        fund_err_pct < 5.0,
        "fundamental: expected ~{:.0} Hz, got {:.1} Hz ({:.1}% error)",
        original.fundamental_hz,
        recovered.fundamental_hz,
        fund_err_pct,
    );
    assert!(
        recovered.n_harmonics >= original.n_harmonics.saturating_sub(1),
        "harmonics: expected at least {}, got {}",
        original.n_harmonics.saturating_sub(1),
        recovered.n_harmonics,
    );
}

#[test]
fn fan_profile_round_trip_quiet() {
    let original = FanSoundProfile {
        fundamental_hz: 600.0,
        n_harmonics: 2,
        harmonic_rolloff_db: -6.0,
        noise_floor_db: -3.0,
        amplitude: 0.005,
        fm_depth_hz: 0.0,
        fm_rate_hz: 0.0,
    };
    let sr = 48000;
    let recovered = FanSoundProfile::characterize(&original.generate(sr, 5.0), sr);
    if recovered.fundamental_hz > 0.0 {
        let fund_err_pct = ((recovered.fundamental_hz - original.fundamental_hz)
            / original.fundamental_hz)
            .abs()
            * 100.0;
        assert!(
            fund_err_pct < 10.0,
            "quiet profile: expected ~{:.0} Hz, got {:.1} Hz ({:.1}% err)",
            original.fundamental_hz,
            recovered.fundamental_hz,
            fund_err_pct,
        );
    }
    assert!(
        recovered.amplitude < 0.1,
        "quiet profile: recovered amplitude {:.4} should be small",
        recovered.amplitude,
    );
}
