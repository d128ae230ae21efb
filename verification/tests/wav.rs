use hp_thermal::meter::HOP;
use hp_thermal::wav::{write_debug_wav, write_wav, Marker};

fn le32(d: &[u8], at: usize) -> u32 {
    u32::from_le_bytes([d[at], d[at + 1], d[at + 2], d[at + 3]])
}

fn le16(d: &[u8], at: usize) -> u16 {
    u16::from_le_bytes([d[at], d[at + 1]])
}

/// Reads a WAV file of single-precision mono samples with cues and labels.
fn read_wav(data: &[u8]) -> Result<(Vec<f32>, u32, Vec<(u32, String)>), String> {
    if data.len() < 44 {
        return Err("file too small for WAV header".to_string());
    }
    if &data[0..4] != b"RIFF" || &data[8..12] != b"WAVE" {
        return Err("not a RIFF/WAVE file".to_string());
    }
    let mut sample_rate = 0u32;
    let mut samples: Vec<f32> = Vec::new();
    let mut cues: Vec<(u32, u32)> = Vec::new();
    let mut labels: Vec<(u32, String)> = Vec::new();
    let mut pos = 12usize;
    while pos + 8 <= data.len() {
        let size = le32(data, pos + 4) as usize;
        let start = pos + 8;
        let end = (start + size).min(data.len());
        let d = &data[start..end];
        match &data[pos..pos + 4] {
            b"fmt " => {
                if size < 16 {
                    return Err("fmt chunk too small".to_string());
                }
                if le16(d, 2) != 1 || le16(d, 0) != 3 || le16(d, 14) != 32 {
                    return Err("expected 32-bit float mono".to_string());
                }
                sample_rate = le32(d, 4);
            }
            b"data" => {
                for c in d.chunks_exact(4) {
                    samples.push(f32::from_le_bytes([c[0], c[1], c[2], c[3]]));
                }
            }
            b"cue " => {
                let n = le32(d, 0) as usize;
                for k in 0..n {
                    cues.push((le32(d, 4 + 24 * k), le32(d, 4 + 24 * k + 20)));
                }
            }
            b"LIST" => {
                assert_eq!(&d[0..4], b"adtl");
                let mut off = 4usize;
                while off + 8 <= d.len() {
                    let sub = le32(d, off + 4) as usize;
                    if &d[off..off + 4] == b"labl" && sub >= 4 {
                        let text = &d[off + 12..off + 8 + sub];
                        let text = text.split(|&b| b == 0).next().unwrap_or(b"");
                        labels.push((
                            le32(d, off + 8),
                            String::from_utf8_lossy(text).into_owned(),
                        ));
                    }
                    off += 8 + sub + (sub & 1);
                }
            }
            _ => {}
        }
        pos = start + size + (size & 1);
    }
    if samples.is_empty() {
        return Err("no audio data found".to_string());
    }
    if sample_rate == 0 {
        return Err("no fmt chunk found".to_string());
    }
    let mut markers: Vec<(u32, String)> = Vec::new();
    for &(id, at) in &cues {
        let label = labels
            .iter()
            .find(|(l, _)| *l == id)
            .map(|(_, t)| t.clone())
            .unwrap_or_else(|| format!("cue_{id}"));
        markers.push((at, label));
    }
    markers.sort_by_key(|&(at, _)| at);
    Ok((samples, sample_rate, markers))
}

#[test]
fn wav_round_trip() {
    let sample_rate = 48000u32;
    let num_samples = 48000u32;
    let mut samples: Vec<f32> = Vec::with_capacity(num_samples as usize);
    for i in 0..num_samples {
        let t = i as f32 / sample_rate as f32;
        samples.push(0.1 * (std::f32::consts::TAU * 440.0 * t).sin());
    }
    let markers: Vec<(u32, &str)> =
        vec![(0, "init"), (100, "capture_perf"), (300, "capture_bal"), (500, "end")];

    let patterns: Vec<u32> = samples.iter().map(|s| s.to_bits()).collect();
    let noted: Vec<Marker> = markers
        .iter()
        .map(|&(window, label)| Marker { window, label: label.as_bytes().to_vec() })
        .collect();
    let buf = write_debug_wav(&patterns, sample_rate, &noted).unwrap();
    assert_eq!(le32(&buf, 4) as usize, buf.len() - 8);

    let (read_samples, read_sr, read_markers) = read_wav(&buf).unwrap();
    assert_eq!(read_sr, sample_rate);
    assert_eq!(read_samples.len(), samples.len());
    for (i, (&orig, &read)) in samples.iter().zip(read_samples.iter()).enumerate() {
        assert_eq!(orig, read, "sample {i} mismatch");
    }
    assert_eq!(read_markers.len(), markers.len());
    for (i, ((pos, label), &(expected_win, expected_label))) in
        read_markers.iter().zip(markers.iter()).enumerate()
    {
        let expected_pos = expected_win * HOP as u32;
        assert_eq!(*pos, expected_pos, "marker {i} position mismatch");
        assert_eq!(label, expected_label, "marker {i} label mismatch");
    }
}

#[test]
fn recordings_without_markers_have_two_chunks() {
    let buf = write_debug_wav(&[0x3F80_0000, 0], 44100, &Vec::new()).unwrap();
    assert_eq!(buf.len(), 44 + 8);
    assert_eq!(&buf[36..40], b"data");
    assert_eq!(le32(&buf, 40), 8);
    assert_eq!(le32(&buf, 28), 44100 * 4);
}

#[test]
fn nothing_is_written_without_samples() {
    assert!(write_debug_wav(&[], 48000, &Vec::new()).is_none());
}

#[test]
fn integer_recordings_are_written() {
    let buf = write_wav(&[1, -1, i16::MIN, i16::MAX], 22050);
    assert_eq!(buf.len(), 44 + 8);
    assert_eq!(le32(&buf, 4), 44);
    assert_eq!(le16(&buf, 20), 1);
    assert_eq!(le16(&buf, 34), 16);
    assert_eq!(le32(&buf, 28), 44100);
    assert_eq!(&buf[44..], &[1, 0, 0xFF, 0xFF, 0, 0x80, 0xFF, 0x7F]);
}
