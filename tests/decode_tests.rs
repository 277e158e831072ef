use spotify_dl::sink::FileSinkMP3;
use spotify_dl::track::TrackMetadata;

const RATE: usize = 44_100;

fn sine_stereo(frames: usize) -> Vec<i16> {
    let mut v = Vec::with_capacity(frames * 2);
    for i in 0..frames {
        let t = i as f64 / RATE as f64;
        v.push((8000.0 * (2.0 * std::f64::consts::PI * 440.0 * t).sin()) as i16);
        v.push((6000.0 * (2.0 * std::f64::consts::PI * 660.0 * t).sin()) as i16);
    }
    v
}

fn encode(samples: Vec<i16>, meta: Option<TrackMetadata>) -> Vec<u8> {
    let mut sink = FileSinkMP3::open(Some("round.mp3".to_string()));
    if let Some(m) = meta {
        sink.add_metadata(m);
    }
    sink.write(samples);
    sink.stop().expect("encodes")
}

/// Decodes the stream; returns interleaved samples and the tags found.
fn decode(bytes: Vec<u8>) -> (Vec<i16>, Vec<(symphonia::core::meta::StandardTagKey, String)>) {
    let mss = symphonia::core::io::MediaSourceStream::new(Box::new(std::io::Cursor::new(bytes)), Default::default());
    let mut hint = symphonia::core::probe::Hint::new();
    hint.with_extension("mp3");
    let mut probed = symphonia::default::get_probe()
        .format(&hint, mss, &symphonia::core::formats::FormatOptions::default(), &symphonia::core::meta::MetadataOptions::default())
        .expect("probes as mp3");
    let mut tags = Vec::new();
    if let Some(meta) = probed.metadata.get() {
        if let Some(rev) = meta.current() {
            for tag in rev.tags() {
                if let Some(key) = tag.std_key {
                    tags.push((key, tag.value.to_string()));
                }
            }
        }
    }
    let mut format = probed.format;
    let track = format.default_track().expect("has a track").clone();
    let mut decoder = symphonia::default::get_codecs()
        .make(&track.codec_params, &symphonia::core::codecs::DecoderOptions::default())
        .expect("mp3 decoder");
    let mut out = Vec::new();
    while let Ok(packet) = format.next_packet() {
        if let Ok(decoded) = decoder.decode(&packet) {
            let mut buf = symphonia::core::audio::SampleBuffer::<i16>::new(decoded.capacity() as u64, *decoded.spec());
            buf.copy_interleaved_ref(decoded);
            out.extend_from_slice(buf.samples());
        }
    }
    (out, tags)
}

fn channel(v: &[i16], c: usize) -> Vec<f64> {
    v.iter().skip(c).step_by(2).map(|&s| s as f64).collect()
}

/// Best normalised correlation of `b` against `a` over small delays.
fn best_correlation(a: &[f64], b: &[f64], window: usize) -> f64 {
    let start = 4_000;
    assert!(start + window <= a.len());
    let mut best = -1.0f64;
    for lag in 0..3_000usize {
        if start + lag + window > b.len() {
            break;
        }
        let x = &a[start..start + window];
        let y = &b[start + lag..start + lag + window];
        let dot: f64 = x.iter().zip(y).map(|(p, q)| p * q).sum();
        let nx: f64 = x.iter().map(|p| p * p).sum::<f64>().sqrt();
        let ny: f64 = y.iter().map(|q| q * q).sum::<f64>().sqrt();
        let c = dot / (nx * ny);
        if c > best {
            best = c;
        }
    }
    best
}

#[test]
fn encoded_audio_decodes_to_the_same_signal() {
    let input = sine_stereo(RATE);
    let (decoded, _) = decode(encode(input.clone(), None));
    let in_frames = input.len() / 2;
    let out_frames = decoded.len() / 2;
    assert!(out_frames + 2 * 1152 >= in_frames, "{} decoded frames for {}", out_frames, in_frames);
    assert!(out_frames <= in_frames + 4 * 1152, "{} decoded frames for {}", out_frames, in_frames);
    for c in 0..2 {
        let corr = best_correlation(&channel(&input, c), &channel(&decoded, c), 20_000);
        assert!(corr > 0.95, "channel {} correlation {}", c, corr);
    }
}

#[test]
fn odd_sample_count_encodes_the_complete_frames() {
    let mut input = sine_stereo(RATE / 2);
    input.push(1234);
    let (decoded, _) = decode(encode(input.clone(), None));
    let out_frames = decoded.len() / 2;
    assert!(out_frames + 2 * 1152 >= RATE / 2, "{} decoded frames", out_frames);
    assert!(out_frames <= RATE / 2 + 4 * 1152, "{} decoded frames", out_frames);
    let corr = best_correlation(&channel(&input[..RATE], 0), &channel(&decoded, 0), 10_000);
    assert!(corr > 0.95, "correlation {}", corr);
}

#[test]
fn encoded_file_carries_the_tags() {
    let meta = TrackMetadata::new(vec!["X".to_string(), "Y".to_string()], "T".to_string(), "Al".to_string());
    let (_, tags) = decode(encode(sine_stereo(RATE / 4), Some(meta)));
    let get = |k: symphonia::core::meta::StandardTagKey| tags.iter().find(|(key, _)| *key == k).map(|(_, v)| v.clone());
    assert_eq!(get(symphonia::core::meta::StandardTagKey::TrackTitle), Some("T".to_string()));
    assert_eq!(get(symphonia::core::meta::StandardTagKey::Artist), Some("X, Y".to_string()));
    assert_eq!(get(symphonia::core::meta::StandardTagKey::Album), Some("Al".to_string()));
    assert_eq!(get(symphonia::core::meta::StandardTagKey::Date), None);
    assert_eq!(get(symphonia::core::meta::StandardTagKey::Comment), None);
}
