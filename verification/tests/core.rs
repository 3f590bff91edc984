use tts_core::config::{AEConfig, Config, TTLConfig};
use tts_core::errors::TtsError;
use tts_core::latent::{plan_latent, sample_noisy_latent, DurationEstimate};
use tts_core::mask::{get_text_mask, length_to_mask};
use tts_core::text::{flatten_ids, preprocess_text, sanitize_filename, text_to_unicode_values, UnicodeProcessor};

fn test_config() -> Config {
    Config {
        ae: AEConfig { sample_rate: 16000, base_chunk_size: 256 },
        ttl: TTLConfig { chunk_compress_factor: 2, latent_dim: 4 },
    }
}

fn dur(seconds: f32, sample_rate: i32) -> DurationEstimate {
    let valid = seconds.is_finite() && seconds >= 0.0;
    let scaled = seconds * sample_rate as f32;
    DurationEstimate {
        valid,
        samples: if valid { scaled as usize } else { 0 },
        rounded: if valid { scaled.round() as usize } else { 0 },
    }
}

#[test]
fn normalization_decomposes_compatibility_chars() {
    // U+FB01 (latin small ligature fi) decomposes to "fi" under NFKD.
    assert_eq!(preprocess_text("\u{fb01}x"), "fix");
    assert_eq!(preprocess_text(""), "");
}

#[test]
fn unicode_values_are_code_points() {
    assert_eq!(text_to_unicode_values("abc"), vec![97, 98, 99]);
    assert_eq!(text_to_unicode_values(""), Vec::<usize>::new());
}

#[test]
fn text_mask_marks_unpadded_prefix() {
    // Texts of varying length: the mask row i has exactly
    // len(normalize(text_i)) ones at the start, zeros elsewhere, and the
    // id rows are zero-padded beyond that length.
    let mut indexer: Vec<i64> = Vec::new();
    for i in 0..256 {
        indexer.push(i as i64 + 1000);
    }
    let proc = UnicodeProcessor::new(indexer);
    let texts = vec!["ab".to_string(), "c".to_string(), "defg".to_string()];
    let (ids, mask) = proc.call(&texts);
    assert_eq!(ids.len(), 3);
    assert_eq!(ids[0], vec![1097, 1098, 0, 0]);
    assert_eq!(ids[1], vec![1099, 0, 0, 0]);
    assert_eq!(ids[2], vec![1100, 1101, 1102, 1103]);
    assert_eq!(mask.rows.len(), 3);
    assert_eq!(mask.rows[0], vec![1, 1, 0, 0]);
    assert_eq!(mask.rows[1], vec![1, 0, 0, 0]);
    assert_eq!(mask.rows[2], vec![1, 1, 1, 1]);
}

#[test]
fn out_of_range_code_point_maps_to_sentinel() {
    let indexer: Vec<i64> = vec![7; 98];
    let proc = UnicodeProcessor::new(indexer);
    let texts = vec!["ab".to_string()];
    // 'a' (97) is in range, 'b' (98) is not.
    let (ids, _) = proc.call(&texts);
    assert_eq!(ids[0], vec![7, -1]);
}

#[test]
fn length_to_mask_with_explicit_width() {
    let m = length_to_mask(&vec![3, 1, 0], Some(4));
    assert_eq!(m.rows, vec![vec![1, 1, 1, 0], vec![1, 0, 0, 0], vec![0, 0, 0, 0]]);
    // A length above the width is clipped to it.
    let m2 = length_to_mask(&vec![5], Some(2));
    assert_eq!(m2.rows, vec![vec![1, 1]]);
}

#[test]
fn get_text_mask_uses_batch_maximum() {
    let m = get_text_mask(&vec![1, 3]);
    assert_eq!(m.rows, vec![vec![1, 0, 0], vec![1, 1, 1]]);
}

#[test]
fn sanitize_keeps_alnum_and_replaces_rest() {
    assert_eq!(sanitize_filename("hello world!", 20), "hello_world_");
    assert_eq!(sanitize_filename("abc", 5), "abc");
}

#[test]
fn sanitize_truncates_by_bytes() {
    assert_eq!(sanitize_filename("abcdef", 3), "abc");
    // A two-byte character that would straddle the limit is dropped whole.
    assert_eq!(sanitize_filename("a\u{e9}x", 2), "a");
}

#[test]
fn config_check_requires_positive_fields() {
    assert!(test_config().check());
    let mut bad = test_config();
    bad.ae.sample_rate = 0;
    assert!(!bad.check());
    let mut bad2 = test_config();
    bad2.ttl.latent_dim = -1;
    assert!(!bad2.check());
}

#[test]
fn latent_plan_shapes() {
    // bsz 2: latent shape must be
    // (bsz, latent_dim * chunk_compress_factor, ceil(max_samples / chunk)).
    let cfg = test_config();
    let durs = vec![dur(1.0, 16000), dur(0.5, 16000)];
    let plan = plan_latent(&durs, &cfg).unwrap();
    assert_eq!(plan.bsz, 2);
    assert_eq!(plan.chunk_size, 512);
    assert_eq!(plan.channel_dim, 8);
    assert_eq!(plan.latent_len, 32); // ceil(16000 / 512)
    assert_eq!(plan.valid_lens, vec![32, 16]);
    assert_eq!(plan.total_values(), 2 * 8 * 32);
}

#[test]
fn latent_noise_is_masked_beyond_valid_length() {
    let cfg = test_config();
    let durs = vec![dur(1.0, 16000), dur(0.5, 16000)];
    let plan = plan_latent(&durs, &cfg).unwrap();
    let n = plan.total_values();
    let noise: Vec<u32> = (0..n as u32).map(|x| x + 1).collect();
    let (latent, mask) = sample_noisy_latent(&plan, noise.clone());
    assert_eq!(latent.bsz, 2);
    assert_eq!(latent.ch, 8);
    assert_eq!(latent.tlen, 32);
    assert_eq!(mask.rows.len(), 2);
    assert_eq!(mask.rows[0].len(), 32);
    // Utterance 0 is valid over the whole axis; utterance 1 only to 16.
    for d in 0..8 {
        for t in 0..32 {
            let v0 = latent.get(0, d, t);
            assert_eq!(v0, noise[(0 * 8 + d) * 32 + t]);
            let v1 = latent.get(1, d, t);
            if t < 16 {
                assert_eq!(v1, noise[(1 * 8 + d) * 32 + t]);
            } else {
                assert_eq!(v1, 0);
            }
        }
    }
}

#[test]
fn zero_duration_yields_empty_valid_length() {
    // duration[i] = 0 gives valid latent length 0 and an all-zero mask
    // row, while the batch time length follows the maximum.
    let cfg = test_config();
    let durs = vec![dur(0.0, 16000), dur(1.0, 16000)];
    let plan = plan_latent(&durs, &cfg).unwrap();
    assert_eq!(plan.latent_len, 32);
    assert_eq!(plan.valid_lens, vec![0, 32]);
    let n = plan.total_values();
    let noise: Vec<u32> = vec![0x3f800000; n];
    let (latent, mask) = sample_noisy_latent(&plan, noise);
    assert!(mask.rows[0].iter().all(|&b| b == 0));
    for d in 0..8 {
        for t in 0..32 {
            assert_eq!(latent.get(0, d, t), 0);
        }
    }
}

#[test]
fn invalid_durations_are_rejected() {
    let cfg = test_config();
    let nan = dur(f32::NAN, 16000);
    assert!(!nan.valid);
    assert_eq!(plan_latent(&vec![nan], &cfg).unwrap_err(), TtsError::InvalidDuration);
    let neg = dur(-1.0, 16000);
    assert_eq!(plan_latent(&vec![neg, dur(1.0, 16000)], &cfg).unwrap_err(), TtsError::InvalidDuration);
    // An all-zero batch sizes to nothing.
    assert_eq!(plan_latent(&vec![dur(0.0, 16000)], &cfg).unwrap_err(), TtsError::InvalidDuration);
    // So does an empty one.
    assert_eq!(plan_latent(&Vec::new(), &cfg).unwrap_err(), TtsError::InvalidDuration);
}

#[test]
fn tokenizer_normalizes_before_indexing() {
    // The ligature U+FB01 decomposes to "fi" before indexing, so its row
    // holds the two decomposed code points.
    let indexer: Vec<i64> = (0..256).map(|i| i as i64).collect();
    let proc = UnicodeProcessor::new(indexer);
    let (ids, mask) = proc.call(&vec!["\u{fb01}".to_string()]);
    assert_eq!(ids[0], vec![102, 105]);
    assert_eq!(mask.rows[0], vec![1, 1]);
}

#[test]
fn flatten_ids_is_row_major() {
    let rows = vec![vec![1i64, 2], vec![3, 4], vec![5, 6]];
    assert_eq!(flatten_ids(&rows, 2), vec![1, 2, 3, 4, 5, 6]);
}
