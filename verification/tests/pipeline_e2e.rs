use tts_core::config::{AEConfig, Config, TTLConfig};
use tts_core::diffusion::DiffusionEngine;
use tts_core::errors::TtsError;
use tts_core::latent::{plan_latent, sample_noisy_latent, DurationEstimate};
use tts_core::pipeline::{segment_bounds, TextToSpeech};
use tts_core::style::{batch_voice_styles, StyleComponent, VoiceStyleData};
use tts_core::tensor::Tensor3;
use tts_core::text::UnicodeProcessor;

fn component(d1: usize, d2: usize, values: &[f32]) -> StyleComponent {
    let mut data = Vec::new();
    let mut batch = Vec::new();
    let mut k = 0;
    for _ in 0..d1 {
        let mut row = Vec::new();
        for _ in 0..d2 {
            row.push(values[k].to_bits());
            k += 1;
        }
        batch.push(row);
    }
    data.push(batch);
    StyleComponent { data, dims: vec![1, d1, d2] }
}

fn zero_component(d1: usize, d2: usize) -> StyleComponent {
    component(d1, d2, &vec![0.0f32; d1 * d2])
}

fn test_config() -> Config {
    Config {
        ae: AEConfig { sample_rate: 16000, base_chunk_size: 256 },
        ttl: TTLConfig { chunk_compress_factor: 2, latent_dim: 4 },
    }
}

fn identity_indexer() -> Vec<i64> {
    (0..256).map(|i| i as i64).collect()
}

#[test]
fn style_batching_copies_each_source_block() {
    let s0 = VoiceStyleData {
        style_ttl: component(2, 2, &[1.0, 2.0, 3.0, 4.0]),
        style_dp: component(1, 2, &[9.0, 8.0]),
    };
    let s1 = VoiceStyleData {
        style_ttl: component(2, 2, &[5.0, 6.0, 7.0, 8.0]),
        style_dp: component(1, 2, &[7.0, 6.0]),
    };
    let style = batch_voice_styles(&vec![s0, s1]).unwrap();
    assert_eq!(style.ttl.bsz, 2);
    assert_eq!(style.ttl.ch, 2);
    assert_eq!(style.ttl.tlen, 2);
    assert_eq!(style.ttl.get(0, 0, 0), 1.0f32.to_bits());
    assert_eq!(style.ttl.get(0, 1, 1), 4.0f32.to_bits());
    assert_eq!(style.ttl.get(1, 0, 1), 6.0f32.to_bits());
    assert_eq!(style.ttl.get(1, 1, 0), 7.0f32.to_bits());
    assert_eq!(style.dp.get(1, 0, 0), 7.0f32.to_bits());
}

#[test]
fn style_dims_mismatch_is_rejected() {
    // Source 2's dims[1] differs from source 1's: ShapeMismatch, and no
    // batched tensor comes back.
    let s0 = VoiceStyleData { style_ttl: zero_component(4, 4), style_dp: zero_component(2, 2) };
    let s1 = VoiceStyleData { style_ttl: zero_component(3, 4), style_dp: zero_component(2, 2) };
    let r = batch_voice_styles(&vec![s0, s1]);
    assert_eq!(r.unwrap_err(), TtsError::ShapeMismatch);
}

#[test]
fn malformed_style_source_is_config_error() {
    let mut bad = zero_component(2, 2);
    bad.dims = vec![2, 2];
    let s = VoiceStyleData { style_ttl: bad, style_dp: zero_component(2, 2) };
    assert_eq!(batch_voice_styles(&vec![s]).unwrap_err(), TtsError::Config);
}

#[test]
fn prepare_rejects_count_mismatch() {
    let tts = TextToSpeech::new(test_config(), UnicodeProcessor::new(identity_indexer()));
    let sources = vec![VoiceStyleData {
        style_ttl: zero_component(4, 4),
        style_dp: zero_component(2, 2),
    }];
    let texts = vec!["a".to_string(), "b".to_string()];
    assert_eq!(tts.prepare(&texts, &sources).unwrap_err(), TtsError::Config);
    let none: Vec<String> = Vec::new();
    let no_sources: Vec<VoiceStyleData> = Vec::new();
    assert_eq!(tts.prepare(&none, &no_sources).unwrap_err(), TtsError::Config);
}

#[test]
fn diffusion_replaces_latent_and_counts_steps() {
    let initial = Tensor3::from_flat(vec![1, 2, 3, 4], 1, 2, 2);
    let mut engine = DiffusionEngine::new(initial, 2);
    assert!(!engine.is_done());
    assert_eq!(engine.current_step(), 0);
    let step1 = Tensor3::from_flat(vec![5, 6, 7, 8], 1, 2, 2);
    engine.apply_denoised(step1).unwrap();
    assert_eq!(engine.current_step(), 1);
    assert_eq!(engine.latent().data, vec![5, 6, 7, 8]);
    let step2 = Tensor3::from_flat(vec![9, 10, 11, 12], 1, 2, 2);
    engine.apply_denoised(step2).unwrap();
    assert!(engine.is_done());
    assert_eq!(engine.into_latent().data, vec![9, 10, 11, 12]);
}

#[test]
fn diffusion_rejects_wrong_shape_with_step_index() {
    let initial = Tensor3::from_flat(vec![1, 2, 3, 4], 1, 2, 2);
    let mut engine = DiffusionEngine::new(initial, 3);
    let ok = Tensor3::from_flat(vec![0, 0, 0, 0], 1, 2, 2);
    engine.apply_denoised(ok).unwrap();
    let bad = Tensor3::from_flat(vec![0, 0], 1, 1, 2);
    let r = engine.apply_denoised(bad);
    assert_eq!(r.unwrap_err(), TtsError::Inference(1));
    // The failed step left the state unchanged.
    assert_eq!(engine.current_step(), 1);
    assert_eq!(engine.latent().data, vec![0, 0, 0, 0]);
}

#[test]
fn tensor_try_from_flat_checks_length() {
    assert!(Tensor3::try_from_flat(vec![0; 6], 1, 2, 3).is_some());
    assert!(Tensor3::try_from_flat(vec![0; 5], 1, 2, 3).is_none());
    assert!(Tensor3::try_from_flat(Vec::new(), 1, 2, 0).is_some());
}

#[test]
fn segment_slicing_arithmetic() {
    // Buffer of L samples, bsz segments: utterance i's slice starts at
    // i * (L / bsz) and is min(round(sample_rate * d[i]), L / bsz) long.
    let l = 32000;
    let (s0, n0) = segment_bounds(l, 2, 8000, 0);
    assert_eq!((s0, n0), (0, 8000));
    let (s1, n1) = segment_bounds(l, 2, 8000, 1);
    assert_eq!((s1, n1), (16000, 8000));
    // A duration longer than the segment is clipped to it.
    let (s2, n2) = segment_bounds(l, 2, 20000, 1);
    assert_eq!((s2, n2), (16000, 16000));
}

// A deterministic stand-in for the denoise capability: a fixed word-wise
// transform of the latent, the shape kept.
fn stub_denoise(latent: &Tensor3, step: usize) -> Tensor3 {
    let data: Vec<u32> = latent.data.iter().map(|&w| w.wrapping_add(step as u32 + 1)).collect();
    Tensor3::from_flat(data, latent.bsz, latent.ch, latent.tlen)
}

// A fixed linear-congruential word generator standing in for a seeded
// noise source.
fn stub_noise(seed: u32, n: usize) -> Vec<u32> {
    let mut state = seed;
    let mut out = Vec::with_capacity(n);
    for _ in 0..n {
        state = state.wrapping_mul(1664525).wrapping_add(1013904223);
        out.push(state);
    }
    out
}

fn run_once(seed: u32) -> (Vec<Vec<u32>>, Vec<u32>) {
    let cfg = test_config();
    let tts = TextToSpeech::new(cfg.clone(), UnicodeProcessor::new(identity_indexer()));
    let texts = vec!["hello".to_string(), "hi".to_string()];
    let sources = vec![
        VoiceStyleData { style_ttl: zero_component(4, 4), style_dp: zero_component(2, 2) },
        VoiceStyleData { style_ttl: zero_component(4, 4), style_dp: zero_component(2, 2) },
    ];
    let _prepared = tts.prepare(&texts, &sources).unwrap();
    // The stub duration predictor answers 0.5 s and 0.25 s.
    let durs = vec![
        DurationEstimate { valid: true, samples: 8000, rounded: 8000 },
        DurationEstimate { valid: true, samples: 4000, rounded: 4000 },
    ];
    let plan = plan_latent(&durs, &cfg).unwrap();
    let noise = stub_noise(seed, plan.total_values());
    let (latent, _mask) = sample_noisy_latent(&plan, noise);
    let mut engine = DiffusionEngine::new(latent, 3);
    let mut trajectory = Vec::new();
    while !engine.is_done() {
        let step = engine.current_step();
        let next = stub_denoise(engine.latent(), step);
        trajectory.push(next.data.clone());
        engine.apply_denoised(next).unwrap();
    }
    // The stub vocoder hands the final latent's words back.
    let wav = engine.into_latent().data;
    (trajectory, wav)
}

#[test]
fn identical_runs_are_bit_identical() {
    // Fixed noise seed, deterministic stub engine: two runs with the
    // same inputs give the same latent trajectory and the same waveform.
    let (traj_a, wav_a) = run_once(42);
    let (traj_b, wav_b) = run_once(42);
    assert_eq!(traj_a, traj_b);
    assert_eq!(wav_a, wav_b);
}

#[test]
fn end_to_end_single_utterance() {
    // text ["hello"], zero styles, one denoising step, stub engine:
    // duration 1.0 s, denoise the identity, vocoder 16000 zeros.
    let cfg = test_config();
    let tts = TextToSpeech::new(cfg.clone(), UnicodeProcessor::new(identity_indexer()));
    let texts = vec!["hello".to_string()];
    let sources = vec![VoiceStyleData {
        style_ttl: zero_component(4, 4),
        style_dp: zero_component(2, 2),
    }];
    let prepared = tts.prepare(&texts, &sources).unwrap();
    assert_eq!(prepared.text_ids, vec![vec![104, 101, 108, 108, 111]]);
    assert_eq!(prepared.text_mask.rows, vec![vec![1, 1, 1, 1, 1]]);
    let duration = vec![1.0f32];
    let durs: Vec<DurationEstimate> = duration
        .iter()
        .map(|&d| DurationEstimate {
            valid: d.is_finite() && d >= 0.0,
            samples: (d * 16000.0) as usize,
            rounded: (d * 16000.0).round() as usize,
        })
        .collect();
    let plan = plan_latent(&durs, &cfg).unwrap();
    assert_eq!(plan.bsz, 1);
    assert_eq!(plan.channel_dim, 8);
    assert_eq!(plan.latent_len, 32); // ceil(16000 / 512)
    let noise = stub_noise(7, plan.total_values());
    let (latent, mask) = sample_noisy_latent(&plan, noise);
    assert_eq!(mask.rows, vec![vec![1; 32]]);
    let mut engine = DiffusionEngine::new(latent, 1);
    // The stub denoiser returns its input unchanged.
    let unchanged = engine.latent().clone();
    engine.apply_denoised(unchanged).unwrap();
    assert!(engine.is_done());
    // The stub vocoder returns 16000 zero samples for the batch.
    let wav = vec![0.0f32; 16000];
    let (start, len) = segment_bounds(wav.len(), 1, durs[0].rounded, 0);
    assert_eq!((start, len), (0, 16000));
    let slice = &wav[start..start + len];
    assert_eq!(slice.len(), 16000);
    assert!(slice.iter().all(|&s| s == 0.0));
    assert_eq!(duration, vec![1.0f32]);
}
