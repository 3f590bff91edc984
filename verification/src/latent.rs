use vstd::prelude::*;

use vstd::arithmetic::div_mod::{lemma_div_is_ordered, lemma_div_non_zero};

use crate::config::Config;
use crate::errors::TtsError;
use crate::mask::{length_to_mask, lemma_seq_max_ge, seq_max, TimeMask};
use crate::tensor::{idx3, lemma_idx3_bound, lemma_rows_disjoint, Tensor3};

verus! {

/// One utterance's predicted duration, as the integer projections this
/// layer reads. The prediction itself is a number of seconds produced by
/// the duration-prediction capability; the driver that receives it turns
/// it into sample counts at the configured rate before handing it here.
#[derive(Debug, Clone, Copy)]
pub struct DurationEstimate {
    /// The predicted value was a number and not negative.
    pub valid: bool,
    /// The duration in waveform samples, rounded down.
    pub samples: usize,
    /// The duration in waveform samples, rounded to nearest; used only
    /// for slicing the finished waveform.
    pub rounded: usize,
}

/// `ceil(a / b)` for non-negative `a` and positive `b`.
pub open spec fn ceil_div(a: int, b: int) -> int {
    (a + b - 1) / b
}

/// The per-utterance sample counts of a batch of durations.
pub open spec fn samples_of(durs: Seq<DurationEstimate>) -> Seq<usize> {
    Seq::new(durs.len(), |i: int| durs[i].samples)
}

/// Every duration of the batch is valid.
pub open spec fn all_valid(durs: Seq<DurationEstimate>) -> bool {
    forall|i: int| 0 <= i < durs.len() ==> (#[trigger] durs[i]).valid
}

/// Latent time length of the batch: the longest duration in samples,
/// divided into chunks, rounded up.
pub open spec fn spec_latent_len(durs: Seq<DurationEstimate>, cfg: Config) -> int {
    ceil_div(seq_max(samples_of(durs)) as int, cfg.spec_chunk_size())
}

/// Latent sizing succeeds exactly when every duration is valid, the
/// longest one covers at least one sample, and the sizes fit the machine.
pub open spec fn plan_ok(durs: Seq<DurationEstimate>, cfg: Config) -> bool {
    &&& all_valid(durs)
    &&& seq_max(samples_of(durs)) >= 1
    &&& seq_max(samples_of(durs)) + cfg.spec_chunk_size() - 1 <= usize::MAX
    &&& durs.len() * cfg.spec_channel_dim() * spec_latent_len(durs, cfg) <= usize::MAX
}

/// The sizes of one latent batch: shape, chunking, and each utterance's
/// valid prefix of the time axis.
#[derive(Debug, Clone)]
pub struct LatentPlan {
    pub bsz: usize,
    pub channel_dim: usize,
    pub latent_len: usize,
    pub chunk_size: usize,
    pub valid_lens: Vec<usize>,
    pub total: usize,
}

impl LatentPlan {
    pub open spec fn wf(self) -> bool {
        &&& self.valid_lens@.len() == self.bsz
        &&& self.total == self.bsz * self.channel_dim * self.latent_len
        &&& forall|i: int| 0 <= i < self.bsz ==> #[trigger] self.valid_lens@[i] <= self.latent_len
        &&& 1 <= self.latent_len
        &&& 1 <= self.channel_dim
        &&& 1 <= self.chunk_size
    }

    /// Number of noise words the initial latent needs.
    pub fn total_values(&self) -> (r: usize)
        ensures
            r == self.total,
    {
        self.total
    }
}

/// Compute the latent sizing of a batch from its predicted durations:
/// `latent_len = ceil(max_samples / chunk_size)`, channel dimension
/// `latent_dim * chunk_compress_factor`, and per-utterance valid length
/// `ceil(samples[i] / chunk_size)`. Fails with `InvalidDuration` exactly
/// when a duration is invalid, the batch covers no sample at all (also
/// the case for an empty batch), or a size overflows the machine.
pub fn plan_latent(durations: &Vec<DurationEstimate>, cfg: &Config) -> (r: Result<
    LatentPlan,
    TtsError,
>)
    requires
        cfg.wf(),
    ensures
        r is Ok <==> plan_ok(durations@, *cfg),
        r is Err ==> r == Err::<LatentPlan, TtsError>(TtsError::InvalidDuration),
        r matches Ok(plan) ==> {
            &&& plan.wf()
            &&& plan.bsz == durations@.len()
            &&& plan.channel_dim == cfg.spec_channel_dim()
            &&& plan.chunk_size == cfg.spec_chunk_size()
            &&& plan.latent_len == spec_latent_len(durations@, *cfg)
            &&& forall|i: int|
                0 <= i < durations@.len() ==> #[trigger] plan.valid_lens@[i] == ceil_div(
                    durations@[i].samples as int,
                    cfg.spec_chunk_size(),
                )
        },
{
    let n = durations.len();
    let mut samples: Vec<usize> = Vec::new();
    let mut i: usize = 0;
    while i < n
        invariant
            0 <= i <= n,
            n == durations@.len(),
            samples@.len() == i,
            forall|k: int| 0 <= k < i ==> (#[trigger] durations@[k]).valid,
            forall|k: int| 0 <= k < i ==> #[trigger] samples@[k] == durations@[k].samples,
        decreases n - i,
    {
        if !durations[i].valid {
            return Err(TtsError::InvalidDuration);
        }
        samples.push(durations[i].samples);
        i = i + 1;
    }
    proof {
        assert(samples@ =~= samples_of(durations@));
    }
    let wav_max = crate::mask::max_of(&samples);
    if wav_max == 0 {
        proof {
            assert(!(seq_max(samples_of(durations@)) >= 1));
        }
        return Err(TtsError::InvalidDuration);
    }
    let chunk = cfg.chunk_size();
    let channel = cfg.channel_dim();
    if wav_max > usize::MAX - (chunk - 1) {
        return Err(TtsError::InvalidDuration);
    }
    let latent_len = (wav_max + (chunk - 1)) / chunk;
    proof {
        lemma_div_non_zero((wav_max + chunk - 1) as int, chunk as int);
        assert(latent_len == spec_latent_len(durations@, *cfg));
    }
    proof {
        assert((n as int) * (channel as int) <= 0xffff_ffff_ffff_ffff * 0xffff_ffff_ffff_ffff)
            by (nonlinear_arith)
            requires
                n <= 0xffff_ffff_ffff_ffffu64,
                channel <= 0xffff_ffff_ffff_ffffu64,
        ;
    }
    let p1: u128 = (n as u128) * (channel as u128);
    if p1 > usize::MAX as u128 {
        proof {
            assert((n as int) * (channel as int) <= (n as int) * (channel as int) * (
            latent_len as int)) by (nonlinear_arith)
                requires
                    1 <= latent_len,
                    0 <= n,
                    0 <= channel,
            ;
        }
        return Err(TtsError::InvalidDuration);
    }
    proof {
        assert(p1 * (latent_len as int) <= 0xffff_ffff_ffff_ffff * 0xffff_ffff_ffff_ffff)
            by (nonlinear_arith)
            requires
                p1 <= 0xffff_ffff_ffff_ffffu128,
                latent_len <= 0xffff_ffff_ffff_ffffu64,
        ;
    }
    let p2: u128 = p1 * (latent_len as u128);
    if p2 > usize::MAX as u128 {
        return Err(TtsError::InvalidDuration);
    }
    let total = p2 as usize;
    let mut valid_lens: Vec<usize> = Vec::new();
    let mut i: usize = 0;
    while i < n
        invariant
            0 <= i <= n,
            n == durations@.len(),
            samples@ == samples_of(durations@),
            wav_max == seq_max(samples_of(durations@)),
            wav_max + chunk - 1 <= usize::MAX,
            1 <= chunk == cfg.spec_chunk_size(),
            1 <= latent_len == ceil_div(wav_max as int, chunk as int),
            valid_lens@.len() == i,
            forall|k: int|
                0 <= k < i ==> #[trigger] valid_lens@[k] == ceil_div(
                    durations@[k].samples as int,
                    chunk as int,
                ) && valid_lens@[k] <= latent_len,
        decreases n - i,
    {
        let s = samples[i];
        proof {
            lemma_seq_max_ge(samples@, i as int);
            lemma_div_is_ordered((s + chunk - 1) as int, (wav_max + chunk - 1) as int,
                chunk as int);
        }
        let vl = (s + (chunk - 1)) / chunk;
        valid_lens.push(vl);
        i = i + 1;
    }
    Ok(
        LatentPlan {
            bsz: n,
            channel_dim: channel,
            latent_len,
            chunk_size: chunk,
            valid_lens,
            total,
        },
    )
}

/// The value the initial latent holds at `(b, d, t)` once the mask has
/// been applied: the drawn noise word on the valid prefix of the time
/// axis, zero beyond it.
pub open spec fn masked_noise_at(
    noise: Seq<u32>,
    plan: LatentPlan,
    b: int,
    d: int,
    t: int,
) -> u32 {
    if t < plan.valid_lens@[b] {
        noise[idx3(plan.channel_dim as int, plan.latent_len as int, b, d, t)]
    } else {
        0u32
    }
}

/// Build the initial latent state of the diffusion from the drawn noise
/// words: shape `(bsz, channel_dim, latent_len)`, each utterance's noise
/// kept on its valid time prefix and zeroed beyond it, together with the
/// latent time mask. The mask is applied here once; it is not reapplied
/// during denoising.
pub fn sample_noisy_latent(plan: &LatentPlan, noise: Vec<u32>) -> (r: (Tensor3, TimeMask))
    requires
        plan.wf(),
        noise@.len() == plan.total,
    ensures
        r.0.wf(),
        r.0.bsz == plan.bsz,
        r.0.ch == plan.channel_dim,
        r.0.tlen == plan.latent_len,
        forall|b: int, d: int, t: int|
            0 <= b < plan.bsz && 0 <= d < plan.channel_dim && 0 <= t < plan.latent_len
                ==> #[trigger] r.0.at(b, d, t) == masked_noise_at(noise@, *plan, b, d, t),
        r.1.matches_lengths(plan.valid_lens@, plan.latent_len as int),
{
    let mask = length_to_mask(&plan.valid_lens, Some(plan.latent_len));
    let bsz = plan.bsz;
    let ch = plan.channel_dim;
    let tlen = plan.latent_len;
    let mut data: Vec<u32> = Vec::new();
    let mut b: usize = 0;
    proof {
        assert(0 * (ch as int) * (tlen as int) == 0) by (nonlinear_arith);
    }
    while b < bsz
        invariant
            0 <= b <= bsz,
            plan.wf(),
            noise@.len() == plan.total,
            bsz == plan.bsz,
            ch == plan.channel_dim,
            tlen == plan.latent_len,
            data@.len() == b * ch * tlen,
            forall|b2: int, d2: int, t2: int|
                0 <= b2 < b && 0 <= d2 < ch && 0 <= t2 < tlen ==> data@[#[trigger] idx3(
                    ch as int,
                    tlen as int,
                    b2,
                    d2,
                    t2,
                )] == masked_noise_at(noise@, *plan, b2, d2, t2),
        decreases bsz - b,
    {
        let vl = plan.valid_lens[b];
        proof {
            assert(b * ch * tlen == (b * ch) * tlen);
        }
        let mut d: usize = 0;
        while d < ch
            invariant
                0 <= d <= ch,
                0 <= b < bsz,
                plan.wf(),
                noise@.len() == plan.total,
                bsz == plan.bsz,
                ch == plan.channel_dim,
                tlen == plan.latent_len,
                vl == plan.valid_lens@[b as int],
                data@.len() == (b * ch + d) * tlen,
                forall|b2: int, d2: int, t2: int|
                    0 <= b2 < b && 0 <= d2 < ch && 0 <= t2 < tlen ==> data@[#[trigger] idx3(
                        ch as int,
                        tlen as int,
                        b2,
                        d2,
                        t2,
                    )] == masked_noise_at(noise@, *plan, b2, d2, t2),
                forall|d2: int, t2: int|
                    0 <= d2 < d && 0 <= t2 < tlen ==> data@[#[trigger] idx3(
                        ch as int,
                        tlen as int,
                        b as int,
                        d2,
                        t2,
                    )] == masked_noise_at(noise@, *plan, b as int, d2, t2),
            decreases ch - d,
        {
            let mut t: usize = 0;
            while t < tlen
                invariant
                    0 <= t <= tlen,
                    0 <= d < ch,
                    0 <= b < bsz,
                    plan.wf(),
                    noise@.len() == plan.total,
                    bsz == plan.bsz,
                    ch == plan.channel_dim,
                    tlen == plan.latent_len,
                    vl == plan.valid_lens@[b as int],
                    data@.len() == (b * ch + d) * tlen + t,
                    forall|b2: int, d2: int, t2: int|
                        0 <= b2 < b && 0 <= d2 < ch && 0 <= t2 < tlen ==> data@[#[trigger] idx3(
                            ch as int,
                            tlen as int,
                            b2,
                            d2,
                            t2,
                        )] == masked_noise_at(noise@, *plan, b2, d2, t2),
                    forall|d2: int, t2: int|
                        0 <= d2 < d && 0 <= t2 < tlen ==> data@[#[trigger] idx3(
                            ch as int,
                            tlen as int,
                            b as int,
                            d2,
                            t2,
                        )] == masked_noise_at(noise@, *plan, b as int, d2, t2),
                    forall|t2: int|
                        0 <= t2 < t ==> data@[#[trigger] idx3(
                            ch as int,
                            tlen as int,
                            b as int,
                            d as int,
                            t2,
                        )] == masked_noise_at(noise@, *plan, b as int, d as int, t2),
                decreases tlen - t,
            {
                proof {
                    let ci = ch as int;
                    let ti = tlen as int;
                    let bi = b as int;
                    let di = d as int;
                    lemma_idx3_bound(ci, ti, bsz as int, bi, di, t as int);
                    assert forall|b2: int, d2: int, t2: int|
                        0 <= b2 < bi && 0 <= d2 < ci && 0 <= t2 < ti implies #[trigger] idx3(
                        ci,
                        ti,
                        b2,
                        d2,
                        t2,
                    ) < (bi * ci + di) * ti + t by {
                        assert(b2 * ci + d2 < bi * ci + di) by (nonlinear_arith)
                            requires
                                0 <= b2 < bi,
                                0 <= d2 < ci,
                                0 <= di,
                        ;
                        lemma_rows_disjoint(ti, b2 * ci + d2, bi * ci + di, t2);
                    };
                    assert forall|d2: int, t2: int|
                        0 <= d2 < di && 0 <= t2 < ti implies #[trigger] idx3(ci, ti, bi, d2, t2)
                        < (bi * ci + di) * ti + t by {
                        lemma_rows_disjoint(ti, bi * ci + d2, bi * ci + di, t2);
                    };
                }
                let pos: usize = (b * ch + d) * tlen + t;
                if t < vl {
                    data.push(noise[pos]);
                } else {
                    data.push(0u32);
                }
                t = t + 1;
            }
            d = d + 1;
            proof {
                assert((b * ch + (d - 1)) * tlen + tlen == (b * ch + d) * tlen)
                    by (nonlinear_arith);
            }
        }
        b = b + 1;
        proof {
            assert(((b - 1) * ch + ch) * tlen == b as int * ch * tlen) by (nonlinear_arith);
        }
    }
    proof {
        assert(data@.len() == bsz * ch * tlen);
    }
    let latent = Tensor3::from_flat(data, bsz, ch, tlen);
    (latent, mask)
}

/// A zero-duration utterance occupies no latent chunk: its valid latent
/// length is zero (so its mask row is all-zero), while the batch latent
/// time length is still set by the batch maximum.
pub proof fn lemma_zero_duration_valid_len(durs: Seq<DurationEstimate>, cfg: Config, i: int)
    requires
        cfg.wf(),
        0 <= i < durs.len(),
        durs[i].samples == 0,
    ensures
        ceil_div(durs[i].samples as int, cfg.spec_chunk_size()) == 0,
        spec_latent_len(durs, cfg) == ceil_div(
            seq_max(samples_of(durs)) as int,
            cfg.spec_chunk_size(),
        ),
{
    let chunk = cfg.spec_chunk_size();
    assert(1 <= chunk) by (nonlinear_arith)
        requires
            1 <= cfg.ae.base_chunk_size,
            1 <= cfg.ttl.chunk_compress_factor,
            chunk == cfg.ae.base_chunk_size * cfg.ttl.chunk_compress_factor,
    ;
    assert((chunk - 1) / chunk == 0) by (nonlinear_arith)
        requires
            1 <= chunk,
    ;
}

} // verus!
