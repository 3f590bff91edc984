use vstd::prelude::*;

verus! {

/// Autoencoder half of the configuration record.
#[derive(Debug, Clone)]
pub struct AEConfig {
    pub sample_rate: i32,
    pub base_chunk_size: i32,
}

/// Latent-model half of the configuration record.
#[derive(Debug, Clone)]
pub struct TTLConfig {
    pub chunk_compress_factor: i32,
    pub latent_dim: i32,
}

/// The configuration record of the pipeline. All four numbers must be
/// positive; a well-formed record also keeps the two derived products
/// within `i32`.
#[derive(Debug, Clone)]
pub struct Config {
    pub ae: AEConfig,
    pub ttl: TTLConfig,
}

impl Config {
    /// All four fields positive and the derived products representable.
    pub open spec fn wf(self) -> bool {
        &&& 0 < self.ae.sample_rate
        &&& 0 < self.ae.base_chunk_size
        &&& 0 < self.ttl.chunk_compress_factor
        &&& 0 < self.ttl.latent_dim
        &&& self.ae.base_chunk_size * self.ttl.chunk_compress_factor <= i32::MAX
        &&& self.ttl.latent_dim * self.ttl.chunk_compress_factor <= i32::MAX
    }

    /// Number of waveform samples one latent time step stands for.
    pub open spec fn spec_chunk_size(self) -> int {
        self.ae.base_chunk_size * self.ttl.chunk_compress_factor
    }

    /// Channel dimension of the latent tensor.
    pub open spec fn spec_channel_dim(self) -> int {
        self.ttl.latent_dim * self.ttl.chunk_compress_factor
    }

    /// Runtime check of well-formedness, for callers that receive the
    /// record from outside.
    pub fn check(&self) -> (r: bool)
        ensures
            r == self.wf(),
    {
        let b = self.ae.base_chunk_size as i64;
        let c = self.ttl.chunk_compress_factor as i64;
        let d = self.ttl.latent_dim as i64;
        proof {
            assert(b * c <= i64::MAX && i64::MIN <= b * c && d * c <= i64::MAX && i64::MIN <= d
                * c) by (nonlinear_arith)
                requires
                    -0x8000_0000 <= b <= 0x7fff_ffff,
                    -0x8000_0000 <= c <= 0x7fff_ffff,
                    -0x8000_0000 <= d <= 0x7fff_ffff,
            ;
        }
        0 < self.ae.sample_rate && 0 < self.ae.base_chunk_size
            && 0 < self.ttl.chunk_compress_factor && 0 < self.ttl.latent_dim && b * c
            <= i32::MAX as i64 && d * c <= i32::MAX as i64
    }

    /// `base_chunk_size * chunk_compress_factor` as a machine size.
    pub fn chunk_size(&self) -> (r: usize)
        requires
            self.wf(),
        ensures
            r == self.spec_chunk_size(),
            1 <= r,
    {
        let b = self.ae.base_chunk_size as usize;
        let c = self.ttl.chunk_compress_factor as usize;
        proof {
            assert(1 <= b * c) by (nonlinear_arith)
                requires
                    1 <= b,
                    1 <= c,
            ;
            assert(b * c <= i32::MAX);
        }
        b * c
    }

    /// `latent_dim * chunk_compress_factor` as a machine size.
    pub fn channel_dim(&self) -> (r: usize)
        requires
            self.wf(),
        ensures
            r == self.spec_channel_dim(),
            1 <= r,
    {
        let d = self.ttl.latent_dim as usize;
        let c = self.ttl.chunk_compress_factor as usize;
        proof {
            assert(1 <= d * c) by (nonlinear_arith)
                requires
                    1 <= d,
                    1 <= c,
            ;
            assert(d * c <= i32::MAX);
        }
        d * c
    }
}

} // verus!
