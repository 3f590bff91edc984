use vstd::prelude::*;

use crate::errors::TtsError;
use crate::tensor::Tensor3;

verus! {

/// The sequential denoising state machine: at step `k` the driver runs
/// the external denoise capability on the current latent and feeds its
/// output back here, which replaces the latent and advances to `k + 1`;
/// after step `total_step - 1` the machine is done and the final latent
/// goes to the vocoder as it is, mask not reapplied. Steps cannot be
/// reordered: each consumes the previous one's output.
#[derive(Debug)]
pub struct DiffusionEngine {
    pub latent: Tensor3,
    pub step: usize,
    pub total_step: usize,
}

impl DiffusionEngine {
    pub open spec fn wf(self) -> bool {
        self.latent.wf() && self.step <= self.total_step
    }

    /// All steps taken; the latent is final.
    pub open spec fn done(self) -> bool {
        self.step == self.total_step
    }

    /// Start from the initial noisy latent at step 0.
    pub fn new(initial: Tensor3, total_step: usize) -> (r: DiffusionEngine)
        requires
            initial.wf(),
        ensures
            r.latent == initial,
            r.step == 0,
            r.total_step == total_step,
            r.wf(),
    {
        DiffusionEngine { latent: initial, step: 0, total_step }
    }

    pub fn is_done(&self) -> (r: bool)
        ensures
            r == self.done(),
    {
        self.step == self.total_step
    }

    pub fn current_step(&self) -> (r: usize)
        ensures
            r == self.step,
    {
        self.step
    }

    pub fn total_steps(&self) -> (r: usize)
        ensures
            r == self.total_step,
    {
        self.total_step
    }

    /// The latent the next denoise call must consume.
    pub fn latent(&self) -> (r: &Tensor3)
        ensures
            *r == self.latent,
    {
        &self.latent
    }

    /// Feed back the denoised latent of the current step. When its shape
    /// matches it replaces the state and the machine advances one step;
    /// anything else is fatal and surfaces as `Inference` tagged with the
    /// failing step index, the state unchanged.
    pub fn apply_denoised(&mut self, denoised: Tensor3) -> (r: Result<(), TtsError>)
        requires
            old(self).wf(),
            !old(self).done(),
        ensures
            final(self).wf(),
            denoised.wf() && denoised.same_shape_as(old(self).latent) ==> r is Ok
                && final(self).latent == denoised && final(self).step == old(self).step + 1
                && final(self).total_step == old(self).total_step,
            !(denoised.wf() && denoised.same_shape_as(old(self).latent)) ==> r == Err::<
                (),
                TtsError,
            >(TtsError::Inference(old(self).step)) && *final(self) == *old(self),
    {
        if denoised.same_shape(&self.latent) && denoised.data.len() == self.latent.data.len() {
            self.latent = denoised;
            self.step = self.step + 1;
            Ok(())
        } else {
            Err(TtsError::Inference(self.step))
        }
    }

    /// Hand the final latent to the vocoder.
    pub fn into_latent(self) -> (r: Tensor3)
        requires
            self.done(),
        ensures
            r == self.latent,
    {
        self.latent
    }
}

} // verus!
