//! Core of a text-to-speech synthesis pipeline: batch tokenization and
//! masking, style-tensor batching, latent sizing and noise initialization,
//! the sequential denoising state machine, and duration-based output
//! slicing. The neural inference calls themselves (duration prediction,
//! text encoding, denoising, vocoding) are opaque collaborators: a driver
//! runs them and feeds their results back through the state machine here.
//!
//! Sample values that the collaborators produce are carried as opaque
//! 32-bit words; this layer only sizes, copies, masks and slices them.

pub mod config;
pub mod diffusion;
pub mod errors;
pub mod latent;
pub mod mask;
pub mod pipeline;
pub mod style;
pub mod tensor;
pub mod text;
