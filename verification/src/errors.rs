use vstd::prelude::*;

verus! {

/// The failures a synthesis call can surface. All of them abort the
/// current call; none is retried.
#[derive(Debug, Clone, Copy, PartialEq, Eq, Structural)]
pub enum TtsError {
    /// Missing or malformed configuration or id table, or a batch-count
    /// mismatch between utterances and style sources.
    Config,
    /// Style tensor dims disagree across the loaded sources.
    ShapeMismatch,
    /// A duration was negative or not a number, or the latent sizing it
    /// produced was degenerate.
    InvalidDuration,
    /// An engine call failed or returned an unexpected shape; carries the
    /// index of the failing denoising step.
    Inference(usize),
    /// A resource file could not be read.
    Io,
}

} // verus!
