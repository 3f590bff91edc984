use vstd::prelude::*;

use vstd::arithmetic::div_mod::lemma_fundamental_div_mod;

use crate::config::Config;
use crate::errors::TtsError;
use crate::mask::TimeMask;
use crate::style::{all_wf, batch_voice_styles, batched, dims_agree, Style, VoiceStyleData};
use crate::text::{tokenized, UnicodeProcessor};

verus! {

/// The tokenized and batched inputs of one synthesis call, read-only
/// from here on.
#[derive(Debug)]
pub struct Prepared {
    pub text_ids: Vec<Vec<i64>>,
    pub text_mask: TimeMask,
    pub style: Style,
}

/// The orchestration layer of synthesis. One call runs, driven from
/// outside: `prepare`, then the duration-prediction and text-encoding
/// capabilities on the prepared batch, then `plan_latent` and
/// `sample_noisy_latent` over the predicted durations, then the
/// `DiffusionEngine` for `total_step` steps, then the vocoder; the flat
/// waveform is cut per utterance by `segment_bounds`.
#[derive(Debug)]
pub struct TextToSpeech {
    pub cfgs: Config,
    pub text_processor: UnicodeProcessor,
    pub sample_rate: i32,
}

impl TextToSpeech {
    pub open spec fn wf(self) -> bool {
        self.cfgs.wf() && self.sample_rate == self.cfgs.ae.sample_rate
    }

    /// Assemble the pipeline from a loaded configuration and character-id
    /// table.
    pub fn new(cfgs: Config, text_processor: UnicodeProcessor) -> (r: TextToSpeech)
        requires
            cfgs.wf(),
        ensures
            r.wf(),
            r.cfgs == cfgs,
            r.text_processor == text_processor,
            r.sample_rate == cfgs.ae.sample_rate,
    {
        let sample_rate = cfgs.ae.sample_rate;
        TextToSpeech { cfgs, text_processor, sample_rate }
    }

    /// Tokenize the utterances and batch their style sources. Fails with
    /// `Config` when the batch is empty or the counts disagree, and as
    /// the style scan fails otherwise; on success the batch is exactly
    /// the tokenized texts and the batched styles.
    pub fn prepare(&self, text_list: &Vec<String>, style_sources: &Vec<VoiceStyleData>) -> (r:
        Result<Prepared, TtsError>)
        ensures
            text_list@.len() == 0 || text_list@.len() != style_sources@.len() ==> r == Err::<
                Prepared,
                TtsError,
            >(TtsError::Config),
            text_list@.len() == style_sources@.len() && text_list@.len() >= 1 ==> {
                &&& !all_wf(style_sources@) ==> r == Err::<Prepared, TtsError>(TtsError::Config)
                &&& all_wf(style_sources@) && !dims_agree(style_sources@) ==> r == Err::<
                    Prepared,
                    TtsError,
                >(TtsError::ShapeMismatch)
                &&& all_wf(style_sources@) && dims_agree(style_sources@) ==> r is Ok
            },
            r matches Ok(p) ==> tokenized(
                self.text_processor.indexer@,
                text_list@,
                p.text_ids@,
                p.text_mask,
            ) && batched(p.style, style_sources@),
    {
        let n = text_list.len();
        if n == 0 || n != style_sources.len() {
            return Err(TtsError::Config);
        }
        let style = match batch_voice_styles(style_sources) {
            Ok(style) => style,
            Err(e) => {
                return Err(e);
            },
        };
        let (text_ids, text_mask) = self.text_processor.call(text_list);
        Ok(Prepared { text_ids, text_mask, style })
    }
}

/// Where utterance `i`'s samples stand in the flat vocoded buffer of
/// `total_len` samples holding `bsz` equal segments: the segment starts
/// at `i * (total_len / bsz)` and the valid slice within it is
/// `min(rounded_samples, total_len / bsz)` samples long.
pub fn segment_bounds(total_len: usize, bsz: usize, rounded_samples: usize, i: usize) -> (r: (
    usize,
    usize,
))
    requires
        1 <= bsz,
        i < bsz,
    ensures
        r.0 == i * (total_len / bsz),
        r.1 == (if rounded_samples < total_len / bsz {
            rounded_samples as int
        } else {
            total_len as int / bsz as int
        }),
        r.0 + r.1 <= total_len,
{
    let seg = total_len / bsz;
    proof {
        lemma_fundamental_div_mod(total_len as int, bsz as int);
        assert((i + 1) * (total_len as int / bsz as int) <= bsz * (total_len as int / bsz as int))
            by (nonlinear_arith)
            requires
                i + 1 <= bsz,
                0 <= total_len as int / bsz as int,
        ;
        assert(i * (total_len as int / bsz as int) + (total_len as int / bsz as int) == (i + 1) * (
        total_len as int / bsz as int)) by (nonlinear_arith);
    }
    let start = i * seg;
    let len = if rounded_samples < seg {
        rounded_samples
    } else {
        seg
    };
    (start, len)
}

} // verus!

