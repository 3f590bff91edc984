use vstd::prelude::*;

use crate::errors::TtsError;
use crate::tensor::{idx3, Tensor3};

verus! {

/// One voice-style tensor as a source declares it: a 3-level nested array
/// of opaque sample words together with its declared dims `[1, d1, d2]`.
#[derive(Debug, Clone)]
pub struct StyleComponent {
    pub data: Vec<Vec<Vec<u32>>>,
    pub dims: Vec<usize>,
}

impl StyleComponent {
    /// The declared dims have the form `[1, d1, d2]` and the nested data
    /// has exactly that shape.
    pub open spec fn wf(self) -> bool {
        &&& self.dims@.len() == 3
        &&& self.dims@[0] == 1usize
        &&& self.data@.len() == 1
        &&& self.data@[0]@.len() == self.dims@[1]
        &&& forall|r: int|
            0 <= r < self.dims@[1] ==> (#[trigger] self.data@[0]@[r])@.len() == self.dims@[2]
    }

    /// The value at row `r`, column `c` of the single declared batch.
    pub open spec fn val(self, r: int, c: int) -> u32 {
        self.data@[0]@[r]@[c]
    }

    /// Runtime check of `wf`.
    pub fn check(&self) -> (b: bool)
        ensures
            b == self.wf(),
    {
        if self.dims.len() != 3 || self.dims[0] != 1 || self.data.len() != 1 {
            return false;
        }
        let d1 = self.dims[1];
        let d2 = self.dims[2];
        if self.data[0].len() != d1 {
            return false;
        }
        let mut r: usize = 0;
        while r < d1
            invariant
                0 <= r <= d1,
                self.dims@.len() == 3,
                self.dims@[0] == 1usize,
                self.dims@[1] == d1,
                self.dims@[2] == d2,
                self.data@.len() == 1,
                self.data@[0]@.len() == d1,
                forall|k: int| 0 <= k < r ==> (#[trigger] self.data@[0]@[k])@.len() == d2,
            decreases d1 - r,
        {
            if self.data[0][r].len() != d2 {
                return false;
            }
            r = r + 1;
        }
        true
    }
}

/// One style source: the two per-utterance components.
#[derive(Debug, Clone)]
pub struct VoiceStyleData {
    pub style_ttl: StyleComponent,
    pub style_dp: StyleComponent,
}

impl VoiceStyleData {
    pub open spec fn wf(self) -> bool {
        self.style_ttl.wf() && self.style_dp.wf()
    }

    pub fn check(&self) -> (b: bool)
        ensures
            b == self.wf(),
    {
        self.style_ttl.check() && self.style_dp.check()
    }
}

/// The batched style tensors, shape `(bsz, d1, d2)` each.
#[derive(Debug, Clone)]
pub struct Style {
    pub ttl: Tensor3,
    pub dp: Tensor3,
}

/// Select one of the two components of a source.
pub open spec fn comp_of(s: VoiceStyleData, dp: bool) -> StyleComponent {
    if dp {
        s.style_dp
    } else {
        s.style_ttl
    }
}

/// Every source is well-formed.
pub open spec fn all_wf(sources: Seq<VoiceStyleData>) -> bool {
    forall|i: int| 0 <= i < sources.len() ==> (#[trigger] sources[i]).wf()
}

/// Every source declares the dims of the first one, component by
/// component.
pub open spec fn dims_agree(sources: Seq<VoiceStyleData>) -> bool {
    forall|i: int|
        0 <= i < sources.len() ==> (#[trigger] sources[i]).style_ttl.dims@
            == sources[0].style_ttl.dims@ && sources[i].style_dp.dims@
            == sources[0].style_dp.dims@
}

/// What batching well-formed, dims-agreeing sources yields: two
/// `(bsz, d1, d2)` tensors whose block `i` holds source `i`'s values.
pub open spec fn batched(style: Style, sources: Seq<VoiceStyleData>) -> bool {
    let bsz = sources.len() as int;
    let ttl0 = sources[0].style_ttl;
    let dp0 = sources[0].style_dp;
    &&& style.ttl.wf()
    &&& style.dp.wf()
    &&& style.ttl.bsz == bsz
    &&& style.ttl.ch == ttl0.dims@[1]
    &&& style.ttl.tlen == ttl0.dims@[2]
    &&& style.dp.bsz == bsz
    &&& style.dp.ch == dp0.dims@[1]
    &&& style.dp.tlen == dp0.dims@[2]
    &&& forall|i: int, rr: int, cc: int|
        0 <= i < bsz && 0 <= rr < ttl0.dims@[1] && 0 <= cc < ttl0.dims@[2]
            ==> #[trigger] style.ttl.at(i, rr, cc) == sources[i].style_ttl.val(rr, cc)
    &&& forall|i: int, rr: int, cc: int|
        0 <= i < bsz && 0 <= rr < dp0.dims@[1] && 0 <= cc < dp0.dims@[2]
            ==> #[trigger] style.dp.at(i, rr, cc) == sources[i].style_dp.val(rr, cc)
}

/// Copy one component of every source into a flat row-major buffer, one
/// `d1 * d2` block per source at offset `i * d1 * d2`.
fn flatten_component(sources: &Vec<VoiceStyleData>, dp: bool, d1: usize, d2: usize) -> (r: Vec<
    u32,
>)
    requires
        forall|i: int|
            0 <= i < sources@.len() ==> (#[trigger] comp_of(sources@[i], dp)).wf() && comp_of(
                sources@[i],
                dp,
            ).dims@[1] == d1 && comp_of(sources@[i], dp).dims@[2] == d2,
    ensures
        r@.len() == sources@.len() * d1 * d2,
        forall|i: int, rr: int, cc: int|
            0 <= i < sources@.len() && 0 <= rr < d1 && 0 <= cc < d2 ==> r@[#[trigger] idx3(
                d1 as int,
                d2 as int,
                i,
                rr,
                cc,
            )] == comp_of(sources@[i], dp).val(rr, cc),
{
    let n = sources.len();
    let mut flat: Vec<u32> = Vec::new();
    let mut i: usize = 0;
    while i < n
        invariant
            0 <= i <= n,
            n == sources@.len(),
            forall|k: int|
                0 <= k < n ==> (#[trigger] comp_of(sources@[k], dp)).wf() && comp_of(
                    sources@[k],
                    dp,
                ).dims@[1] == d1 && comp_of(sources@[k], dp).dims@[2] == d2,
            flat@.len() == i * d1 * d2,
            forall|k: int, rr: int, cc: int|
                0 <= k < i && 0 <= rr < d1 && 0 <= cc < d2 ==> flat@[#[trigger] idx3(
                    d1 as int,
                    d2 as int,
                    k,
                    rr,
                    cc,
                )] == comp_of(sources@[k], dp).val(rr, cc),
        decreases n - i,
    {
        let comp: &StyleComponent = if dp {
            &sources[i].style_dp
        } else {
            &sources[i].style_ttl
        };
        proof {
            assert(comp == comp_of(sources@[i as int], dp));
            assert(i * d1 * d2 == (i * d1) * d2);
        }
        let mut rr: usize = 0;
        while rr < d1
            invariant
                0 <= rr <= d1,
                0 <= i < n,
                n == sources@.len(),
                comp == comp_of(sources@[i as int], dp),
                comp.wf(),
                comp.dims@[1] == d1,
                comp.dims@[2] == d2,
                flat@.len() == (i * d1 + rr) * d2,
                forall|k: int, r2: int, cc: int|
                    0 <= k < i && 0 <= r2 < d1 && 0 <= cc < d2 ==> flat@[#[trigger] idx3(
                        d1 as int,
                        d2 as int,
                        k,
                        r2,
                        cc,
                    )] == comp_of(sources@[k], dp).val(r2, cc),
                forall|r2: int, cc: int|
                    0 <= r2 < rr && 0 <= cc < d2 ==> flat@[#[trigger] idx3(
                        d1 as int,
                        d2 as int,
                        i as int,
                        r2,
                        cc,
                    )] == comp_of(sources@[i as int], dp).val(r2, cc),
            decreases d1 - rr,
        {
            let row: &Vec<u32> = &comp.data[0][rr];
            let mut cc: usize = 0;
            while cc < d2
                invariant
                    0 <= cc <= d2,
                    0 <= rr < d1,
                    0 <= i < n,
                    n == sources@.len(),
                    comp == comp_of(sources@[i as int], dp),
                    comp.wf(),
                    comp.dims@[1] == d1,
                    comp.dims@[2] == d2,
                    row == comp.data@[0]@[rr as int],
                    row@.len() == d2,
                    flat@.len() == (i * d1 + rr) * d2 + cc,
                    forall|k: int, r2: int, c2: int|
                        0 <= k < i && 0 <= r2 < d1 && 0 <= c2 < d2 ==> flat@[#[trigger] idx3(
                            d1 as int,
                            d2 as int,
                            k,
                            r2,
                            c2,
                        )] == comp_of(sources@[k], dp).val(r2, c2),
                    forall|r2: int, c2: int|
                        0 <= r2 < rr && 0 <= c2 < d2 ==> flat@[#[trigger] idx3(
                            d1 as int,
                            d2 as int,
                            i as int,
                            r2,
                            c2,
                        )] == comp_of(sources@[i as int], dp).val(r2, c2),
                    forall|c2: int|
                        0 <= c2 < cc ==> flat@[#[trigger] idx3(
                            d1 as int,
                            d2 as int,
                            i as int,
                            rr as int,
                            c2,
                        )] == comp_of(sources@[i as int], dp).val(rr as int, c2),
                decreases d2 - cc,
            {
                proof {
                    let di = d1 as int;
                    let dj = d2 as int;
                    let ii = i as int;
                    let ri = rr as int;
                    assert forall|k: int, r2: int, c2: int|
                        0 <= k < ii && 0 <= r2 < di && 0 <= c2 < dj implies #[trigger] idx3(
                        di,
                        dj,
                        k,
                        r2,
                        c2,
                    ) < (ii * di + ri) * dj by {
                        assert(k * di + r2 < ii * di + ri) by (nonlinear_arith)
                            requires
                                0 <= k < ii,
                                0 <= r2 < di,
                                0 <= ri,
                        ;
                        crate::tensor::lemma_rows_disjoint(dj, k * di + r2, ii * di + ri, c2);
                    };
                    assert forall|r2: int, c2: int|
                        0 <= r2 < ri && 0 <= c2 < dj implies #[trigger] idx3(di, dj, ii, r2, c2)
                        < (ii * di + ri) * dj by {
                        crate::tensor::lemma_rows_disjoint(dj, ii * di + r2, ii * di + ri, c2);
                    };
                }
                flat.push(row[cc]);
                cc = cc + 1;
            }
            rr = rr + 1;
            proof {
                assert((i * d1 + (rr - 1)) * d2 + d2 == (i * d1 + rr) * d2) by (nonlinear_arith);
            }
        }
        i = i + 1;
        proof {
            assert((i - 1) * d1 * d2 + d1 * d2 == i as int * d1 * d2) by (nonlinear_arith);
            assert(((i - 1) * d1 + d1) * d2 == (i - 1) * d1 * d2 + d1 * d2) by (nonlinear_arith);
        }
    }
    flat
}

/// Batch the style sources into the two `(bsz, d1, d2)` tensors, each
/// source's flattened values at offset `i * d1 * d2` of its tensor.
///
/// The scan fails with `Config` when some source is malformed, and with
/// `ShapeMismatch` when every source is well-formed but a later source's
/// dims disagree with the first one's; in both cases no tensor is built.
pub fn batch_voice_styles(sources: &Vec<VoiceStyleData>) -> (r: Result<Style, TtsError>)
    requires
        sources@.len() >= 1,
    ensures
        !all_wf(sources@) ==> r == Err::<Style, TtsError>(TtsError::Config),
        all_wf(sources@) && !dims_agree(sources@) ==> r == Err::<Style, TtsError>(
            TtsError::ShapeMismatch,
        ),
        all_wf(sources@) && dims_agree(sources@) ==> r is Ok,
        r matches Ok(style) ==> batched(style, sources@),
{
    let n = sources.len();
    let mut i: usize = 0;
    while i < n
        invariant
            0 <= i <= n,
            n == sources@.len(),
            forall|k: int| 0 <= k < i ==> (#[trigger] sources@[k]).wf(),
        decreases n - i,
    {
        if !sources[i].check() {
            return Err(TtsError::Config);
        }
        i = i + 1;
    }
    let ttl_d1 = sources[0].style_ttl.dims[1];
    let ttl_d2 = sources[0].style_ttl.dims[2];
    let dp_d1 = sources[0].style_dp.dims[1];
    let dp_d2 = sources[0].style_dp.dims[2];
    let mut i: usize = 1;
    while i < n
        invariant
            1 <= i <= n,
            n == sources@.len(),
            all_wf(sources@),
            ttl_d1 == sources@[0].style_ttl.dims@[1],
            ttl_d2 == sources@[0].style_ttl.dims@[2],
            dp_d1 == sources@[0].style_dp.dims@[1],
            dp_d2 == sources@[0].style_dp.dims@[2],
            forall|k: int|
                0 <= k < i ==> (#[trigger] sources@[k]).style_ttl.dims@
                    == sources@[0].style_ttl.dims@ && sources@[k].style_dp.dims@
                    == sources@[0].style_dp.dims@,
        decreases n - i,
    {
        let s = &sources[i];
        if s.style_ttl.dims[1] != ttl_d1 || s.style_ttl.dims[2] != ttl_d2 || s.style_dp.dims[1]
            != dp_d1 || s.style_dp.dims[2] != dp_d2 {
            return Err(TtsError::ShapeMismatch);
        }
        proof {
            assert(sources@[i as int].style_ttl.dims@ =~= sources@[0].style_ttl.dims@);
            assert(sources@[i as int].style_dp.dims@ =~= sources@[0].style_dp.dims@);
        }
        i = i + 1;
    }
    let ttl_flat = flatten_component(sources, false, ttl_d1, ttl_d2);
    let dp_flat = flatten_component(sources, true, dp_d1, dp_d2);
    let ttl = Tensor3::from_flat(ttl_flat, n, ttl_d1, ttl_d2);
    let dp = Tensor3::from_flat(dp_flat, n, dp_d1, dp_d2);
    Ok(Style { ttl, dp })
}

} // verus!
