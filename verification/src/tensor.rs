use vstd::prelude::*;

verus! {

/// Row-major position of `(b, c, t)` in a flat buffer whose last two
/// dimensions are `ch` and `tlen`.
pub open spec fn idx3(ch: int, tlen: int, b: int, c: int, t: int) -> int {
    (b * ch + c) * tlen + t
}

/// Row-major position of `(i, j)` in a flat buffer of rows of `width`.
pub open spec fn idx2(width: int, i: int, j: int) -> int {
    i * width + j
}

/// `idx3` stays inside the buffer of a `(bsz, ch, tlen)` tensor.
pub proof fn lemma_idx3_bound(ch: int, tlen: int, bsz: int, b: int, c: int, t: int)
    requires
        0 <= b < bsz,
        0 <= c < ch,
        0 <= t < tlen,
    ensures
        0 <= idx3(ch, tlen, b, c, t) < bsz * ch * tlen,
        b * ch + c < bsz * ch,
        bsz * ch <= bsz * ch * tlen,
{
    assert(0 <= (b * ch + c) * tlen + t < bsz * ch * tlen && b * ch + c < bsz * ch && bsz * ch
        <= bsz * ch * tlen) by (nonlinear_arith)
        requires
            0 <= b < bsz,
            0 <= c < ch,
            0 <= t < tlen,
    ;
}

/// Two rows of a row-major buffer do not overlap: every position of the
/// earlier row lies before every position of the later one.
pub proof fn lemma_rows_disjoint(tlen: int, r1: int, r2: int, t: int)
    requires
        0 <= r1 < r2,
        0 <= t < tlen,
    ensures
        r1 * tlen + t < r2 * tlen,
{
    assert(r1 * tlen + t < r2 * tlen) by (nonlinear_arith)
        requires
            0 <= r1 < r2,
            0 <= t < tlen,
    ;
}

/// A batched rank-3 tensor of opaque 32-bit sample words, held row-major:
/// shape `(bsz, ch, tlen)`, position `(b, c, t)` at `(b*ch + c)*tlen + t`.
#[derive(Debug, Clone)]
pub struct Tensor3 {
    pub data: Vec<u32>,
    pub bsz: usize,
    pub ch: usize,
    pub tlen: usize,
}

impl Tensor3 {
    /// The flat buffer holds exactly one word per position.
    pub open spec fn wf(self) -> bool {
        self.data@.len() == self.bsz * self.ch * self.tlen
    }

    /// The word at `(b, c, t)`.
    pub open spec fn at(self, b: int, c: int, t: int) -> u32 {
        self.data@[idx3(self.ch as int, self.tlen as int, b, c, t)]
    }

    pub open spec fn same_shape_as(self, other: Tensor3) -> bool {
        self.bsz == other.bsz && self.ch == other.ch && self.tlen == other.tlen
    }

    /// Wrap a flat buffer whose length is known to match the shape.
    pub fn from_flat(data: Vec<u32>, bsz: usize, ch: usize, tlen: usize) -> (r: Tensor3)
        requires
            data@.len() == bsz * ch * tlen,
        ensures
            r == (Tensor3 { data, bsz, ch, tlen }),
            r.wf(),
    {
        Tensor3 { data, bsz, ch, tlen }
    }

    /// Wrap a flat buffer, checking that its length matches the shape:
    /// `Some` exactly when it does. This is the shape check applied to a
    /// tensor coming back from an engine call.
    pub fn try_from_flat(data: Vec<u32>, bsz: usize, ch: usize, tlen: usize) -> (r: Option<
        Tensor3,
    >)
        ensures
            r is Some <==> data@.len() == bsz * ch * tlen,
            r is Some ==> r == Some(Tensor3 { data, bsz, ch, tlen }),
    {
        proof {
            assert((bsz as int) * (ch as int) <= 0xffff_ffff_ffff_ffff * 0xffff_ffff_ffff_ffff)
                by (nonlinear_arith)
                requires
                    bsz <= 0xffff_ffff_ffff_ffffu64,
                    ch <= 0xffff_ffff_ffff_ffffu64,
            ;
        }
        let n: usize = data.len();
        let p1: u128 = (bsz as u128) * (ch as u128);
        if tlen == 0 {
            proof {
                assert(bsz * ch * tlen == 0) by (nonlinear_arith)
                    requires
                        tlen == 0,
                ;
            }
            if data.len() == 0 {
                Some(Tensor3 { data, bsz, ch, tlen })
            } else {
                None
            }
        } else if p1 > (usize::MAX as u128) {
            proof {
                assert((bsz as int) * (ch as int) <= (bsz as int) * (ch as int) * (tlen as int))
                    by (nonlinear_arith)
                    requires
                        1 <= tlen,
                        0 <= bsz,
                        0 <= ch,
                ;
            }
            None
        } else {
            proof {
                assert(p1 * (tlen as int) <= 0xffff_ffff_ffff_ffff * 0xffff_ffff_ffff_ffff)
                    by (nonlinear_arith)
                    requires
                        p1 <= 0xffff_ffff_ffff_ffffu128,
                        tlen <= 0xffff_ffff_ffff_ffffu64,
                ;
            }
            let need: u128 = p1 * (tlen as u128);
            proof {
                assert(need == bsz * ch * tlen);
            }
            if (data.len() as u128) == need {
                Some(Tensor3 { data, bsz, ch, tlen })
            } else {
                None
            }
        }
    }

    /// Read one position.
    pub fn get(&self, b: usize, c: usize, t: usize) -> (v: u32)
        requires
            self.wf(),
            b < self.bsz,
            c < self.ch,
            t < self.tlen,
        ensures
            v == self.at(b as int, c as int, t as int),
    {
        let n: usize = self.data.len();
        proof {
            lemma_idx3_bound(
                self.ch as int,
                self.tlen as int,
                self.bsz as int,
                b as int,
                c as int,
                t as int,
            );
            assert(b * self.ch + c < n);
        }
        let row: usize = b * self.ch + c;
        let pos: usize = row * self.tlen + t;
        self.data[pos]
    }

    /// Shape equality, as the denoising step checks it.
    pub fn same_shape(&self, other: &Tensor3) -> (r: bool)
        ensures
            r == self.same_shape_as(*other),
    {
        self.bsz == other.bsz && self.ch == other.ch && self.tlen == other.tlen
    }
}

} // verus!
