use vstd::prelude::*;

verus! {

/// Largest element of a sequence of sizes, zero when it is empty.
pub open spec fn seq_max(s: Seq<usize>) -> usize
    decreases s.len(),
{
    if s.len() == 0 {
        0usize
    } else if s.last() >= seq_max(s.drop_last()) {
        s.last()
    } else {
        seq_max(s.drop_last())
    }
}

/// Every element is at most the maximum.
pub proof fn lemma_seq_max_ge(s: Seq<usize>, i: int)
    requires
        0 <= i < s.len(),
    ensures
        s[i] <= seq_max(s),
    decreases s.len(),
{
    if i < s.len() - 1 {
        lemma_seq_max_ge(s.drop_last(), i);
    }
}

/// A binary validity mask over a batched time axis: one row per batch
/// element, value 1 on the valid prefix and 0 on the padding.
#[derive(Debug, Clone)]
pub struct TimeMask {
    pub rows: Vec<Vec<u8>>,
}

impl TimeMask {
    /// `bsz` rows of `width` entries each.
    pub open spec fn wf(self, bsz: int, width: int) -> bool {
        &&& self.rows@.len() == bsz
        &&& forall|i: int| 0 <= i < bsz ==> (#[trigger] self.rows@[i])@.len() == width
    }

    pub open spec fn bit(self, i: int, j: int) -> u8 {
        self.rows@[i]@[j]
    }

    /// The mask marks, in row `i`, exactly the first `min(lens[i], width)`
    /// positions.
    pub open spec fn matches_lengths(self, lens: Seq<usize>, width: int) -> bool {
        &&& self.wf(lens.len() as int, width)
        &&& forall|i: int, j: int|
            0 <= i < lens.len() && 0 <= j < width ==> #[trigger] self.bit(i, j) == (
            if j < lens[i] {
                1u8
            } else {
                0u8
            })
    }

    /// A row whose length is zero is all-zero: a zero-duration utterance
    /// contributes no valid latent positions, whatever the batch maximum
    /// set the mask width to.
    pub proof fn lemma_zero_length_row_is_zero(self, lens: Seq<usize>, width: int, i: int)
        requires
            self.matches_lengths(lens, width),
            0 <= i < lens.len(),
            lens[i] == 0,
        ensures
            forall|j: int| 0 <= j < width ==> self.bit(i, j) == 0u8,
    {
    }
}

/// Largest entry of the vector, zero when it is empty.
pub fn max_of(lengths: &Vec<usize>) -> (m: usize)
    ensures
        m == seq_max(lengths@),
{
    let mut m: usize = 0;
    let mut i: usize = 0;
    assert(lengths@.take(0) =~= Seq::<usize>::empty());
    while i < lengths.len()
        invariant
            0 <= i <= lengths@.len(),
            m == seq_max(lengths@.take(i as int)),
        decreases lengths@.len() - i,
    {
        assert(lengths@.take(i + 1).drop_last() =~= lengths@.take(i as int));
        assert(lengths@.take(i + 1).last() == lengths@[i as int]);
        if lengths[i] > m {
            m = lengths[i];
        }
        i = i + 1;
    }
    assert(lengths@.take(lengths@.len() as int) =~= lengths@);
    m
}

/// Build the validity mask for the given per-row lengths. The width is
/// `max_len` when given, else the largest length; row `i` carries ones on
/// its first `min(lengths[i], width)` entries and zeros after them.
pub fn length_to_mask(lengths: &Vec<usize>, max_len: Option<usize>) -> (m: TimeMask)
    ensures
        m.matches_lengths(
            lengths@,
            match max_len {
                Some(w) => w as int,
                None => seq_max(lengths@) as int,
            },
        ),
{
    let width: usize = match max_len {
        Some(w) => w,
        None => max_of(lengths),
    };
    let mut rows: Vec<Vec<u8>> = Vec::new();
    let mut i: usize = 0;
    while i < lengths.len()
        invariant
            0 <= i <= lengths@.len(),
            rows@.len() == i,
            forall|k: int| 0 <= k < i ==> (#[trigger] rows@[k])@.len() == width,
            forall|k: int, j: int|
                0 <= k < i && 0 <= j < width ==> #[trigger] rows@[k]@[j] == (
                if j < lengths@[k] {
                    1u8
                } else {
                    0u8
                }),
        decreases lengths@.len() - i,
    {
        let len_i = lengths[i];
        let mut row: Vec<u8> = Vec::new();
        let mut j: usize = 0;
        while j < width
            invariant
                0 <= j <= width,
                row@.len() == j,
                forall|t: int|
                    0 <= t < j ==> #[trigger] row@[t] == (
                    if t < len_i {
                        1u8
                    } else {
                        0u8
                    }),
            decreases width - j,
        {
            if j < len_i {
                row.push(1u8);
            } else {
                row.push(0u8);
            }
            j = j + 1;
        }
        rows.push(row);
        i = i + 1;
    }
    TimeMask { rows }
}

/// The text mask of a batch: width is the largest length.
pub fn get_text_mask(text_ids_lengths: &Vec<usize>) -> (m: TimeMask)
    ensures
        m.matches_lengths(text_ids_lengths@, seq_max(text_ids_lengths@) as int),
{
    let max_len = max_of(text_ids_lengths);
    length_to_mask(text_ids_lengths, Some(max_len))
}

} // verus!
