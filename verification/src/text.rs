use vstd::prelude::*;

use unicode_normalization::UnicodeNormalization;

use vstd::utf8::encode_scalar;

use crate::mask::{get_text_mask, seq_max, TimeMask};
use crate::tensor::{idx2, lemma_rows_disjoint};

verus! {

/// The Unicode compatibility decomposition (NFKD) of a character
/// sequence.
pub uninterp spec fn nfkd_of(s: Seq<char>) -> Seq<char>;

/// Normalize one utterance text by canonical compatibility
/// decomposition, so that visually and semantically equivalent character
/// sequences map to the same ids.
///
/// Relies on unicode_normalization's `nfkd`: Normalization Form KD, a
/// function of the input characters alone; an empty text stays empty.
#[verifier::external_body]
pub fn preprocess_text(text: &str) -> (r: String)
    ensures
        r@ == nfkd_of(text@),
        text@.len() == 0 ==> r@.len() == 0,
{
    text.nfkd().collect()
}

/// The code point of each character of a text, in order.
pub fn text_to_unicode_values(text: &str) -> (r: Vec<usize>)
    ensures
        r@.len() == text@.len(),
        forall|i: int| 0 <= i < text@.len() ==> r@[i] == text@[i] as usize,
{
    let n = text.unicode_len();
    let mut vals: Vec<usize> = Vec::new();
    let mut i: usize = 0;
    while i < n
        invariant
            0 <= i <= n,
            n == text@.len(),
            vals@.len() == i,
            forall|k: int| 0 <= k < i ==> #[trigger] vals@[k] == text@[k] as usize,
        decreases n - i,
    {
        let c = text.get_char(i);
        vals.push(c as usize);
        i = i + 1;
    }
    vals
}

/// The id the table assigns to a character: its entry at the character's
/// code point when that is in range, else the sentinel -1. Unknown
/// characters are not an error.
pub open spec fn token_id(indexer: Seq<i64>, c: char) -> i64 {
    if (c as usize) < indexer.len() {
        indexer[c as usize as int]
    } else {
        -1i64
    }
}

/// One id row of a batch: the ids of the normalized characters,
/// right-padded with 0 to the batch width.
pub open spec fn row_spec(indexer: Seq<i64>, chars: Seq<char>, width: int) -> Seq<i64> {
    Seq::new(
        width as nat,
        |j: int|
            if j < chars.len() {
                token_id(indexer, chars[j])
            } else {
                0i64
            },
    )
}

/// The per-utterance lengths of a batch after normalization.
pub open spec fn spec_lens(texts: Seq<String>) -> Seq<usize> {
    Seq::new(texts.len(), |i: int| nfkd_of(texts[i]@).len() as usize)
}

/// What tokenizing a batch yields: one id row per utterance, each the
/// batch-wide padded row of its normalized text, and a mask that marks
/// exactly each row's unpadded prefix.
pub open spec fn tokenized(
    indexer: Seq<i64>,
    texts: Seq<String>,
    ids: Seq<Vec<i64>>,
    mask: TimeMask,
) -> bool {
    let lens = spec_lens(texts);
    let width = seq_max(lens) as int;
    &&& ids.len() == texts.len()
    &&& forall|i: int|
        0 <= i < texts.len() ==> (#[trigger] ids[i])@ == row_spec(
            indexer,
            nfkd_of(texts[i]@),
            width,
        )
    &&& mask.matches_lengths(lens, width)
}

/// Maps raw utterance texts to padded integer id rows plus a validity
/// mask, through a character-id table indexed by code point.
#[derive(Debug)]
pub struct UnicodeProcessor {
    pub indexer: Vec<i64>,
}

impl UnicodeProcessor {
    /// Wrap a loaded character-id table.
    pub fn new(indexer: Vec<i64>) -> (r: Self)
        ensures
            r.indexer@ == indexer@,
    {
        UnicodeProcessor { indexer }
    }

    /// Tokenize a batch: normalize each text, map each character to its
    /// id, right-pad every row with 0 to the batch maximum, and mask
    /// exactly the first `len(normalize(text_i))` positions of row `i`.
    pub fn call(&self, text_list: &Vec<String>) -> (r: (Vec<Vec<i64>>, TimeMask))
        ensures
            tokenized(self.indexer@, text_list@, r.0@, r.1),
    {
        let n = text_list.len();
        let mut processed: Vec<String> = Vec::new();
        let mut lens: Vec<usize> = Vec::new();
        let mut i: usize = 0;
        while i < n
            invariant
                0 <= i <= n,
                n == text_list@.len(),
                processed@.len() == i,
                lens@.len() == i,
                forall|k: int|
                    0 <= k < i ==> (#[trigger] processed@[k])@ == nfkd_of(text_list@[k]@),
                forall|k: int| 0 <= k < i ==> #[trigger] lens@[k] == nfkd_of(text_list@[k]@).len(),
            decreases n - i,
        {
            let p = preprocess_text(text_list[i].as_str());
            lens.push(p.as_str().unicode_len());
            processed.push(p);
            i = i + 1;
        }
        proof {
            assert(lens@ =~= spec_lens(text_list@));
        }
        let max_len = crate::mask::max_of(&lens);
        let mut rows: Vec<Vec<i64>> = Vec::new();
        let mut i: usize = 0;
        while i < n
            invariant
                0 <= i <= n,
                n == text_list@.len(),
                processed@.len() == n,
                forall|k: int|
                    0 <= k < n ==> (#[trigger] processed@[k])@ == nfkd_of(text_list@[k]@),
                rows@.len() == i,
                forall|k: int|
                    0 <= k < i ==> (#[trigger] rows@[k])@ == row_spec(
                        self.indexer@,
                        nfkd_of(text_list@[k]@),
                        max_len as int,
                    ),
            decreases n - i,
        {
            let vals = text_to_unicode_values(processed[i].as_str());
            let mut row: Vec<i64> = Vec::new();
            let mut j: usize = 0;
            while j < max_len
                invariant
                    0 <= j <= max_len,
                    0 <= i < n,
                    n == text_list@.len(),
                    vals@.len() == nfkd_of(text_list@[i as int]@).len(),
                    forall|t: int|
                        0 <= t < vals@.len() ==> #[trigger] vals@[t] == nfkd_of(
                            text_list@[i as int]@,
                        )[t] as usize,
                    row@.len() == j,
                    forall|t: int|
                        0 <= t < j ==> #[trigger] row@[t] == row_spec(
                            self.indexer@,
                            nfkd_of(text_list@[i as int]@),
                            max_len as int,
                        )[t],
                decreases max_len - j,
            {
                if j < vals.len() {
                    let v = vals[j];
                    if v < self.indexer.len() {
                        row.push(self.indexer[v]);
                    } else {
                        row.push(-1i64);
                    }
                } else {
                    row.push(0i64);
                }
                j = j + 1;
            }
            proof {
                assert(row@ =~= row_spec(
                    self.indexer@,
                    nfkd_of(text_list@[i as int]@),
                    max_len as int,
                ));
            }
            rows.push(row);
            i = i + 1;
        }
        let mask = get_text_mask(&lens);
        (rows, mask)
    }
}

/// Concatenate equal-width id rows into one row-major buffer, row `i`
/// starting at offset `i * width`, as the engine calls consume it.
pub fn flatten_ids(ids: &Vec<Vec<i64>>, width: usize) -> (r: Vec<i64>)
    requires
        forall|i: int| 0 <= i < ids@.len() ==> (#[trigger] ids@[i])@.len() == width,
    ensures
        r@.len() == ids@.len() * width,
        forall|i: int, j: int|
            0 <= i < ids@.len() && 0 <= j < width ==> r@[#[trigger] idx2(width as int, i, j)]
                == ids@[i]@[j],
{
    let n = ids.len();
    let mut flat: Vec<i64> = Vec::new();
    let mut i: usize = 0;
    proof {
        assert(0 * (width as int) == 0) by (nonlinear_arith);
    }
    while i < n
        invariant
            0 <= i <= n,
            n == ids@.len(),
            forall|k: int| 0 <= k < n ==> (#[trigger] ids@[k])@.len() == width,
            flat@.len() == i * width,
            forall|k: int, j: int|
                0 <= k < i && 0 <= j < width ==> flat@[#[trigger] idx2(width as int, k, j)]
                    == ids@[k]@[j],
        decreases n - i,
    {
        let row = &ids[i];
        let mut j: usize = 0;
        while j < width
            invariant
                0 <= j <= width,
                0 <= i < n,
                n == ids@.len(),
                forall|k: int| 0 <= k < n ==> (#[trigger] ids@[k])@.len() == width,
                row == ids@[i as int],
                flat@.len() == i * width + j,
                forall|k: int, j2: int|
                    0 <= k < i && 0 <= j2 < width ==> flat@[#[trigger] idx2(width as int, k, j2)]
                        == ids@[k]@[j2],
                forall|j2: int|
                    0 <= j2 < j ==> flat@[#[trigger] idx2(width as int, i as int, j2)]
                        == ids@[i as int]@[j2],
            decreases width - j,
        {
            proof {
                assert forall|k: int, j2: int|
                    0 <= k < i && 0 <= j2 < width implies #[trigger] idx2(width as int, k, j2) < i
                    * width + j by {
                    lemma_rows_disjoint(width as int, k, i as int, j2);
                };
            }
            flat.push(row[j]);
            j = j + 1;
        }
        i = i + 1;
        proof {
            assert((i - 1) * width + width == i * width) by (nonlinear_arith);
        }
    }
    flat
}

/// The characters a sanitized file name keeps as they are: ASCII letters
/// and digits.
pub open spec fn is_ascii_alnum(c: char) -> bool {
    (48 <= c as u32 <= 57) || (65 <= c as u32 <= 90) || (97 <= c as u32 <= 122)
}

/// A character of the sanitized name: kept when it is an ASCII letter or
/// digit, else replaced by an underscore.
pub open spec fn sanitize_char(c: char) -> char {
    if is_ascii_alnum(c) {
        c
    } else {
        '_'
    }
}

/// How many leading characters fit a byte budget, a whole character at a
/// time.
pub open spec fn keep_count(s: Seq<char>, budget: int) -> nat
    decreases s.len(),
{
    if s.len() == 0 {
        0nat
    } else if encode_scalar(s[0] as u32).len() <= budget {
        1nat + keep_count(s.drop_first(), budget - encode_scalar(s[0] as u32).len())
    } else {
        0nat
    }
}

/// The sanitized name: the longest character prefix whose UTF-8 form
/// fits `max_len` bytes (the whole text when it fits), each character
/// sanitized.
pub open spec fn sanitize_spec(s: Seq<char>, max_len: int) -> Seq<char> {
    Seq::new(keep_count(s, max_len), |i: int| sanitize_char(s[i]))
}

/// How many bytes the UTF-8 form of one character takes.
fn char_width(c: char) -> (r: usize)
    ensures
        r == encode_scalar(c as u32).len(),
        1 <= r <= 4,
{
    let u = c as u32;
    if u < 0x80 {
        1
    } else if u < 0x800 {
        2
    } else if u < 0x10000 {
        3
    } else {
        4
    }
}

/// Append one character.
///
/// Relies on String::push, which appends exactly that character.
#[verifier::external_body]
fn push_char(s: &mut String, c: char)
    ensures
        final(s)@ == old(s)@.push(c),
{
    s.push(c)
}

/// Keep the ASCII letters and digits of a text and replace every other
/// character by an underscore, after trimming the text to its first
/// `max_len` bytes; a character that would straddle the byte limit is
/// dropped whole.
pub fn sanitize_filename(text: &str, max_len: usize) -> (r: String)
    ensures
        r@ == sanitize_spec(text@, max_len as int),
{
    let n = text.unicode_len();
    let mut out = String::new();
    {
        let mut i: usize = 0;
        let mut used: usize = 0;
        let mut stop = false;
        proof {
            assert(text@.skip(0) =~= text@);
        }
        while i < n && !stop
            invariant
                0 <= i <= n,
                n == text@.len(),
                used <= max_len,
                out@.len() == i,
                forall|k: int| 0 <= k < i ==> #[trigger] out@[k] == sanitize_char(text@[k]),
                keep_count(text@, max_len as int) == i + (if stop {
                    0int
                } else {
                    keep_count(text@.skip(i as int), max_len - used) as int
                }),
                stop ==> keep_count(text@, max_len as int) == i,
            decreases n - i, (if stop {
                0int
            } else {
                1int
            }),
        {
            let c = text.get_char(i);
            let w = char_width(c);
            if w > max_len - used {
                proof {
                    assert(text@.skip(i as int)[0] == text@[i as int]);
                    assert(keep_count(text@.skip(i as int), max_len - used) == 0);
                }
                stop = true;
            } else {
                proof {
                    assert(text@.skip(i as int)[0] == text@[i as int]);
                    assert(text@.skip(i as int).drop_first() =~= text@.skip(i as int + 1));
                }
                let u = c as u32;
                if (48 <= u && u <= 57) || (65 <= u && u <= 90) || (97 <= u && u <= 122) {
                    push_char(&mut out, c);
                } else {
                    push_char(&mut out, '_');
                }
                used = used + w;
                i = i + 1;
            }
        }
        proof {
            if !stop {
                assert(text@.skip(n as int) =~= Seq::<char>::empty());
            }
            assert(keep_count(text@, max_len as int) == i);
            assert(out@ =~= sanitize_spec(text@, max_len as int));
        }
        out
    }
}

} // verus!
