//! Raw byte storage for GPU-bound data.
//!
//! A [`BufferData`] owns a growable byte vector that is always a flat,
//! tightly packed little-endian encoding of the 32-bit words pushed into
//! it, in insertion order.

use vstd::prelude::*;

verus! {

/// Error raised by operations on [`BufferData`].
#[derive(Clone, Copy, PartialEq, Eq, Structural, Debug)]
pub enum BufferError {
    /// A region update or read named bytes past the end of the buffer.
    RegionOutOfBounds,
}

/// The four little-endian bytes of one 32-bit word.
pub open spec fn word_bytes(w: u32) -> Seq<u8> {
    seq![
        (w & 0xff) as u8,
        ((w >> 8) & 0xff) as u8,
        ((w >> 16) & 0xff) as u8,
        ((w >> 24) & 0xff) as u8,
    ]
}

/// The flat little-endian encoding of a word sequence, in order.
pub open spec fn words_bytes(ws: Seq<u32>) -> Seq<u8>
    decreases ws.len(),
{
    if ws.len() == 0 {
        Seq::empty()
    } else {
        words_bytes(ws.drop_last()) + word_bytes(ws.last())
    }
}

/// The word read back from four little-endian bytes.
pub open spec fn word_of_bytes(b0: u8, b1: u8, b2: u8, b3: u8) -> u32 {
    (b0 as u32) | ((b1 as u32) << 8) | ((b2 as u32) << 16) | ((b3 as u32) << 24)
}

/// Encoding a word and reading the four bytes back yields the word.
pub proof fn lemma_word_round_trip(w: u32)
    ensures
        word_of_bytes(
            (w & 0xff) as u8,
            ((w >> 8) & 0xff) as u8,
            ((w >> 16) & 0xff) as u8,
            ((w >> 24) & 0xff) as u8,
        ) == w,
{
    assert(((w & 0xff) as u8 as u32) | (((w >> 8) & 0xff) as u8 as u32) << 8
        | (((w >> 16) & 0xff) as u8 as u32) << 16 | (((w >> 24) & 0xff) as u8 as u32) << 24
        == w) by (bit_vector);
}

/// The encoding of `n` words is `4 * n` bytes long.
pub proof fn lemma_words_bytes_len(ws: Seq<u32>)
    ensures
        words_bytes(ws).len() == 4 * ws.len(),
    decreases ws.len(),
{
    if ws.len() > 0 {
        lemma_words_bytes_len(ws.drop_last());
    }
}

/// Appending one word to a sequence appends its four bytes to the encoding.
pub proof fn lemma_words_bytes_push(ws: Seq<u32>, w: u32)
    ensures
        words_bytes(ws.push(w)) == words_bytes(ws) + word_bytes(w),
{
    assert(ws.push(w).drop_last() == ws);
    assert(ws.push(w).last() == w);
}

/// Two word sequences with the same encoding are the same sequence
/// (the little-endian encoding loses nothing).
pub proof fn lemma_words_bytes_injective(a: Seq<u32>, b: Seq<u32>)
    requires
        words_bytes(a) == words_bytes(b),
    ensures
        a == b,
    decreases a.len(),
{
    lemma_words_bytes_len(a);
    lemma_words_bytes_len(b);
    if a.len() == 0 {
        assert(a =~= b);
    } else {
        let wa = a.last();
        let wb = b.last();
        lemma_words_bytes_len(a.drop_last());
        assert(word_bytes(wa) =~= words_bytes(a).subrange(
            words_bytes(a).len() - 4,
            words_bytes(a).len() as int,
        ));
        assert(word_bytes(wb) =~= words_bytes(b).subrange(
            words_bytes(b).len() - 4,
            words_bytes(b).len() as int,
        ));
        assert(word_bytes(wa) == word_bytes(wb));
        lemma_word_round_trip(wa);
        lemma_word_round_trip(wb);
        assert(wa == wb);
        assert(words_bytes(a.drop_last()) =~= words_bytes(a).subrange(
            0,
            words_bytes(a).len() - 4,
        ));
        assert(words_bytes(b.drop_last()) =~= words_bytes(b).subrange(
            0,
            words_bytes(b).len() - 4,
        ));
        lemma_words_bytes_injective(a.drop_last(), b.drop_last());
        assert(a =~= a.drop_last().push(wa));
        assert(b =~= b.drop_last().push(wb));
    }
}

/// An owned, growable byte sequence holding tightly packed encodings of
/// the typed values pushed into it.
pub struct BufferData {
    pub bytes: Vec<u8>,
}

impl BufferData {
    /// An empty buffer.
    pub fn new() -> (result: BufferData)
        ensures
            result.bytes@ == Seq::<u8>::empty(),
    {
        BufferData { bytes: Vec::new() }
    }

    /// A buffer holding exactly the encoding of `data`.
    pub fn new_initialized(data: Vec<u32>) -> (result: BufferData)
        ensures
            result.bytes@ == words_bytes(data@),
    {
        let mut result = BufferData::new();
        result.add_data(&data);
        result
    }

    /// A buffer of `size` zero bytes.
    pub fn new_zero_initialized(size: usize) -> (result: BufferData)
        ensures
            result.bytes@.len() == size,
            forall|i: int| 0 <= i < size ==> result.bytes@[i] == 0u8,
    {
        let mut bytes: Vec<u8> = Vec::new();
        let mut k: usize = 0;
        while k < size
            invariant
                k <= size,
                bytes@.len() == k,
                forall|i: int| 0 <= i < k ==> bytes@[i] == 0u8,
            decreases size - k,
        {
            bytes.push(0);
            k = k + 1;
        }
        BufferData { bytes }
    }

    /// Appends the little-endian encoding of each word of `data`, in order.
    pub fn add_data(&mut self, data: &Vec<u32>)
        ensures
            final(self).bytes@ == old(self).bytes@ + words_bytes(data@),
    {
        let mut i: usize = 0;
        while i < data.len()
            invariant
                i <= data@.len(),
                self.bytes@ == old(self).bytes@ + words_bytes(data@.subrange(0, i as int)),
            decreases data@.len() - i,
        {
            let w = data[i];
            proof {
                lemma_words_bytes_push(data@.subrange(0, i as int), w);
                assert(data@.subrange(0, i + 1) == data@.subrange(0, i as int).push(w));
            }
            self.bytes.push((w & 0xff) as u8);
            self.bytes.push(((w >> 8) & 0xff) as u8);
            self.bytes.push(((w >> 16) & 0xff) as u8);
            self.bytes.push(((w >> 24) & 0xff) as u8);
            i = i + 1;
            assert(self.bytes@ =~= old(self).bytes@ + words_bytes(data@.subrange(0, i as int)));
        }
        assert(data@.subrange(0, data@.len() as int) =~= data@);
    }

    /// Overwrites the bytes at `[start, start + 4 * data.len())` with the
    /// encoding of `data`, leaving every other byte unchanged. Fails with
    /// [`BufferError::RegionOutOfBounds`] exactly when the region extends
    /// past the buffer's current length; the buffer is then unchanged.
    pub fn update_region(&mut self, start: usize, data: &Vec<u32>) -> (result: Result<
        (),
        BufferError,
    >)
        ensures
            result is Ok <==> start + 4 * data@.len() <= old(self).bytes@.len(),
            result is Ok ==> {
                &&& final(self).bytes@.len() == old(self).bytes@.len()
                &&& final(self).bytes@.subrange(start as int, start + 4 * data@.len())
                    == words_bytes(data@)
                &&& forall|i: int|
                    0 <= i < old(self).bytes@.len() && !(start <= i < start + 4 * data@.len())
                        ==> final(self).bytes@[i] == old(self).bytes@[i]
            },
            result is Err ==> final(self).bytes@ == old(self).bytes@,
    {
        proof {
            assert(usize::MAX as int - 3 <= 4 * (usize::MAX as int / 4) <= usize::MAX as int)
                by (nonlinear_arith);
        }
        let buffer_len = self.bytes.len();
        if data.len() > usize::MAX / 4 {
            return Err(BufferError::RegionOutOfBounds);
        }
        let width = 4 * data.len();
        if start > buffer_len || width > buffer_len - start {
            return Err(BufferError::RegionOutOfBounds);
        }
        let mut i: usize = 0;
        while i < data.len()
            invariant
                i <= data@.len(),
                start + 4 * data@.len() <= old(self).bytes@.len(),
                old(self).bytes@.len() <= usize::MAX,
                self.bytes@.len() == old(self).bytes@.len(),
                self.bytes@.subrange(start as int, start + 4 * i) == words_bytes(
                    data@.subrange(0, i as int),
                ),
                forall|j: int|
                    0 <= j < old(self).bytes@.len() && !(start <= j < start + 4 * i)
                        ==> self.bytes@[j] == old(self).bytes@[j],
            decreases data@.len() - i,
        {
            let w = data[i];
            proof {
                lemma_words_bytes_push(data@.subrange(0, i as int), w);
                assert(data@.subrange(0, i + 1) == data@.subrange(0, i as int).push(w));
                lemma_words_bytes_len(data@.subrange(0, i as int));
            }
            self.bytes[start + 4 * i] = (w & 0xff) as u8;
            self.bytes[start + 4 * i + 1] = ((w >> 8) & 0xff) as u8;
            self.bytes[start + 4 * i + 2] = ((w >> 16) & 0xff) as u8;
            self.bytes[start + 4 * i + 3] = ((w >> 24) & 0xff) as u8;
            i = i + 1;
            assert(self.bytes@.subrange(start as int, start + 4 * i) =~= words_bytes(
                data@.subrange(0, i as int),
            ));
        }
        proof {
            assert(data@.subrange(0, data@.len() as int) =~= data@);
        }
        Ok(())
    }

    /// Reads back the `count` words encoded at `[start, start + 4 * count)`.
    /// Fails with [`BufferError::RegionOutOfBounds`] exactly when the region
    /// extends past the buffer's length.
    pub fn read_words(&self, start: usize, count: usize) -> (result: Result<
        Vec<u32>,
        BufferError,
    >)
        ensures
            result is Ok <==> start + 4 * count <= self.bytes@.len(),
            result matches Ok(ws) ==> {
                &&& ws@.len() == count
                &&& words_bytes(ws@) == self.bytes@.subrange(start as int, start + 4 * count)
            },
    {
        proof {
            assert(usize::MAX as int - 3 <= 4 * (usize::MAX as int / 4) <= usize::MAX as int)
                by (nonlinear_arith);
        }
        let buffer_len = self.bytes.len();
        if count > usize::MAX / 4 {
            return Err(BufferError::RegionOutOfBounds);
        }
        let width = 4 * count;
        if start > buffer_len || width > buffer_len - start {
            return Err(BufferError::RegionOutOfBounds);
        }
        let mut ws: Vec<u32> = Vec::new();
        let mut i: usize = 0;
        while i < count
            invariant
                i <= count,
                start + 4 * count <= self.bytes@.len(),
                self.bytes@.len() <= usize::MAX,
                ws@.len() == i,
                words_bytes(ws@) == self.bytes@.subrange(start as int, start + 4 * i),
            decreases count - i,
        {
            let b0 = self.bytes[start + 4 * i];
            let b1 = self.bytes[start + 4 * i + 1];
            let b2 = self.bytes[start + 4 * i + 2];
            let b3 = self.bytes[start + 4 * i + 3];
            let w = (b0 as u32) | ((b1 as u32) << 8) | ((b2 as u32) << 16) | ((b3 as u32) << 24);
            proof {
                lemma_words_bytes_push(ws@, w);
                lemma_words_bytes_len(ws@);
                assert((w & 0xff) as u8 == b0 && ((w >> 8) & 0xff) as u8 == b1 && ((w >> 16)
                    & 0xff) as u8 == b2 && ((w >> 24) & 0xff) as u8 == b3) by (bit_vector)
                    requires
                        w == (b0 as u32) | ((b1 as u32) << 8) | ((b2 as u32) << 16) | ((
                        b3 as u32) << 24),
                ;
            }
            ws.push(w);
            i = i + 1;
            assert(words_bytes(ws@) =~= self.bytes@.subrange(start as int, start + 4 * i));
        }
        Ok(ws)
    }
}

/// Reading a freshly written region returns exactly the written words:
/// for any buffer state, a successful `update_region(start, data)` followed
/// by `read_words(start, data.len())` yields `data` again. Stated over the
/// contracts' byte-level model.
pub proof fn lemma_update_then_read(bytes: Seq<u8>, start: int, data: Seq<u32>, ws: Seq<u32>)
    requires
        bytes.subrange(start, start + 4 * data.len()) == words_bytes(data),
        words_bytes(ws) == bytes.subrange(start, start + 4 * data.len()),
    ensures
        ws == data,
{
    lemma_words_bytes_injective(ws, data);
}


/// Round trip: appending a typed sequence and reading the same region
/// back reconstructs the original words bit for bit. Stated over the
/// contracts' byte-level model: words read back from the bytes an append
/// wrote are the appended words.
pub proof fn lemma_add_then_read(prefix: Seq<u8>, data: Seq<u32>, ws: Seq<u32>)
    requires
        words_bytes(ws) == (prefix + words_bytes(data)).subrange(
            prefix.len() as int,
            prefix.len() as int + words_bytes(data).len() as int,
        ),
    ensures
        ws == data,
{
    assert((prefix + words_bytes(data)).subrange(
        prefix.len() as int,
        prefix.len() as int + words_bytes(data).len() as int,
    ) =~= words_bytes(data));
    lemma_words_bytes_injective(ws, data);
}

} // verus!
