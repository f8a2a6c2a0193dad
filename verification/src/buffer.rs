//! The block buffer: the bytes of the message that do not fill a block yet.

use vstd::prelude::*;
use crate::sponge::pad;

verus! {

/// The byte that ends the message in its last block.
pub const PAD_MARKER: u8 = 0x80;

/// Up to 31 bytes that wait for the rest of their block.
pub struct BlockBuffer {
    data: [u8; 32],
    pos: usize,
}

impl Clone for BlockBuffer {
    fn clone(&self) -> (res: Self)
        ensures
            res == *self,
    {
        BlockBuffer { data: self.data, pos: self.pos }
    }
}

impl BlockBuffer {
    /// The bytes held, oldest first.
    pub closed spec fn view(&self) -> Seq<u8> {
        self.data@.take(self.pos as int)
    }

    /// Less than a block is held.
    pub closed spec fn wf(&self) -> bool {
        self.pos < 32
    }

    /// A well-formed buffer holds at most 31 bytes.
    pub proof fn lemma_len(&self)
        requires
            self.wf(),
        ensures
            self@.len() < 32,
    {
    }

    /// An empty buffer.
    pub fn new() -> (buf: Self)
        ensures
            buf.wf(),
            buf@ == Seq::<u8>::empty(),
    {
        let buf = BlockBuffer { data: [0u8; 32], pos: 0 };
        assert(buf@ =~= Seq::<u8>::empty());
        buf
    }

    /// The number of bytes held.
    pub fn get_pos(&self) -> (n: usize)
        requires
            self.wf(),
        ensures
            n == self@.len(),
            n < 32,
    {
        self.pos
    }

    /// Takes the bytes of `data` from index `from` on, as many as it has and
    /// as the block has room for. Returns how many bytes were taken and, if
    /// they filled the block, the block: the buffer is then empty again.
    pub fn fill(&mut self, data: &[u8], from: usize) -> (res: (usize, Option<[u8; 32]>))
        requires
            old(self).wf(),
            from <= data@.len(),
        ensures
            final(self).wf(),
            res.0 == if data@.len() - from < 32 - old(self)@.len() {
                data@.len() - from
            } else {
                32 - old(self)@.len()
            },
            res.1 is Some <==> old(self)@.len() + res.0 == 32,
            res.1 matches Some(block) ==> block@ == old(self)@ + data@.subrange(
                from as int,
                from + res.0,
            ) && final(self)@ == Seq::<u8>::empty(),
            res.1 is None ==> final(self)@ == old(self)@ + data@.subrange(
                from as int,
                from + res.0,
            ),
    {
        let space = 32 - self.pos;
        let len = data.len();
        let avail = len - from;
        let n = if avail < space {
            avail
        } else {
            space
        };
        let ghost held = self@;
        let mut k: usize = 0;
        while k < n
            invariant
                k <= n,
                self.pos == old(self).pos,
                self.pos + n <= 32,
                from + n <= len,
                len == data@.len(),
                held == old(self)@,
                forall|j: int| 0 <= j < self.pos ==> self.data@[j] == held[j],
                forall|j: int|
                    self.pos <= j < self.pos + k ==> self.data@[j] == data@[from + j - self.pos],
            decreases n - k,
        {
            let b = data[from + k];
            self.data[self.pos + k] = b;
            k = k + 1;
        }
        let filled = self.pos + n;
        assert(self.data@.take(filled as int) =~= held + data@.subrange(from as int, from + n));
        if filled == 32 {
            let block = self.data;
            self.pos = 0;
            assert(block@ =~= block@.take(32));
            assert(self@ =~= Seq::<u8>::empty());
            (n, Some(block))
        } else {
            self.pos = filled;
            (n, None)
        }
    }

    /// The last block of the message: the bytes held, the marker, then
    /// zeros.
    pub fn pad(&self) -> (block: [u8; 32])
        requires
            self.wf(),
        ensures
            block@ == pad(self@),
    {
        let mut block = [0u8; 32];
        for k in 0..32usize
            invariant
                self.pos < 32,
                forall|j: int| 0 <= j < k ==> block@[j] == pad(self@)[j],
        {
            let b = if k < self.pos {
                self.data[k]
            } else if k == self.pos {
                PAD_MARKER
            } else {
                0
            };
            block[k] = b;
        }
        assert(block@ =~= pad(self@));
        block
    }
}

} // verus!
