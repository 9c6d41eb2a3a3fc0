//! An instance image as a sequence of fixed-size blocks.

use vstd::prelude::*;

verus! {

/// Number of bytes of a block.
pub const BLK_SIZE: usize = 512;

/// One block.
pub type Block = [u8; BLK_SIZE];

/// Whether every block of `image` has `BLK_SIZE` bytes.
pub open spec fn is_image(image: Seq<Seq<u8>>) -> bool {
    forall|i: int| 0 <= i < image.len() ==> (#[trigger] image[i]).len() == BLK_SIZE
}

/// The indices of the blocks of a partition that are still to be visited,
/// in ascending order: those from `next` up to, and without, `end`.
#[derive(Clone, Copy, Debug, PartialEq, Eq, Structural)]
pub struct Indices {
    pub next: usize,
    pub end: usize,
}

impl Indices {
    /// The number of indices that are still to be visited.
    pub open spec fn left(&self) -> nat {
        if self.next < self.end {
            (self.end - self.next) as nat
        } else {
            0
        }
    }

    /// The indices that are left once the next `count` were passed over,
    /// or none where fewer are left.
    pub open spec fn advanced(&self, count: u64) -> Indices {
        Indices {
            next: if self.next + count <= self.end {
                (self.next + count) as usize
            } else if self.next <= self.end {
                self.end
            } else {
                self.next
            },
            end: self.end,
        }
    }

    /// The index that is visited next, or nothing where none is left.
    pub fn next(&mut self) -> (index: Option<usize>)
        ensures
            final(self).end == old(self).end,
            match index {
                Some(i) => i == old(self).next && i < old(self).end && final(self).next == i + 1,
                None => old(self).next >= old(self).end && final(self).next == old(self).next,
            },
    {
        if self.next < self.end {
            let index = self.next;
            self.next = index + 1;
            Some(index)
        } else {
            None
        }
    }

    /// Passes over the next `count` indices, or over all where fewer are
    /// left.
    pub fn advance_by(&mut self, count: u64)
        ensures
            *final(self) == old(self).advanced(count),
    {
        if self.next < self.end {
            let left: usize = self.end - self.next;
            if count < left as u64 {
                self.next = self.next + count as usize;
            } else {
                self.next = self.end;
            }
        }
    }
}

/// The blocks of one partition, indexed from 0.
pub struct Partition {
    pub blocks: Vec<Block>,
}

impl View for Partition {
    type V = Seq<Seq<u8>>;

    open spec fn view(&self) -> Seq<Seq<u8>> {
        Seq::new(self.blocks@.len(), |i: int| self.blocks@[i]@)
    }
}

impl Partition {
    /// A partition of `block_count` blocks of zero bytes.
    pub fn new(block_count: usize) -> (partition: Partition)
        ensures
            partition@.len() == block_count,
            forall|i: int, j: int|
                0 <= i < block_count && 0 <= j < BLK_SIZE ==> partition@[i][j] == 0,
    {
        let mut blocks: Vec<Block> = Vec::new();
        let mut i: usize = 0;
        while i < block_count
            invariant
                i <= block_count,
                blocks@.len() == i,
                forall|k: int, j: int| 0 <= k < i && 0 <= j < BLK_SIZE ==> blocks@[k]@[j] == 0,
            decreases block_count - i,
        {
            blocks.push([0u8; BLK_SIZE]);
            i = i + 1;
        }
        Partition { blocks }
    }

    /// The view of a partition is an image.
    pub proof fn lemma_view_is_image(&self)
        ensures
            is_image(self@),
    {
    }

    /// The number of blocks; their indices are those below it.
    pub fn len(&self) -> (len: usize)
        ensures
            len == self@.len(),
    {
        self.blocks.len()
    }

    /// The indices of all blocks, from 0.
    pub fn indices(&self) -> (indices: Indices)
        ensures
            indices.next == 0,
            indices.end == self@.len(),
    {
        Indices { next: 0, end: self.blocks.len() }
    }

    /// Reads the block at `index`, if there is one.
    pub fn read_block(&self, index: usize) -> (block: Option<Block>)
        ensures
            block is Some <==> index < self@.len(),
            block matches Some(b) ==> b@ == self@[index as int],
    {
        if index < self.blocks.len() {
            Some(self.blocks[index])
        } else {
            None
        }
    }

    /// Replaces the block at `index`, if there is one, and says whether it
    /// did.
    pub fn write_block(&mut self, index: usize, block: &Block) -> (written: bool)
        ensures
            written <==> index < old(self)@.len(),
            written ==> final(self)@ == old(self)@.update(index as int, block@),
            !written ==> final(self)@ == old(self)@,
    {
        if index < self.blocks.len() {
            self.blocks[index] = *block;
            assert(self@ =~= old(self)@.update(index as int, block@));
            true
        } else {
            false
        }
    }
}

} // verus!
