//! Finding the slot of the owned record among the entries of an image.

use crate::codec::{decode_entry_header, header_valid, EntryHeader, Header};
use crate::endian::lemma_le_value_zero;
use crate::error::Error;
use crate::partition::{Block, Indices, Partition, BLK_SIZE};
use crate::tag::{lemma_swap_bytes_zero, Uuid};
use vstd::prelude::*;

verus! {

/// The tag of the record that this store owns, as the number that its bytes
/// denote most significant byte first.
pub const PVMFW_UUID: u128 = 0x90d2174a038a4bc6adf3824848fc5825;

/// Where the owned record is, or where it can be put.
#[derive(Clone, Copy, Debug, PartialEq, Eq, Structural)]
pub enum PvmfwEntry {
    /// The owned record has its header in the block `header_index` and
    /// declares `payload_size` bytes of payload.
    Existing { header_index: usize, payload_size: u64 },
    /// There is no owned record; the block `header_index` is the first free
    /// one.
    New { header_index: usize },
}

impl PvmfwEntry {
    /// The index of the header block.
    pub open spec fn spec_header_index(&self) -> usize {
        match *self {
            PvmfwEntry::Existing { header_index, .. } => header_index,
            PvmfwEntry::New { header_index } => header_index,
        }
    }

    /// The index of the header block.
    pub fn header_index(&self) -> (index: usize)
        ensures
            index == self.spec_header_index(),
    {
        match *self {
            PvmfwEntry::Existing { header_index, .. } => header_index,
            PvmfwEntry::New { header_index } => header_index,
        }
    }

    /// The tag of the owned record.
    pub fn uuid() -> (uuid: Uuid)
        ensures
            uuid.bits == PVMFW_UUID,
    {
        Uuid::from_u128(PVMFW_UUID)
    }
}

/// What an entry header says of its block.
#[derive(Clone, Copy, Debug, PartialEq, Eq, Structural)]
pub enum Slot {
    /// Nothing was ever written here.
    Free,
    /// The owned record starts here.
    Owned { payload_size: u64 },
    /// A record of another owner starts here.
    Foreign { payload_size: u64 },
}

/// The slot that a header stands for: free where the tag is all zero, owned
/// where it is the tag of this store, foreign otherwise.
pub open spec fn classify(header: EntryHeader) -> Slot {
    let uuid = header.spec_uuid();
    if uuid.bits == 0 {
        Slot::Free
    } else if uuid.bits == PVMFW_UUID {
        Slot::Owned { payload_size: header.payload_size }
    } else {
        Slot::Foreign { payload_size: header.payload_size }
    }
}

impl EntryHeader {
    /// The slot that the header stands for.
    pub fn slot(&self) -> (slot: Slot)
        ensures
            slot == classify(*self),
    {
        let uuid = self.uuid();
        if uuid.is_nil() {
            Slot::Free
        } else if uuid == PvmfwEntry::uuid() {
            Slot::Owned { payload_size: self.payload_size() }
        } else {
            Slot::Foreign { payload_size: self.payload_size() }
        }
    }
}

/// The least number of units of `den` that hold `num`.
pub open spec fn ceiling(num: nat, den: nat) -> nat
    recommends
        den > 0,
{
    if num % den == 0 {
        num / den
    } else {
        num / den + 1
    }
}

/// `ceiling(num, den)` units hold `num`, and one unit fewer does not.
pub proof fn lemma_ceiling_is_least(num: nat, den: nat)
    requires
        den > 0,
    ensures
        ceiling(num, den) * den >= num,
        num > 0 ==> (ceiling(num, den) - 1) * den < num,
        num == 0 ==> ceiling(num, den) == 0,
{
    assert(num == den * (num / den) + num % den && 0 <= num % den < den) by (nonlinear_arith)
        requires
            den > 0,
    ;
    let q = num / den;
    assert(q * den == den * q) by (nonlinear_arith);
    assert((q + 1) * den == den * q + den) by (nonlinear_arith);
    assert((q - 1) * den == den * q - den) by (nonlinear_arith);
}

/// The number of blocks that a payload of `payload_size` bytes takes.
pub open spec fn blocks_for(payload_size: u64) -> nat {
    ceiling(payload_size as nat, BLK_SIZE as nat)
}

/// `num / den`, rounded up; nothing where `den` is zero.
pub fn ceiling_div(num: u64, den: u64) -> (quotient: Option<u64>)
    ensures
        quotient is None <==> den == 0,
        quotient matches Some(q) ==> q == ceiling(num as nat, den as nat),
{
    if den == 0 {
        return None;
    }
    let q: u64 = num / den;
    if num % den == 0 {
        Some(q)
    } else {
        assert(q < u64::MAX) by (nonlinear_arith)
            requires
                q == num / den,
                num % den != 0,
                den > 0,
                num <= u64::MAX,
        ;
        Some(q + 1)
    }
}

/// The number of blocks from `index` to the end of a sequence of `len`.
pub open spec fn blocks_left(len: nat, index: nat) -> nat {
    if index < len {
        (len - index) as nat
    } else {
        0
    }
}

/// The outcome of the scan that starts at the block `index`: the headers are
/// read one after the other, a foreign entry is passed over together with
/// its payload blocks, and the first header that is free or owned ends the
/// scan. Past the last block the image is full.
pub open spec fn scan(image: Seq<Seq<u8>>, index: nat) -> Result<PvmfwEntry, Error>
    recommends
        image.len() <= usize::MAX,
    decreases blocks_left(image.len(), index),
{
    if index >= image.len() {
        Err(Error::InstanceImageFull)
    } else {
        match classify(decode_entry_header(image[index as int])) {
            Slot::Free => Ok(PvmfwEntry::New { header_index: index as usize }),
            Slot::Owned { payload_size } => Ok(
                PvmfwEntry::Existing { header_index: index as usize, payload_size },
            ),
            Slot::Foreign { payload_size } => scan(image, index + 1 + blocks_for(payload_size)),
        }
    }
}

/// Where the owned record of `image` is or can be put: the header in block 0
/// is checked, then the entries are scanned from block 1.
pub open spec fn locate(image: Seq<Seq<u8>>) -> Result<PvmfwEntry, Error>
    recommends
        image.len() <= usize::MAX,
{
    if image.len() == 0 {
        Err(Error::MissingInstanceImageHeader)
    } else if !header_valid(image[0]) {
        Err(Error::InvalidInstanceImageHeader)
    } else {
        scan(image, 1)
    }
}

/// A scan that starts at `index` ends in full, or at a free or owned header
/// at or after `index`.
pub proof fn lemma_scan_result(image: Seq<Seq<u8>>, index: nat)
    requires
        image.len() <= usize::MAX,
    ensures
        match scan(image, index) {
            Ok(PvmfwEntry::New { header_index }) => {
                &&& index <= header_index < image.len()
                &&& classify(decode_entry_header(image[header_index as int])) == Slot::Free
            },
            Ok(PvmfwEntry::Existing { header_index, payload_size }) => {
                &&& index <= header_index < image.len()
                &&& classify(decode_entry_header(image[header_index as int])) == (Slot::Owned {
                    payload_size,
                })
            },
            Err(e) => e == Error::InstanceImageFull,
        },
    decreases blocks_left(image.len(), index),
{
    if index < image.len() {
        match classify(decode_entry_header(image[index as int])) {
            Slot::Foreign { payload_size } => {
                let next: nat = index + 1 + blocks_for(payload_size);
                lemma_scan_result(image, next);
            },
            _ => {},
        }
    }
}

/// A scan fails only by finding the image full.
pub proof fn lemma_scan_fails_only_full(image: Seq<Seq<u8>>, index: nat)
    ensures
        scan(image, index) matches Err(e) ==> e == Error::InstanceImageFull,
    decreases blocks_left(image.len(), index),
{
    if index < image.len() {
        match classify(decode_entry_header(image[index as int])) {
            Slot::Foreign { payload_size } => {
                lemma_scan_fails_only_full(image, index + 1 + blocks_for(payload_size));
            },
            _ => {},
        }
    }
}

/// The slot that is found is a block of the image after block 0, and its
/// header says what was found of it.
pub proof fn lemma_located_slot(image: Seq<Seq<u8>>)
    requires
        image.len() <= usize::MAX,
    ensures
        match locate(image) {
            Ok(PvmfwEntry::New { header_index }) => {
                &&& 1 <= header_index < image.len()
                &&& classify(decode_entry_header(image[header_index as int])) == Slot::Free
            },
            Ok(PvmfwEntry::Existing { header_index, payload_size }) => {
                &&& 1 <= header_index < image.len()
                &&& classify(decode_entry_header(image[header_index as int])) == (Slot::Owned {
                    payload_size,
                })
            },
            Err(e) => e == Error::MissingInstanceImageHeader || e
                == Error::InvalidInstanceImageHeader || e == Error::InstanceImageFull,
        },
{
    lemma_scan_result(image, 1);
}

/// The scan passes over a foreign entry and the blocks of its payload: as
/// many as it takes to hold the declared size.
pub proof fn lemma_scan_skips_foreign(image: Seq<Seq<u8>>, index: nat)
    requires
        index < image.len(),
        classify(decode_entry_header(image[index as int])) is Foreign,
    ensures
        scan(image, index) == scan(
            image,
            index + 1 + blocks_for(decode_entry_header(image[index as int]).payload_size),
        ),
{
}

/// An image with a valid header whose block 1 opens with sixteen zero bytes
/// has its first free slot at block 1.
pub proof fn lemma_fresh_image(image: Seq<Seq<u8>>)
    requires
        image.len() >= 2,
        header_valid(image[0]),
        image[1].len() >= 16,
        forall|i: int| 0 <= i < 16 ==> image[1][i] == 0,
    ensures
        locate(image) == Ok::<PvmfwEntry, Error>(PvmfwEntry::New { header_index: 1 }),
{
    lemma_le_value_zero(image[1].subrange(0, 16));
    lemma_swap_bytes_zero(0);
}

/// A scan over foreign entries alone finds the image full.
pub proof fn lemma_scan_all_foreign(image: Seq<Seq<u8>>, index: nat)
    requires
        forall|i: int|
            index <= i < image.len() ==> classify(
                decode_entry_header(#[trigger] image[i]),
            ) is Foreign,
    ensures
        scan(image, index) == Err::<PvmfwEntry, Error>(Error::InstanceImageFull),
    decreases blocks_left(image.len(), index),
{
    if index < image.len() {
        let size = decode_entry_header(image[index as int]).payload_size;
        let next: nat = index + 1 + blocks_for(size);
        lemma_scan_all_foreign(image, next);
    }
}

/// An image with a valid header whose every other block opens a foreign
/// entry is full.
pub proof fn lemma_all_foreign_is_full(image: Seq<Seq<u8>>)
    requires
        image.len() >= 1,
        header_valid(image[0]),
        forall|i: int|
            1 <= i < image.len() ==> classify(decode_entry_header(#[trigger] image[i])) is Foreign,
    ensures
        locate(image) == Err::<PvmfwEntry, Error>(Error::InstanceImageFull),
{
    lemma_scan_all_foreign(image, 1);
}

/// An image whose block 0 is no valid header is refused, whatever follows.
pub proof fn lemma_invalid_header_is_refused(image: Seq<Seq<u8>>)
    requires
        image.len() >= 1,
        !header_valid(image[0]),
    ensures
        locate(image) == Err::<PvmfwEntry, Error>(Error::InvalidInstanceImageHeader),
{
}

/// Two images that agree before the block at which the scan of the first
/// ends are scanned alike up to that block.
pub proof fn lemma_scan_reaches(a: Seq<Seq<u8>>, b: Seq<Seq<u8>>, index: nat)
    requires
        a.len() == b.len(),
        a.len() <= usize::MAX,
        scan(a, index) matches Ok(entry) && forall|i: int|
            0 <= i < entry.spec_header_index() ==> a[i] == b[i],
    ensures
        scan(a, index) matches Ok(entry) && scan(b, index) == scan(
            b,
            entry.spec_header_index() as nat,
        ),
    decreases blocks_left(a.len(), index),
{
    lemma_scan_result(a, index);
    if index < a.len() {
        match classify(decode_entry_header(a[index as int])) {
            Slot::Foreign { payload_size } => {
                let next: nat = index + 1 + blocks_for(payload_size);
                lemma_scan_result(a, next);
                lemma_scan_reaches(a, b, next);
            },
            _ => {},
        }
    }
}

/// The scan reads no block after the one at which it ends: two images that
/// agree up to that block are scanned alike.
pub proof fn lemma_scan_reads_prefix(a: Seq<Seq<u8>>, b: Seq<Seq<u8>>, index: nat)
    requires
        a.len() == b.len(),
        a.len() <= usize::MAX,
        scan(a, index) matches Ok(entry) && forall|i: int|
            0 <= i <= entry.spec_header_index() ==> a[i] == b[i],
    ensures
        scan(b, index) == scan(a, index),
    decreases blocks_left(a.len(), index),
{
    lemma_scan_result(a, index);
    if index < a.len() {
        match classify(decode_entry_header(a[index as int])) {
            Slot::Foreign { payload_size } => {
                let next: nat = index + 1 + blocks_for(payload_size);
                lemma_scan_result(a, next);
                lemma_scan_reads_prefix(a, b, next);
            },
            _ => {},
        }
    }
}

/// What the block that a scan asks for is read as.
#[derive(Clone, Copy, Debug, PartialEq, Eq, Structural)]
pub enum Stage {
    /// As the header of the image.
    ImageHeader,
    /// As the header of an entry.
    EntryHeader,
}

/// A scan that waits for one block: the block `index` is to be read as
/// `stage` says, and `indices` are those that follow it.
#[derive(Clone, Copy, Debug, PartialEq, Eq, Structural)]
pub struct Scan {
    pub stage: Stage,
    pub index: usize,
    pub indices: Indices,
}

/// How a scan goes on.
#[derive(Clone, Copy, Debug, PartialEq, Eq)]
pub enum ScanStep {
    /// The block `index` of this scan is to be read and handed to it.
    Read(Scan),
    /// The scan has ended.
    Done(Result<PvmfwEntry, Error>),
}

/// The step that asks for the entry header at the next of `indices`; where
/// none is left, the image is full.
pub open spec fn ask(indices: Indices) -> ScanStep {
    if indices.next < indices.end {
        ScanStep::Read(
            Scan {
                stage: Stage::EntryHeader,
                index: indices.next,
                indices: Indices { next: (indices.next + 1) as usize, end: indices.end },
            },
        )
    } else {
        ScanStep::Done(Err(Error::InstanceImageFull))
    }
}

/// How the scan of a partition of `block_count` blocks begins: with the
/// header of the image in block 0, where there is one.
pub open spec fn scan_begin(block_count: usize) -> ScanStep {
    if block_count == 0 {
        ScanStep::Done(Err(Error::MissingInstanceImageHeader))
    } else {
        ScanStep::Read(
            Scan {
                stage: Stage::ImageHeader,
                index: 0,
                indices: Indices { next: 1, end: block_count },
            },
        )
    }
}

/// How a scan goes on once the block that it asked for was read. A valid
/// image header is followed by the first entry header. A free or owned
/// entry header ends the scan; after a foreign one the blocks of its
/// payload are passed over and the next entry header is asked for.
pub open spec fn scan_step(scan: Scan, block: Seq<u8>) -> ScanStep {
    match scan.stage {
        Stage::ImageHeader => if header_valid(block) {
            ask(scan.indices)
        } else {
            ScanStep::Done(Err(Error::InvalidInstanceImageHeader))
        },
        Stage::EntryHeader => match classify(decode_entry_header(block)) {
            Slot::Free => ScanStep::Done(Ok(PvmfwEntry::New { header_index: scan.index })),
            Slot::Owned { payload_size } => ScanStep::Done(
                Ok(PvmfwEntry::Existing { header_index: scan.index, payload_size }),
            ),
            Slot::Foreign { payload_size } => ask(
                scan.indices.advanced(blocks_for(payload_size) as u64),
            ),
        },
    }
}

/// How many more blocks a scan can ask for, at most.
pub open spec fn steps_left(step: ScanStep) -> nat {
    match step {
        ScanStep::Read(scan) => scan.indices.left() + 1,
        ScanStep::Done(_) => 0,
    }
}

/// Every step brings a scan nearer to its end.
pub proof fn lemma_scan_step_decreases(scan: Scan, block: Seq<u8>)
    ensures
        steps_left(scan_step(scan, block)) < steps_left(ScanStep::Read(scan)),
{
}

/// What a scan ends in when each block that it asks for is read from
/// `image`. A block that the image does not have is an I/O failure.
pub open spec fn scan_run(image: Seq<Seq<u8>>, step: ScanStep) -> Result<PvmfwEntry, Error>
    decreases steps_left(step),
{
    match step {
        ScanStep::Done(result) => result,
        ScanStep::Read(scan) => if scan.index < image.len() {
            scan_run(image, scan_step(scan, image[scan.index as int]))
        } else {
            Err(Error::FailedIo(scan.index))
        },
    }
}

/// A scan that asks for the entry headers from `indices` on ends as the
/// scan of the image from there does.
pub proof fn lemma_scan_run_entries(image: Seq<Seq<u8>>, indices: Indices)
    requires
        indices.end == image.len(),
    ensures
        scan_run(image, ask(indices)) == scan(image, indices.next as nat),
    decreases indices.left(),
{
    if indices.next < indices.end {
        let index = indices.next;
        let after = Indices { next: (index + 1) as usize, end: indices.end };
        let asked = Scan { stage: Stage::EntryHeader, index, indices: after };
        assert(ask(indices) == ScanStep::Read(asked));
        match classify(decode_entry_header(image[index as int])) {
            Slot::Foreign { payload_size } => {
                let count = blocks_for(payload_size);
                lemma_ceiling_is_least(payload_size as nat, BLK_SIZE as nat);
                assert(count <= u64::MAX);
                let passed = after.advanced(count as u64);
                lemma_scan_run_entries(image, passed);
                if index + 1 + count > indices.end {
                    assert(scan(image, (index + 1 + count) as nat) == Err::<PvmfwEntry, Error>(
                        Error::InstanceImageFull,
                    ));
                    assert(scan(image, passed.next as nat) == Err::<PvmfwEntry, Error>(
                        Error::InstanceImageFull,
                    ));
                }
            },
            _ => {},
        }
    }
}

/// The scan by steps finds what `locate` finds: the blocks that it asks
/// for, read from the image, lead it to the same slot or failure.
pub proof fn lemma_scan_run_locates(image: Seq<Seq<u8>>)
    requires
        image.len() <= usize::MAX,
    ensures
        scan_run(image, scan_begin(image.len() as usize)) == locate(image),
{
    if image.len() > 0 {
        let indices = Indices { next: 1, end: image.len() as usize };
        let first = Scan { stage: Stage::ImageHeader, index: 0, indices };
        lemma_scan_run_entries(image, indices);
        assert(scan_begin(image.len() as usize) == ScanStep::Read(first));
        assert(scan_run(image, ScanStep::Read(first)) == scan_run(
            image,
            scan_step(first, image[0]),
        ));
        if !header_valid(image[0]) {
            assert(scan_run(image, scan_step(first, image[0])) == Err::<PvmfwEntry, Error>(
                Error::InvalidInstanceImageHeader,
            ));
        }
    } else {
        assert(scan_run(image, scan_begin(0)) == Err::<PvmfwEntry, Error>(
            Error::MissingInstanceImageHeader,
        ));
    }
}

/// Asks for the entry header at the next index.
fn ask_next(indices: Indices) -> (step: ScanStep)
    ensures
        step == ask(indices),
{
    let mut indices = indices;
    match indices.next() {
        Some(index) => ScanStep::Read(Scan { stage: Stage::EntryHeader, index, indices }),
        None => ScanStep::Done(Err(Error::InstanceImageFull)),
    }
}

impl Scan {
    /// Begins the scan of a partition of `block_count` blocks.
    pub fn start(block_count: usize) -> (step: ScanStep)
        ensures
            step == scan_begin(block_count),
    {
        if block_count == 0 {
            ScanStep::Done(Err(Error::MissingInstanceImageHeader))
        } else {
            ScanStep::Read(
                Scan {
                    stage: Stage::ImageHeader,
                    index: 0,
                    indices: Indices { next: 1, end: block_count },
                },
            )
        }
    }

    /// Goes on with the block that the scan asked for.
    pub fn next(&self, block: &Block) -> (step: ScanStep)
        ensures
            step == scan_step(*self, block@),
    {
        match self.stage {
            Stage::ImageHeader => {
                // The header of the image is only there to be recognised.
                let Some(header) = Header::read_from_prefix(block) else {
                    return ScanStep::Done(Err(Error::InvalidInstanceImageHeader));
                };
                if header.is_valid() {
                    ask_next(self.indices)
                } else {
                    ScanStep::Done(Err(Error::InvalidInstanceImageHeader))
                }
            },
            Stage::EntryHeader => {
                let Some(entry_header) = EntryHeader::read_from_prefix(block) else {
                    return ScanStep::Done(Err(Error::FailedIo(self.index)));
                };
                match entry_header.slot() {
                    Slot::Free => ScanStep::Done(Ok(PvmfwEntry::New { header_index: self.index })),
                    Slot::Owned { payload_size } => ScanStep::Done(
                        Ok(PvmfwEntry::Existing { header_index: self.index, payload_size }),
                    ),
                    Slot::Foreign { payload_size } => {
                        let Some(skip) = ceiling_div(payload_size, BLK_SIZE as u64) else {
                            return ScanStep::Done(Err(Error::InstanceImageFull));
                        };
                        let mut indices = self.indices;
                        indices.advance_by(skip);
                        ask_next(indices)
                    },
                }
            },
        }
    }
}

/// Finds the owned record of the partition, or the slot where it can be
/// put, by reading the blocks that the scan asks for.
pub fn locate_entry(partition: &Partition) -> (entry: Result<PvmfwEntry, Error>)
    ensures
        entry == locate(partition@),
{
    let mut step = Scan::start(partition.len());
    proof {
        lemma_scan_run_locates(partition@);
    }
    loop
        invariant
            scan_run(partition@, step) == locate(partition@),
        decreases steps_left(step),
    {
        match step {
            ScanStep::Done(entry) => {
                return entry;
            },
            ScanStep::Read(scan) => {
                let Some(block) = partition.read_block(scan.index) else {
                    return Err(Error::FailedIo(scan.index));
                };
                proof {
                    lemma_scan_step_decreases(scan, block@);
                }
                step = scan.next(&block);
            },
        }
    }
}

} // verus!
