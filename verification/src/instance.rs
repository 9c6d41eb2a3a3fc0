//! Reading and writing the owned record of an instance image.

use crate::bytes::{lemma_zero_padded_prefix, padded, zero_padded};
use crate::cipher::{aead_ctx_from_secret, context_key, opened, MAX_OVERHEAD};
use crate::codec::{
    decode_entry_header, encode_entry_header, lemma_decode_encode_entry_header, EntryHeader,
};
use crate::error::Error;
use crate::codec::header_valid;
use crate::locator::{
    classify, lemma_located_slot, lemma_scan_fails_only_full, lemma_scan_reaches,
    lemma_scan_reads_prefix, lemma_scan_result, locate, locate_entry, scan, PvmfwEntry, Slot,
    PVMFW_UUID,
};
use crate::partition::{is_image, Block, Partition, BLK_SIZE};
use crate::record::{
    decode_body, encode_body, lemma_decode_encode_body, EntryBody, EntryBodyView, ENTRY_BODY_SIZE,
};
use crate::tag::{lemma_swap_bytes_involutive, swap_bytes};
use vstd::prelude::*;
use vstd::slice::{slice_subrange, slice_to_vec};

verus! {

/// Number of bytes of a sealed record body.
pub const SEALED_BODY_SIZE: usize = ENTRY_BODY_SIZE + MAX_OVERHEAD;

/// The header of the owned entry with `payload_size` bytes of payload.
pub open spec fn owned_header(payload_size: u64) -> EntryHeader {
    EntryHeader { uuid: swap_bytes(PVMFW_UUID), payload_size }
}

/// The block that holds the header of the owned entry: the encoded header,
/// then zero bytes.
pub open spec fn header_block(payload_size: u64) -> Seq<u8> {
    zero_padded(encode_entry_header(owned_header(payload_size)), BLK_SIZE as nat)
}

/// The block that holds a sealed payload: the payload, then zero bytes.
pub open spec fn payload_block(sealed: Seq<u8>) -> Seq<u8> {
    zero_padded(sealed, BLK_SIZE as nat)
}

/// The index of the block that holds the payload of the entry whose header
/// is in the block `header_index`: the next one. Where no index is left
/// after `header_index`, this is `header_index` itself.
pub open spec fn payload_index(header_index: usize) -> usize {
    if header_index < usize::MAX {
        (header_index + 1) as usize
    } else {
        header_index
    }
}

/// The writes that put the sealed text `sealed` down as the owned entry at
/// `header_index`, each with the index of its block, in the order in which
/// they are made: the payload block first, the header block after it, so
/// that the header changes only once the payload is in place.
pub open spec fn entry_writes(header_index: int, sealed: Seq<u8>) -> Seq<(int, Seq<u8>)> {
    seq![
        (header_index + 1, payload_block(sealed)),
        (header_index, header_block(sealed.len() as u64)),
    ]
}

/// The image after the first `count` of `writes` were made, one after the
/// other.
pub open spec fn applied(image: Seq<Seq<u8>>, writes: Seq<(int, Seq<u8>)>, count: nat) -> Seq<
    Seq<u8>,
>
    decreases count,
{
    if count == 0 || count > writes.len() {
        image
    } else {
        let (index, block) = writes[count - 1];
        applied(image, writes, (count - 1) as nat).update(index, block)
    }
}

/// The image after the sealed text `sealed` was written as the owned entry
/// at `header_index`: after both writes of `entry_writes` were made.
pub open spec fn written(image: Seq<Seq<u8>>, header_index: int, sealed: Seq<u8>) -> Seq<Seq<u8>> {
    applied(image, entry_writes(header_index, sealed), 2)
}

/// The image after a write was interrupted between its two block writes:
/// after the first write of `entry_writes` alone.
pub open spec fn half_written(image: Seq<Seq<u8>>, header_index: int, sealed: Seq<u8>) -> Seq<
    Seq<u8>,
> {
    applied(image, entry_writes(header_index, sealed), 1)
}

/// The two writes change the payload block, then the header block, and
/// nothing else.
pub proof fn lemma_written(image: Seq<Seq<u8>>, header_index: int, sealed: Seq<u8>)
    ensures
        half_written(image, header_index, sealed) == image.update(
            header_index + 1,
            payload_block(sealed),
        ),
        written(image, header_index, sealed) == image.update(
            header_index + 1,
            payload_block(sealed),
        ).update(header_index, header_block(sealed.len() as u64)),
{
    reveal_with_fuel(applied, 3);
}

/// One block write: the index of the block and what is written there.
#[derive(Clone, Copy, Debug, PartialEq, Eq)]
pub struct BlockWrite {
    pub index: usize,
    pub block: Block,
}

/// Two block writes in the order in which they are to be made.
pub open spec fn writes_of(writes: [BlockWrite; 2]) -> Seq<(int, Seq<u8>)> {
    seq![(writes[0].index as int, writes[0].block@), (writes[1].index as int, writes[1].block@)]
}

/// The sealed payload of the owned record of `image` and the index of its
/// header block, or nothing and the index of the first free block. An owned
/// entry of more than one block is refused, and one whose payload block is
/// missing is an I/O failure.
pub open spec fn sealed_entry(image: Seq<Seq<u8>>) -> Result<(Option<Seq<u8>>, usize), Error> {
    match locate(image) {
        Err(e) => Err(e),
        Ok(PvmfwEntry::New { header_index }) => Ok((None, header_index)),
        Ok(PvmfwEntry::Existing { header_index, payload_size }) => {
            if payload_size > BLK_SIZE {
                Err(Error::UnsupportedEntrySize(payload_size))
            } else if header_index + 1 >= image.len() {
                Err(Error::FailedIo(payload_index(header_index)))
            } else {
                Ok((Some(image[header_index + 1].subrange(0, payload_size as int)), header_index))
            }
        },
    }
}

/// The record that a sealed payload holds under the key `key`. A payload
/// that the key does not open is a cryptographic failure, and so is one
/// that opens to anything but the bytes of a record body.
pub open spec fn recorded_body(sealed: Seq<u8>, key: Seq<u8>) -> Result<EntryBodyView, Error> {
    match opened(key, sealed) {
        None => Err(Error::BoringSslFailed),
        Some(plaintext) => match decode_body(plaintext) {
            Some(body) => Ok(body),
            None => Err(Error::BoringSslFailed),
        },
    }
}

/// What reading the owned record of `image` with the key `key` gives: the
/// record and the index of its header block, or nothing and the index of
/// the first free block.
pub open spec fn recorded_entry(image: Seq<Seq<u8>>, key: Seq<u8>) -> Result<
    (Option<EntryBodyView>, usize),
    Error,
> {
    match sealed_entry(image) {
        Err(e) => Err(e),
        Ok((None, header_index)) => Ok((None, header_index)),
        Ok((Some(sealed), header_index)) => match recorded_body(sealed, key) {
            Ok(body) => Ok((Some(body), header_index)),
            Err(e) => Err(e),
        },
    }
}

/// Which block holds the payload of `entry` in a partition of `block_count`
/// blocks: none where the entry is new, the block after the header where it
/// exists. An entry of more than one block is refused, and one whose
/// payload block is missing is an I/O failure.
pub open spec fn payload_to_read(entry: PvmfwEntry, block_count: nat) -> Result<
    Option<usize>,
    Error,
> {
    match entry {
        PvmfwEntry::New { .. } => Ok(None),
        PvmfwEntry::Existing { header_index, payload_size } => {
            if payload_size > BLK_SIZE {
                Err(Error::UnsupportedEntrySize(payload_size))
            } else if header_index + 1 >= block_count {
                Err(Error::FailedIo(payload_index(header_index)))
            } else {
                Ok(Some((header_index + 1) as usize))
            }
        },
    }
}

/// The header block of the owned entry decodes to an owned slot of the
/// declared size.
pub proof fn lemma_header_block_is_owned(payload_size: u64)
    ensures
        header_block(payload_size).len() == BLK_SIZE,
        classify(decode_entry_header(header_block(payload_size))) == (Slot::Owned { payload_size }),
{
    let header = owned_header(payload_size);
    let encoded = encode_entry_header(header);
    let rest = Seq::new((BLK_SIZE - 24) as nat, |i: int| 0u8);
    lemma_decode_encode_entry_header(header, rest);
    assert(header_block(payload_size) =~= encoded + rest);
    lemma_swap_bytes_involutive(PVMFW_UUID);
}

/// A record that was written into the slot that the scan ends at is read
/// back: where `sealed` fits a block and opens under `key` to the bytes of
/// `body`, reading the written image with `key` gives `body` and the index
/// of the slot.
pub proof fn lemma_written_record_is_read_back(
    image: Seq<Seq<u8>>,
    header_index: usize,
    sealed: Seq<u8>,
    key: Seq<u8>,
    body: EntryBodyView,
)
    requires
        is_image(image),
        image.len() <= usize::MAX,
        locate(image) matches Ok(entry) && entry.spec_header_index() == header_index,
        header_index + 1 < image.len(),
        sealed.len() <= BLK_SIZE,
        opened(key, sealed) == Some(encode_body(body)),
        body.wf(),
    ensures
        recorded_entry(written(image, header_index as int, sealed), key) == Ok::<
            (Option<EntryBodyView>, usize),
            Error,
        >((Some(body), header_index)),
{
    let after = written(image, header_index as int, sealed);
    let size = sealed.len() as u64;
    lemma_written(image, header_index as int, sealed);
    lemma_scan_result(image, 1);
    lemma_header_block_is_owned(size);
    lemma_scan_reaches(image, after, 1);
    lemma_zero_padded_prefix(sealed, BLK_SIZE as nat);
    lemma_decode_encode_body(body);
    assert(after[header_index as int] == header_block(size));
    assert(after[header_index + 1] == payload_block(sealed));
    assert(scan(after, header_index as nat) == Ok::<PvmfwEntry, Error>(
        PvmfwEntry::Existing { header_index, payload_size: size },
    ));
}

/// A record comes back only of a payload that the key authenticates: what
/// is read is what the sealed payload opens to, decoded.
pub proof fn lemma_read_record_is_authenticated(image: Seq<Seq<u8>>, key: Seq<u8>)
    requires
        recorded_entry(image, key) matches Ok((Some(_), _)),
    ensures
        match (recorded_entry(image, key), sealed_entry(image)) {
            (Ok((Some(body), index)), Ok((Some(sealed), header_index))) => {
                &&& index == header_index
                &&& opened(key, sealed) matches Some(plaintext) && decode_body(plaintext) == Some(
                    body,
                )
            },
            _ => false,
        },
{
}

/// An owned entry that declares more than one block of payload is refused
/// for its size, whatever the key.
pub proof fn lemma_oversized_entry_is_refused(image: Seq<Seq<u8>>, key: Seq<u8>)
    requires
        locate(image) matches Ok(PvmfwEntry::Existing { payload_size, .. }) && payload_size
            > BLK_SIZE,
    ensures
        locate(image) matches Ok(PvmfwEntry::Existing { payload_size, .. }) && recorded_entry(
            image,
            key,
        ) == Err::<(Option<EntryBodyView>, usize), Error>(
            Error::UnsupportedEntrySize(payload_size),
        ),
{
}

/// An entry is refused for its size only where it declares more than one
/// block of payload, and then always, with the size that it declares.
pub proof fn lemma_size_is_refused_only_over_one_block(image: Seq<Seq<u8>>, key: Seq<u8>, size: u64)
    ensures
        recorded_entry(image, key) == Err::<(Option<EntryBodyView>, usize), Error>(
            Error::UnsupportedEntrySize(size),
        ) <==> (locate(image) matches Ok(PvmfwEntry::Existing { payload_size, .. })
            && payload_size == size && size > BLK_SIZE),
{
    if image.len() <= usize::MAX {
        lemma_located_slot(image);
    } else if image.len() > 0 && header_valid(image[0]) {
        lemma_scan_fails_only_full(image, 1);
    }
}

/// An owned entry of at most one block whose payload block is there is
/// read as the opening of its payload decides: the record comes back, or
/// the cryptographic failure. A payload that the key does not open gives
/// that failure and no record.
pub proof fn lemma_opening_decides(image: Seq<Seq<u8>>, key: Seq<u8>)
    requires
        locate(image) matches Ok(PvmfwEntry::Existing { header_index, payload_size })
            && payload_size <= BLK_SIZE && header_index + 1 < image.len(),
    ensures
        match (locate(image), recorded_entry(image, key)) {
            (Ok(PvmfwEntry::Existing { header_index, payload_size }), Ok((Some(body), index))) => {
                &&& index == header_index
                &&& opened(key, image[header_index + 1].subrange(0, payload_size as int))
                    matches Some(plaintext) && decode_body(plaintext) == Some(body)
            },
            (Ok(PvmfwEntry::Existing { header_index, payload_size }), Err(e)) => {
                &&& e == Error::BoringSslFailed
                &&& opened(key, image[header_index + 1].subrange(0, payload_size as int))
                    matches Some(plaintext) ==> decode_body(plaintext) is None
            },
            _ => false,
        },
{
}

/// The header is what commits a write: after the first of the two writes
/// alone, the image has the slot that it had, and an owned header that was
/// there is there still.
pub proof fn lemma_half_written_keeps_slot(image: Seq<Seq<u8>>, header_index: usize, sealed: Seq<u8>)
    requires
        image.len() <= usize::MAX,
        locate(image) matches Ok(entry) && entry.spec_header_index() == header_index,
        header_index + 1 < image.len(),
    ensures
        locate(half_written(image, header_index as int, sealed)) == locate(image),
        half_written(image, header_index as int, sealed)[header_index as int]
            == image[header_index as int],
{
    lemma_written(image, header_index as int, sealed);
    lemma_scan_result(image, 1);
    lemma_scan_reads_prefix(image, half_written(image, header_index as int, sealed), 1);
}

/// A write that stopped after the payload block leaves the slot where it
/// was, and writing there again gives a record that is read back: for any
/// block `garbage` that the interrupted write left behind at the payload's
/// index.
pub proof fn lemma_retry_after_interrupted_write(
    image: Seq<Seq<u8>>,
    header_index: usize,
    garbage: Seq<u8>,
    sealed: Seq<u8>,
    key: Seq<u8>,
    body: EntryBodyView,
)
    requires
        is_image(image),
        image.len() <= usize::MAX,
        locate(image) matches Ok(entry) && entry.spec_header_index() == header_index,
        header_index + 1 < image.len(),
        garbage.len() == BLK_SIZE,
        sealed.len() <= BLK_SIZE,
        opened(key, sealed) == Some(encode_body(body)),
        body.wf(),
    ensures
        locate(image.update(header_index + 1, garbage)) == locate(image),
        recorded_entry(
            written(image.update(header_index + 1, garbage), header_index as int, sealed),
            key,
        ) == Ok::<(Option<EntryBodyView>, usize), Error>((Some(body), header_index)),
{
    let interrupted = image.update(header_index + 1, garbage);
    lemma_scan_result(image, 1);
    lemma_scan_reads_prefix(image, interrupted, 1);
    assert(is_image(interrupted));
    lemma_written_record_is_read_back(interrupted, header_index, sealed, key, body);
}

/// The two block writes that put `sealed` down as the owned entry at
/// `header_index`, in the order in which they are to be made: the
/// zero-padded payload into the block after `header_index` first, the
/// zero-padded header into the block `header_index` after it. A text of
/// more than one block is refused, and so is a header in the last block
/// that an index can name.
pub fn sealed_entry_writes(header_index: usize, sealed: &[u8]) -> (writes: Result<
    [BlockWrite; 2],
    Error,
>)
    ensures
        match writes {
            Ok(w) => {
                &&& sealed@.len() <= BLK_SIZE
                &&& header_index < usize::MAX
                &&& writes_of(w) == entry_writes(header_index as int, sealed@)
            },
            Err(e) => if sealed@.len() > BLK_SIZE {
                e == Error::UnsupportedEntrySize(sealed@.len() as u64)
            } else {
                header_index == usize::MAX && e == Error::FailedIo(header_index)
            },
        },
{
    if sealed.len() > BLK_SIZE {
        return Err(Error::UnsupportedEntrySize(sealed.len() as u64));
    }
    if header_index == usize::MAX {
        return Err(Error::FailedIo(header_index));
    }
    let payload: Block = padded(sealed);
    let header = EntryHeader::new(PvmfwEntry::uuid(), sealed.len());
    let header_bytes = header.as_bytes();
    let header: Block = padded(header_bytes.as_slice());
    let writes = [
        BlockWrite { index: header_index + 1, block: payload },
        BlockWrite { index: header_index, block: header },
    ];
    assert(writes_of(writes) =~= entry_writes(header_index as int, sealed@));
    Ok(writes)
}

/// Seals `body` under the key that `secret` gives and makes the two block
/// writes that put it down as the owned entry at `header_index`, in the
/// order in which they are to be made. Whatever nonce the sealing drew,
/// the payload of the first write opens to the bytes of `body`.
pub fn instance_entry_writes(body: &EntryBody, secret: &[u8], header_index: usize) -> (writes:
    Result<[BlockWrite; 2], Error>)
    ensures
        match writes {
            Ok(w) => {
                let sealed = w[0].block@.subrange(0, SEALED_BODY_SIZE as int);
                &&& header_index < usize::MAX
                &&& writes_of(w) == entry_writes(header_index as int, sealed)
                &&& opened(context_key(secret@), sealed) == Some(encode_body(body@))
            },
            Err(e) => e == Error::BoringSslFailed || (header_index == usize::MAX && e
                == Error::FailedIo(header_index)),
        },
{
    // Only entries of a single block are written.
    let plaintext = body.as_bytes();
    let ctx = match aead_ctx_from_secret(secret) {
        Ok(ctx) => ctx,
        Err(e) => {
            return Err(e);
        },
    };
    let sealed = match ctx.seal(plaintext.as_slice()) {
        Ok(sealed) => sealed,
        Err(e) => {
            return Err(e);
        },
    };
    proof {
        lemma_zero_padded_prefix(sealed@, BLK_SIZE as nat);
    }
    sealed_entry_writes(header_index, sealed.as_slice())
}

/// Makes the two writes in their order. A block that the partition does
/// not have is an I/O failure.
fn write_in_order(partition: &mut Partition, writes: &[BlockWrite; 2]) -> (done: Result<(), Error>)
    requires
        writes[0].index == writes[1].index + 1,
    ensures
        match done {
            Ok(()) => {
                &&& writes[0].index < old(partition)@.len()
                &&& final(partition)@ == applied(old(partition)@, writes_of(*writes), 2)
            },
            Err(e) => {
                &&& final(partition)@ == old(partition)@
                &&& writes[0].index >= old(partition)@.len()
                &&& e == Error::FailedIo(writes[0].index)
            },
        },
{
    proof {
        reveal_with_fuel(applied, 3);
    }
    if !partition.write_block(writes[0].index, &writes[0].block) {
        return Err(Error::FailedIo(writes[0].index));
    }
    if !partition.write_block(writes[1].index, &writes[1].block) {
        return Err(Error::FailedIo(writes[1].index));
    }
    Ok(())
}

/// Writes `sealed` as the owned entry at `header_index`, by the two writes
/// of `sealed_entry_writes` in their order.
pub fn write_sealed_entry(partition: &mut Partition, header_index: usize, sealed: &[u8]) -> (done:
    Result<(), Error>)
    ensures
        match done {
            Ok(()) => {
                &&& sealed@.len() <= BLK_SIZE
                &&& header_index + 1 < old(partition)@.len()
                &&& final(partition)@ == written(old(partition)@, header_index as int, sealed@)
            },
            Err(e) => {
                &&& final(partition)@ == old(partition)@
                &&& if sealed@.len() > BLK_SIZE {
                    e == Error::UnsupportedEntrySize(sealed@.len() as u64)
                } else {
                    header_index + 1 >= old(partition)@.len() && e == Error::FailedIo(
                        payload_index(header_index),
                    )
                }
            },
        },
{
    let len = partition.len();
    let writes = match sealed_entry_writes(header_index, sealed) {
        Ok(writes) => writes,
        Err(e) => {
            return Err(e);
        },
    };
    write_in_order(partition, &writes)
}

/// Seals `body` under the key that `secret` gives and writes it as the
/// owned entry at `header_index`, by the two writes of
/// `instance_entry_writes` in their order. Whatever nonce the sealing drew,
/// the payload that was written opens to the bytes of `body`; and where
/// `header_index` is the slot that the scan of the partition ends at, the
/// record is read back from the written partition.
pub fn record_instance_entry(
    body: &EntryBody,
    secret: &[u8],
    partition: &mut Partition,
    header_index: usize,
) -> (done: Result<(), Error>)
    ensures
        header_index + 1 >= old(partition)@.len() ==> done is Err,
        match done {
            Ok(()) => {
                let sealed = final(partition)@[header_index + 1].subrange(
                    0,
                    SEALED_BODY_SIZE as int,
                );
                &&& header_index + 1 < old(partition)@.len()
                &&& final(partition)@ == written(old(partition)@, header_index as int, sealed)
                &&& opened(context_key(secret@), sealed) == Some(encode_body(body@))
                &&& (locate(old(partition)@) matches Ok(entry) && entry.spec_header_index()
                    == header_index) ==> recorded_entry(final(partition)@, context_key(secret@))
                    == Ok::<(Option<EntryBodyView>, usize), Error>((Some(body@), header_index))
            },
            Err(e) => {
                &&& final(partition)@ == old(partition)@
                &&& e == Error::BoringSslFailed || (header_index + 1 >= old(partition)@.len() && e
                    == Error::FailedIo(payload_index(header_index)))
            },
        },
{
    let len = partition.len();
    let writes = match instance_entry_writes(body, secret, header_index) {
        Ok(writes) => writes,
        Err(e) => {
            return Err(e);
        },
    };
    let ghost sealed = writes[0].block@.subrange(0, SEALED_BODY_SIZE as int);
    let done = write_in_order(partition, &writes);
    proof {
        if done is Ok {
            lemma_written(old(partition)@, header_index as int, sealed);
            old(partition).lemma_view_is_image();
            if locate(old(partition)@) matches Ok(entry) && entry.spec_header_index()
                == header_index {
                lemma_written_record_is_read_back(
                    old(partition)@,
                    header_index,
                    sealed,
                    context_key(secret@),
                    body@,
                );
            }
        }
    }
    done
}

/// Says which block holds the payload of `entry` in a partition of
/// `block_count` blocks, if the entry has one.
pub fn payload_block_index(entry: &PvmfwEntry, block_count: usize) -> (index: Result<
    Option<usize>,
    Error,
>)
    ensures
        index == payload_to_read(*entry, block_count as nat),
{
    match *entry {
        PvmfwEntry::New { .. } => Ok(None),
        PvmfwEntry::Existing { header_index, payload_size } => {
            // Only entries of a single block are supported.
            if payload_size > BLK_SIZE as u64 {
                return Err(Error::UnsupportedEntrySize(payload_size));
            }
            if header_index >= block_count || header_index + 1 >= block_count {
                return Err(Error::FailedIo(if header_index < usize::MAX {
                    header_index + 1
                } else {
                    header_index
                }));
            }
            Ok(Some(header_index + 1))
        },
    }
}

/// Opens the first `payload_size` bytes of a payload block with the key
/// that `secret` gives, and decodes the record that they hold. A record
/// comes back only of a payload that the key authenticates and that opens
/// to the bytes of a record body. A size of more than one block is
/// refused.
pub fn open_payload(block: &Block, payload_size: u64, secret: &[u8]) -> (body: Result<
    EntryBody,
    Error,
>)
    ensures
        if payload_size > BLK_SIZE {
            body matches Err(e) && e == Error::UnsupportedEntrySize(payload_size)
        } else {
            match recorded_body(
                block@.subrange(0, payload_size as int),
                context_key(secret@),
            ) {
                Ok(recorded) => body matches Ok(found) && found@ == recorded,
                Err(e) => body matches Err(failure) && failure == e,
            }
        },
{
    if payload_size > BLK_SIZE as u64 {
        return Err(Error::UnsupportedEntrySize(payload_size));
    }
    let ctx = match aead_ctx_from_secret(secret) {
        Ok(ctx) => ctx,
        Err(e) => {
            return Err(e);
        },
    };
    // The nonce is part of the sealed text, so none is handed over.
    let plaintext = match ctx.open(slice_subrange(block, 0, payload_size as usize)) {
        Ok(plaintext) => plaintext,
        Err(e) => {
            return Err(e);
        },
    };
    match EntryBody::read_from(plaintext.as_slice()) {
        Some(body) => Ok(body),
        None => Err(Error::BoringSslFailed),
    }
}

/// Reads the sealed payload of the owned record of the partition. Where
/// there is none, the index of the first free block comes back with
/// nothing.
pub fn read_sealed_entry(partition: &Partition) -> (entry: Result<(Option<Vec<u8>>, usize), Error>)
    ensures
        match sealed_entry(partition@) {
            Ok((Some(sealed), index)) => entry matches Ok((Some(payload), header_index))
                && payload@ == sealed && header_index == index,
            Ok((None, index)) => entry matches Ok((None, header_index)) && header_index == index,
            Err(e) => entry matches Err(failure) && failure == e,
        },
{
    let located = match locate_entry(partition) {
        Ok(located) => located,
        Err(e) => {
            return Err(e);
        },
    };
    let index = match payload_block_index(&located, partition.len()) {
        Ok(index) => index,
        Err(e) => {
            return Err(e);
        },
    };
    match (located, index) {
        (PvmfwEntry::Existing { header_index, payload_size }, Some(index)) => {
            let Some(block) = partition.read_block(index) else {
                return Err(Error::FailedIo(index));
            };
            let payload = slice_to_vec(slice_subrange(&block, 0, payload_size as usize));
            Ok((Some(payload), header_index))
        },
        _ => Ok((None, located.header_index())),
    }
}

/// Reads the owned record of the partition with the key that `secret`
/// gives. Where there is none, the index of the first free block comes back
/// with nothing. A record comes back only of a payload that the key
/// authenticates.
pub fn get_recorded_entry(partition: &Partition, secret: &[u8]) -> (entry: Result<
    (Option<EntryBody>, usize),
    Error,
>)
    ensures
        match recorded_entry(partition@, context_key(secret@)) {
            Ok((Some(recorded), index)) => entry matches Ok((Some(body), header_index)) && body@
                == recorded && header_index == index,
            Ok((None, index)) => entry matches Ok((None, header_index)) && header_index == index,
            Err(e) => entry matches Err(failure) && failure == e,
        },
{
    let located = match locate_entry(partition) {
        Ok(located) => located,
        Err(e) => {
            return Err(e);
        },
    };
    let index = match payload_block_index(&located, partition.len()) {
        Ok(index) => index,
        Err(e) => {
            return Err(e);
        },
    };
    match (located, index) {
        (PvmfwEntry::Existing { header_index, payload_size }, Some(index)) => {
            let Some(block) = partition.read_block(index) else {
                return Err(Error::FailedIo(index));
            };
            match open_payload(&block, payload_size, secret) {
                Ok(body) => Ok((Some(body), header_index)),
                Err(e) => Err(e),
            }
        },
        _ => Ok((None, located.header_index())),
    }
}

} // verus!
