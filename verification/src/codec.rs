//! The fixed layouts of the store: image header, entry header, record body.

use crate::endian::{
    le_bytes, le_value, lemma_le_bytes_len, lemma_le_bytes_of_le_value, lemma_le_value_bound,
    lemma_le_value_of_le_bytes, lemma_pow256_widths, read_le, write_le,
};
use crate::bytes::append;
use crate::tag::{lemma_swap_bytes_involutive, swap_bytes, Uuid};
use vstd::prelude::*;

verus! {

/// Number of bytes of the magic constant that opens an image.
pub const MAGIC_SIZE: usize = 19;

/// Number of bytes of an encoded image header.
pub const HEADER_SIZE: usize = 21;

/// The only format version that is understood.
pub const VERSION_1: u16 = 1;

/// The magic constant: the ASCII text `Android-VM-instance`.
pub open spec fn magic() -> Seq<u8> {
    seq![
        0x41u8, 0x6e, 0x64, 0x72, 0x6f, 0x69, 0x64, 0x2d, 0x56, 0x4d, 0x2d, 0x69, 0x6e, 0x73, 0x74,
        0x61, 0x6e, 0x63, 0x65,
    ]
}

/// Whether a block opens with a well-formed image header: the magic constant
/// followed by version 1 as a little-endian `u16`.
pub open spec fn header_valid(block: Seq<u8>) -> bool {
    &&& block.len() >= HEADER_SIZE
    &&& block.subrange(0, MAGIC_SIZE as int) == magic()
    &&& le_value(block.subrange(MAGIC_SIZE as int, HEADER_SIZE as int)) == VERSION_1
}

/// The header of an image, as decoded from its first block.
pub struct Header {
    pub magic: [u8; MAGIC_SIZE],
    pub version: u16,
}

impl Header {
    /// What `is_valid` decides.
    pub open spec fn spec_is_valid(&self) -> bool {
        self.magic@ == magic() && self.version == VERSION_1
    }

    /// Decodes the header that `bytes` opens with, if `bytes` is long enough.
    pub fn read_from_prefix(bytes: &[u8]) -> (header: Option<Header>)
        ensures
            header is Some <==> bytes@.len() >= HEADER_SIZE,
            header matches Some(h) ==> {
                &&& h.magic@ == bytes@.subrange(0, MAGIC_SIZE as int)
                &&& h.version == le_value(bytes@.subrange(MAGIC_SIZE as int, HEADER_SIZE as int))
                &&& h.spec_is_valid() == header_valid(bytes@)
            },
    {
        if bytes.len() < HEADER_SIZE {
            return None;
        }
        let mut magic: [u8; MAGIC_SIZE] = [0u8; MAGIC_SIZE];
        let mut i: usize = 0;
        while i < MAGIC_SIZE
            invariant
                i <= MAGIC_SIZE,
                bytes@.len() >= HEADER_SIZE,
                forall|j: int| 0 <= j < i ==> magic@[j] == bytes@[j],
            decreases MAGIC_SIZE - i,
        {
            magic[i] = bytes[i];
            i = i + 1;
        }
        assert(magic@ =~= bytes@.subrange(0, MAGIC_SIZE as int));
        let raw: u128 = read_le(bytes, MAGIC_SIZE, 2);
        proof {
            lemma_le_value_bound(bytes@.subrange(MAGIC_SIZE as int, HEADER_SIZE as int));
            lemma_pow256_widths();
        }
        Some(Header { magic, version: raw as u16 })
    }

    /// Whether the header carries the magic constant and version 1.
    pub fn is_valid(&self) -> (valid: bool)
        ensures
            valid == self.spec_is_valid(),
    {
        let expected: [u8; MAGIC_SIZE] = [
            0x41, 0x6e, 0x64, 0x72, 0x6f, 0x69, 0x64, 0x2d, 0x56, 0x4d, 0x2d, 0x69, 0x6e, 0x73,
            0x74, 0x61, 0x6e, 0x63, 0x65,
        ];
        assert(expected@ =~= magic());
        let mut i: usize = 0;
        while i < MAGIC_SIZE
            invariant
                i <= MAGIC_SIZE,
                expected@ == magic(),
                forall|j: int| 0 <= j < i ==> self.magic@[j] == expected@[j],
            decreases MAGIC_SIZE - i,
        {
            if self.magic[i] != expected[i] {
                return false;
            }
            i = i + 1;
        }
        assert(self.magic@ =~= magic());
        self.version() == VERSION_1
    }

    /// The format version that the header declares.
    pub fn version(&self) -> (version: u16)
        ensures
            version == self.version,
    {
        self.version
    }
}

/// A header with a byte of the magic constant changed is invalid.
pub proof fn lemma_changed_magic_is_invalid(block: Seq<u8>, at: int, byte: u8)
    requires
        header_valid(block),
        0 <= at < MAGIC_SIZE,
        byte != block[at],
    ensures
        !header_valid(block.update(at, byte)),
{
    let changed = block.update(at, byte);
    assert(block.subrange(0, MAGIC_SIZE as int)[at] == block[at]);
    assert(changed.subrange(0, MAGIC_SIZE as int)[at] == byte);
}

/// A block whose version field holds anything but 1 is invalid, whatever
/// stands before and after it.
pub proof fn lemma_other_version_is_invalid(block: Seq<u8>)
    requires
        block.len() >= HEADER_SIZE,
        le_value(block.subrange(MAGIC_SIZE as int, HEADER_SIZE as int)) != 1,
    ensures
        !header_valid(block),
{
}

/// Number of bytes of an encoded entry header.
pub const ENTRY_HEADER_SIZE: usize = 24;

/// What marks the start of an entry: the tag of the entry, as the number
/// that its sixteen bytes denote least significant byte first, and the number
/// of payload bytes that follow the header's block.
#[derive(Clone, Copy, Debug, PartialEq, Eq, Structural)]
pub struct EntryHeader {
    pub uuid: u128,
    pub payload_size: u64,
}

/// The bytes of an entry header: the tag in sixteen bytes, then the payload
/// size in eight, both least significant byte first.
pub open spec fn encode_entry_header(header: EntryHeader) -> Seq<u8> {
    le_bytes(header.uuid as nat, 16) + le_bytes(header.payload_size as nat, 8)
}

/// The entry header that `bytes` open with.
pub open spec fn decode_entry_header(bytes: Seq<u8>) -> EntryHeader {
    EntryHeader {
        uuid: le_value(bytes.subrange(0, 16)) as u128,
        payload_size: le_value(bytes.subrange(16, 24)) as u64,
    }
}

/// An encoded entry header is read back unchanged, whatever follows it.
pub proof fn lemma_decode_encode_entry_header(header: EntryHeader, rest: Seq<u8>)
    ensures
        encode_entry_header(header).len() == ENTRY_HEADER_SIZE,
        decode_entry_header(encode_entry_header(header) + rest) == header,
{
    let tag = le_bytes(header.uuid as nat, 16);
    let size = le_bytes(header.payload_size as nat, 8);
    let bytes = encode_entry_header(header) + rest;
    lemma_le_bytes_len(header.uuid as nat, 16);
    lemma_le_bytes_len(header.payload_size as nat, 8);
    lemma_pow256_widths();
    lemma_le_value_of_le_bytes(header.uuid as nat, 16);
    lemma_le_value_of_le_bytes(header.payload_size as nat, 8);
    assert(bytes.subrange(0, 16) =~= tag);
    assert(bytes.subrange(16, 24) =~= size);
}

/// The first `ENTRY_HEADER_SIZE` bytes are what encoding the decoded header
/// gives.
pub proof fn lemma_encode_decode_entry_header(bytes: Seq<u8>)
    requires
        bytes.len() >= ENTRY_HEADER_SIZE,
    ensures
        encode_entry_header(decode_entry_header(bytes)) == bytes.subrange(
            0,
            ENTRY_HEADER_SIZE as int,
        ),
{
    let tag = bytes.subrange(0, 16);
    let size = bytes.subrange(16, 24);
    lemma_pow256_widths();
    lemma_le_value_bound(tag);
    lemma_le_value_bound(size);
    lemma_le_bytes_of_le_value(tag);
    lemma_le_bytes_of_le_value(size);
    assert(tag + size =~= bytes.subrange(0, ENTRY_HEADER_SIZE as int));
}

impl EntryHeader {
    /// The tag as an identifier.
    pub open spec fn spec_uuid(&self) -> Uuid {
        Uuid { bits: swap_bytes(self.uuid) }
    }

    /// The header of an entry with tag `uuid` and `payload_size` bytes of
    /// payload.
    pub fn new(uuid: Uuid, payload_size: usize) -> (header: EntryHeader)
        ensures
            header.uuid == swap_bytes(uuid.bits),
            header.payload_size == payload_size,
            header.spec_uuid() == uuid,
    {
        proof {
            lemma_swap_bytes_involutive(uuid.bits);
        }
        EntryHeader { uuid: uuid.to_u128_le(), payload_size: payload_size as u64 }
    }

    /// The tag as an identifier.
    pub fn uuid(&self) -> (uuid: Uuid)
        ensures
            uuid == self.spec_uuid(),
    {
        Uuid::from_u128_le(self.uuid)
    }

    /// The number of payload bytes that the header declares.
    pub fn payload_size(&self) -> (size: u64)
        ensures
            size == self.payload_size,
    {
        self.payload_size
    }

    /// Decodes the entry header that `bytes` open with, if `bytes` is long
    /// enough.
    pub fn read_from_prefix(bytes: &[u8]) -> (header: Option<EntryHeader>)
        ensures
            header is Some <==> bytes@.len() >= ENTRY_HEADER_SIZE,
            header matches Some(h) ==> h == decode_entry_header(bytes@),
    {
        if bytes.len() < ENTRY_HEADER_SIZE {
            return None;
        }
        let uuid: u128 = read_le(bytes, 0, 16);
        let size: u128 = read_le(bytes, 16, 8);
        proof {
            lemma_le_value_bound(bytes@.subrange(16, 24));
            lemma_pow256_widths();
        }
        Some(EntryHeader { uuid, payload_size: size as u64 })
    }

    /// The `ENTRY_HEADER_SIZE` bytes of the header.
    pub fn as_bytes(&self) -> (bytes: Vec<u8>)
        ensures
            bytes@ == encode_entry_header(*self),
            bytes@.len() == ENTRY_HEADER_SIZE,
    {
        let mut bytes = write_le(self.uuid, 16);
        let size = write_le(self.payload_size as u128, 8);
        append(&mut bytes, size.as_slice());
        proof {
            lemma_le_bytes_len(self.uuid as nat, 16);
            lemma_le_bytes_len(self.payload_size as nat, 8);
        }
        bytes
    }
}

} // verus!
