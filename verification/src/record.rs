//! The identity record of a virtual machine and its byte layout.

use crate::bytes::{append, array_at};
use vstd::prelude::*;

verus! {

/// Number of bytes of a measurement.
pub const HASH_SIZE: usize = 32;

/// Number of bytes of the hidden salt.
pub const HIDDEN_SIZE: usize = 64;

/// Number of bytes of an encoded record body: two measurements, the salt
/// and the boot-mode byte, with no padding between them.
pub const ENTRY_BODY_SIZE: usize = 129;

/// A measurement of code or of an authority.
pub type Hash = [u8; HASH_SIZE];

/// A value that never leaves the boot chain.
pub type Hidden = [u8; HIDDEN_SIZE];

/// The mode in which a virtual machine boots.
#[derive(Clone, Copy, Debug, PartialEq, Eq, Structural)]
pub enum DiceMode {
    NotInitialized,
    Normal,
    Debug,
    Maintenance,
}

/// The byte that stands for a boot mode in a record.
pub open spec fn mode_byte(mode: DiceMode) -> u8 {
    match mode {
        DiceMode::NotInitialized => 0,
        DiceMode::Normal => 1,
        DiceMode::Debug => 2,
        DiceMode::Maintenance => 3,
    }
}

/// The boot mode that a recorded byte stands for. A byte that stands for no
/// mode reads as `NotInitialized`.
pub open spec fn mode_of_byte(byte: u8) -> DiceMode {
    if byte == 1 {
        DiceMode::Normal
    } else if byte == 2 {
        DiceMode::Debug
    } else if byte == 3 {
        DiceMode::Maintenance
    } else {
        DiceMode::NotInitialized
    }
}

/// Every boot mode is read back from its byte.
pub proof fn lemma_mode_round_trip(mode: DiceMode)
    ensures
        mode_of_byte(mode_byte(mode)) == mode,
{
}

/// What was measured of a virtual machine at this boot.
pub struct PartialInputs {
    pub code_hash: Hash,
    pub auth_hash: Hash,
    pub mode: DiceMode,
}

/// A record body as a mathematical value.
pub struct EntryBodyView {
    pub code_hash: Seq<u8>,
    pub auth_hash: Seq<u8>,
    pub salt: Seq<u8>,
    pub mode: u8,
}

impl EntryBodyView {
    /// Whether each field has the length that the layout gives it.
    pub open spec fn wf(&self) -> bool {
        &&& self.code_hash.len() == HASH_SIZE
        &&& self.auth_hash.len() == HASH_SIZE
        &&& self.salt.len() == HIDDEN_SIZE
    }
}

/// The bytes of a record body: code measurement, authority measurement,
/// salt, boot-mode byte.
pub open spec fn encode_body(body: EntryBodyView) -> Seq<u8> {
    body.code_hash + body.auth_hash + body.salt + seq![body.mode]
}

/// The record body that `bytes` hold, if there are exactly
/// `ENTRY_BODY_SIZE` of them.
pub open spec fn decode_body(bytes: Seq<u8>) -> Option<EntryBodyView> {
    if bytes.len() != ENTRY_BODY_SIZE {
        None
    } else {
        Some(
            EntryBodyView {
                code_hash: bytes.subrange(0, 32),
                auth_hash: bytes.subrange(32, 64),
                salt: bytes.subrange(64, 128),
                mode: bytes[128],
            },
        )
    }
}

/// Decoding inverts encoding.
pub proof fn lemma_decode_encode_body(body: EntryBodyView)
    requires
        body.wf(),
    ensures
        encode_body(body).len() == ENTRY_BODY_SIZE,
        decode_body(encode_body(body)) == Some(body),
{
    let bytes = encode_body(body);
    assert(bytes.subrange(0, 32) =~= body.code_hash);
    assert(bytes.subrange(32, 64) =~= body.auth_hash);
    assert(bytes.subrange(64, 128) =~= body.salt);
}

/// Encoding inverts decoding.
pub proof fn lemma_encode_decode_body(bytes: Seq<u8>)
    requires
        bytes.len() == ENTRY_BODY_SIZE,
    ensures
        decode_body(bytes) matches Some(body) && body.wf() && encode_body(body) == bytes,
{
    let body = decode_body(bytes).unwrap();
    assert(encode_body(body) =~= bytes);
}

/// The identity of a virtual machine as it is kept across boots.
#[derive(Clone, Copy, Debug, PartialEq, Eq)]
pub struct EntryBody {
    pub code_hash: Hash,
    pub auth_hash: Hash,
    pub salt: Hidden,
    /// The boot-mode byte as it is recorded; `mode` reads it.
    pub mode: u8,
}

impl View for EntryBody {
    type V = EntryBodyView;

    open spec fn view(&self) -> EntryBodyView {
        EntryBodyView {
            code_hash: self.code_hash@,
            auth_hash: self.auth_hash@,
            salt: self.salt@,
            mode: self.mode,
        }
    }
}

impl EntryBody {
    /// The record of what was measured, with `salt`.
    pub fn new(dice_inputs: &PartialInputs, salt: &Hidden) -> (body: EntryBody)
        ensures
            body@ == (EntryBodyView {
                code_hash: dice_inputs.code_hash@,
                auth_hash: dice_inputs.auth_hash@,
                salt: salt@,
                mode: mode_byte(dice_inputs.mode),
            }),
            body@.wf(),
    {
        let mode: u8 = match dice_inputs.mode {
            DiceMode::NotInitialized => 0,
            DiceMode::Normal => 1,
            DiceMode::Debug => 2,
            DiceMode::Maintenance => 3,
        };
        EntryBody {
            code_hash: dice_inputs.code_hash,
            auth_hash: dice_inputs.auth_hash,
            salt: *salt,
            mode,
        }
    }

    /// The recorded boot mode.
    pub fn mode(&self) -> (mode: DiceMode)
        ensures
            mode == mode_of_byte(self@.mode),
    {
        match self.mode {
            1 => DiceMode::Normal,
            2 => DiceMode::Debug,
            3 => DiceMode::Maintenance,
            _ => DiceMode::NotInitialized,
        }
    }

    /// The bytes of the record, in the order of the layout.
    pub fn as_bytes(&self) -> (bytes: Vec<u8>)
        ensures
            bytes@ == encode_body(self@),
            bytes@.len() == ENTRY_BODY_SIZE,
    {
        let mut bytes: Vec<u8> = Vec::new();
        append(&mut bytes, &self.code_hash);
        append(&mut bytes, &self.auth_hash);
        append(&mut bytes, &self.salt);
        bytes.push(self.mode);
        assert(bytes@ =~= encode_body(self@));
        bytes
    }

    /// Decodes a record from exactly `ENTRY_BODY_SIZE` bytes.
    pub fn read_from(bytes: &[u8]) -> (body: Option<EntryBody>)
        ensures
            match body {
                Some(body) => decode_body(bytes@) == Some(body@) && body@.wf(),
                None => decode_body(bytes@) is None,
            },
    {
        if bytes.len() != ENTRY_BODY_SIZE {
            return None;
        }
        let code_hash: Hash = array_at(bytes, 0);
        let auth_hash: Hash = array_at(bytes, 32);
        let salt: Hidden = array_at(bytes, 64);
        Some(EntryBody { code_hash, auth_hash, salt, mode: bytes[128] })
    }
}

} // verus!
