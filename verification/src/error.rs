//! The ways in which the store fails.

use crate::text::{append_decimal, decimal};
use vstd::prelude::*;

verus! {

/// Why an operation on the instance image failed.
#[derive(Clone, Copy, Debug, PartialEq, Eq, Structural)]
pub enum Error {
    /// The block with this index could not be read or written.
    FailedIo(usize),
    /// No free slot is left in the image.
    InstanceImageFull,
    /// The header block of the image is badly formatted.
    InvalidInstanceImageHeader,
    /// No instance image was found.
    MissingInstanceImage,
    /// The image has no header block.
    MissingInstanceImageHeader,
    /// The recorded authority measurement is not the current one.
    RecordedAuthHashMismatch,
    /// The recorded code measurement is not the current one.
    RecordedCodeHashMismatch,
    /// The recorded boot mode is not the current one.
    RecordedDiceModeMismatch,
    /// An entry of this many payload bytes is not supported.
    UnsupportedEntrySize(u64),
    /// Key derivation, sealing or opening failed. A wrong key and a damaged
    /// ciphertext are not told apart.
    BoringSslFailed,
}

impl Error {
    /// What `message` says of each failure.
    pub open spec fn spec_message(&self) -> Seq<char> {
        match *self {
            Error::FailedIo(index) => "Failed I/O to disk: block "@ + decimal(index as nat),
            Error::InstanceImageFull => "Failed to obtain a free instance.img partition"@,
            Error::InvalidInstanceImageHeader => "instance.img header is invalid"@,
            Error::MissingInstanceImage => "Failed to find the instance.img partition"@,
            Error::MissingInstanceImageHeader => "instance.img header is missing"@,
            Error::RecordedAuthHashMismatch => "Recorded authority hash doesn't match"@,
            Error::RecordedCodeHashMismatch => "Recorded code hash doesn't match"@,
            Error::RecordedDiceModeMismatch => "Recorded DICE mode doesn't match"@,
            Error::UnsupportedEntrySize(size) => "Invalid entry size: "@ + decimal(size as nat),
            Error::BoringSslFailed => "An error happened during a cryptographic operation"@,
        }
    }

    /// The failure in words, for a log.
    pub fn message(&self) -> (message: String)
        ensures
            message@ == self.spec_message(),
    {
        match *self {
            Error::FailedIo(index) => {
                let mut message = String::from_str("Failed I/O to disk: block ");
                append_decimal(&mut message, index as u64);
                message
            },
            Error::InstanceImageFull => String::from_str(
                "Failed to obtain a free instance.img partition",
            ),
            Error::InvalidInstanceImageHeader => String::from_str("instance.img header is invalid"),
            Error::MissingInstanceImage => String::from_str(
                "Failed to find the instance.img partition",
            ),
            Error::MissingInstanceImageHeader => String::from_str("instance.img header is missing"),
            Error::RecordedAuthHashMismatch => String::from_str(
                "Recorded authority hash doesn't match",
            ),
            Error::RecordedCodeHashMismatch => String::from_str("Recorded code hash doesn't match"),
            Error::RecordedDiceModeMismatch => String::from_str("Recorded DICE mode doesn't match"),
            Error::UnsupportedEntrySize(size) => {
                let mut message = String::from_str("Invalid entry size: ");
                append_decimal(&mut message, size);
                message
            },
            Error::BoringSslFailed => String::from_str(
                "An error happened during a cryptographic operation",
            ),
        }
    }
}

} // verus!
