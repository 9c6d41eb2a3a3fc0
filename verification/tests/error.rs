use vm_instance::error::Error;

#[test]
fn messages() {
    assert_eq!(Error::FailedIo(3).message(), "Failed I/O to disk: block 3");
    assert_eq!(Error::FailedIo(0).message(), "Failed I/O to disk: block 0");
    assert_eq!(
        Error::InstanceImageFull.message(),
        "Failed to obtain a free instance.img partition"
    );
    assert_eq!(Error::InvalidInstanceImageHeader.message(), "instance.img header is invalid");
    assert_eq!(Error::MissingInstanceImage.message(), "Failed to find the instance.img partition");
    assert_eq!(Error::MissingInstanceImageHeader.message(), "instance.img header is missing");
    assert_eq!(Error::RecordedAuthHashMismatch.message(), "Recorded authority hash doesn't match");
    assert_eq!(Error::RecordedCodeHashMismatch.message(), "Recorded code hash doesn't match");
    assert_eq!(Error::RecordedDiceModeMismatch.message(), "Recorded DICE mode doesn't match");
    assert_eq!(Error::UnsupportedEntrySize(513).message(), "Invalid entry size: 513");
    assert_eq!(
        Error::BoringSslFailed.message(),
        "An error happened during a cryptographic operation"
    );
}

#[test]
fn numbers_in_messages_are_decimal() {
    for size in [0u64, 9, 10, 99, 100, 1000, 1_000_000_007, u64::MAX] {
        assert_eq!(
            Error::UnsupportedEntrySize(size).message(),
            format!("Invalid entry size: {}", size)
        );
    }
    assert_eq!(
        Error::FailedIo(usize::MAX).message(),
        format!("Failed I/O to disk: block {}", usize::MAX)
    );
}
