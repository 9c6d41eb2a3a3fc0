//! Handing platform devices to the VFIO driver.
//!
//! The service reads and writes files of sysfs; what it decides between two
//! such steps is decided here.

use vstd::prelude::*;
use vstd::string::StringSliceAdditionalSpecFns;

verus! {

/// The service that binds devices to the VFIO driver.
#[derive(Clone, Copy, Debug, PartialEq, Eq, Structural)]
pub struct VfioHandler {}

impl Default for VfioHandler {
    fn default() -> (handler: VfioHandler)
        ensures
            handler == (VfioHandler {  }),
    {
        VfioHandler {  }
    }
}

impl VfioHandler {
    /// A new handler.
    pub fn init() -> (handler: VfioHandler)
        ensures
            handler == (VfioHandler {  }),
    {
        VfioHandler::default()
    }
}

/// The kind of exception that a failure is reported as.
#[allow(non_camel_case_types)]
#[derive(Clone, Copy, Debug, PartialEq, Eq, Structural)]
pub enum ExceptionCode {
    ILLEGAL_ARGUMENT,
    SERVICE_SPECIFIC,
    UNSUPPORTED_OPERATION,
}

/// Why a device was not bound.
#[derive(Clone, Copy, Debug, PartialEq, Eq, Structural)]
pub enum VfioError {
    /// The platform has no VFIO.
    NotSupported,
    /// The path of the device could not be made canonical.
    CannotCanonicalize,
    /// There is no device at the path.
    NoSuchDevice,
    /// The path is not below the directory of the platform devices.
    NotPlatformDevice,
    /// The path has no last component to name the device by.
    NoDeviceName,
    /// The name of the device is not valid UTF-8.
    InvalidFileName,
    /// The device could not be unbound from its driver.
    UnbindFailed,
    /// The driver of the device could not be overridden.
    OverrideFailed,
    /// The device could not be probed.
    ProbeFailed,
    /// After all writes the device is still not bound to the VFIO driver.
    StillNotBound,
    /// The device has no IOMMU group.
    NoIommuGroup,
    /// No file descriptor could be made for the device tree overlay.
    NoDtboFd,
}

impl VfioError {
    /// The kind of exception that each failure is reported as.
    pub open spec fn spec_exception_code(&self) -> ExceptionCode {
        match *self {
            VfioError::NotSupported => ExceptionCode::UNSUPPORTED_OPERATION,
            VfioError::CannotCanonicalize => ExceptionCode::ILLEGAL_ARGUMENT,
            VfioError::NoSuchDevice => ExceptionCode::ILLEGAL_ARGUMENT,
            VfioError::NotPlatformDevice => ExceptionCode::ILLEGAL_ARGUMENT,
            VfioError::NoDeviceName => ExceptionCode::ILLEGAL_ARGUMENT,
            VfioError::InvalidFileName => ExceptionCode::ILLEGAL_ARGUMENT,
            VfioError::UnbindFailed => ExceptionCode::SERVICE_SPECIFIC,
            VfioError::OverrideFailed => ExceptionCode::SERVICE_SPECIFIC,
            VfioError::ProbeFailed => ExceptionCode::SERVICE_SPECIFIC,
            VfioError::StillNotBound => ExceptionCode::SERVICE_SPECIFIC,
            VfioError::NoIommuGroup => ExceptionCode::SERVICE_SPECIFIC,
            VfioError::NoDtboFd => ExceptionCode::SERVICE_SPECIFIC,
        }
    }

    /// The kind of exception that the failure is reported as.
    pub fn exception_code(&self) -> (code: ExceptionCode)
        ensures
            code == self.spec_exception_code(),
    {
        match *self {
            VfioError::NotSupported => ExceptionCode::UNSUPPORTED_OPERATION,
            VfioError::CannotCanonicalize
            | VfioError::NoSuchDevice
            | VfioError::NotPlatformDevice
            | VfioError::NoDeviceName
            | VfioError::InvalidFileName => ExceptionCode::ILLEGAL_ARGUMENT,
            VfioError::UnbindFailed
            | VfioError::OverrideFailed
            | VfioError::ProbeFailed
            | VfioError::StillNotBound
            | VfioError::NoIommuGroup
            | VfioError::NoDtboFd => ExceptionCode::SERVICE_SPECIFIC,
        }
    }
}

/// Whether the platform has VFIO: the VFIO device node and the platform
/// driver of VFIO are both there.
pub fn is_vfio_supported(dev_vfio_exists: bool, platform_driver_exists: bool) -> (supported: bool)
    ensures
        supported == (dev_vfio_exists && platform_driver_exists),
{
    dev_vfio_exists && platform_driver_exists
}

/// Whether a path names a platform device: something is there, and it is
/// below the directory of the platform devices. Where it is neither, the
/// missing device is reported.
pub fn check_platform_device(exists: bool, below_platform_devices: bool) -> (checked: Result<
    (),
    VfioError,
>)
    ensures
        checked == (if !exists {
            Err::<(), VfioError>(VfioError::NoSuchDevice)
        } else if !below_platform_devices {
            Err::<(), VfioError>(VfioError::NotPlatformDevice)
        } else {
            Ok::<(), VfioError>(())
        }),
{
    if !exists {
        return Err(VfioError::NoSuchDevice);
    }
    if !below_platform_devices {
        return Err(VfioError::NotPlatformDevice);
    }
    Ok(())
}

/// Whether a device is bound to the VFIO driver, from the name of the
/// driver that it is bound to, if it is bound and the name could be read.
pub fn is_bound_to_vfio_driver(driver: Option<&str>) -> (bound: bool)
    ensures
        bound == (driver matches Some(name) && name@ == "vfio-platform"@),
{
    match driver {
        Some(name) => String::from_str(name) == String::from_str("vfio-platform"),
        None => false,
    }
}

/// The value of a string of decimal digits; nothing where a byte is no
/// digit. The empty string has the value 0.
pub open spec fn digits_value(digits: Seq<u8>) -> Option<nat>
    decreases digits.len(),
{
    if digits.len() == 0 {
        Some(0)
    } else {
        let last = digits.last();
        match digits_value(digits.drop_last()) {
            Some(value) => if 0x30 <= last <= 0x39 {
                Some(value * 10 + (last - 0x30) as nat)
            } else {
                None
            },
            None => None,
        }
    }
}

/// The number of an IOMMU group as its name gives it: decimal digits, at
/// least one, after a plus sign or none, and no more than a `u64` holds.
pub open spec fn iommu_group_of(name: Seq<u8>) -> Option<u64> {
    let digits = if name.len() > 0 && name[0] == 0x2b {
        name.drop_first()
    } else {
        name
    };
    if digits.len() == 0 {
        None
    } else {
        match digits_value(digits) {
            Some(value) => if value <= u64::MAX {
                Some(value as u64)
            } else {
                None
            },
            None => None,
        }
    }
}

/// More digits never make a smaller number.
proof fn lemma_digits_value_grows(digits: Seq<u8>, len: int)
    requires
        0 <= len <= digits.len(),
        digits_value(digits) is Some,
    ensures
        digits_value(digits.subrange(0, len)) matches Some(value) && value <= digits_value(
            digits,
        ).unwrap(),
    decreases digits.len() - len,
{
    if len < digits.len() {
        let shorter = digits.drop_last();
        assert(shorter.subrange(0, len) =~= digits.subrange(0, len));
        lemma_digits_value_grows(shorter, len);
    } else {
        assert(digits.subrange(0, len) =~= digits);
    }
}

/// Once a byte is no digit, no longer string has a value.
proof fn lemma_digits_value_stays_none(digits: Seq<u8>, len: int)
    requires
        0 <= len <= digits.len(),
        digits_value(digits.subrange(0, len)) is None,
    ensures
        digits_value(digits) is None,
    decreases digits.len() - len,
{
    if len < digits.len() {
        let shorter = digits.drop_last();
        assert(shorter.subrange(0, len) =~= digits.subrange(0, len));
        lemma_digits_value_stays_none(shorter, len);
    } else {
        assert(digits.subrange(0, len) =~= digits);
    }
}

/// Reads the number of an IOMMU group from the name of its directory.
pub fn get_device_iommu_group(name: &str) -> (group: Option<u64>)
    ensures
        group == iommu_group_of(name.spec_bytes()),
{
    let bytes = name.as_bytes();
    let start: usize = if bytes.len() > 0 && bytes[0] == 0x2b {
        1
    } else {
        0
    };
    if bytes.len() == start {
        return None;
    }
    let ghost digits = bytes@.subrange(start as int, bytes@.len() as int);
    assert(digits =~= if start == 1 {
        bytes@.drop_first()
    } else {
        bytes@
    });
    let mut value: u64 = 0;
    let mut i: usize = start;
    while i < bytes.len()
        invariant
            start <= i <= bytes@.len(),
            bytes@ == name.spec_bytes(),
            digits.len() > 0,
            digits == bytes@.subrange(start as int, bytes@.len() as int),
            digits == (if bytes@.len() > 0 && bytes@[0] == 0x2b {
                bytes@.drop_first()
            } else {
                bytes@
            }),
            digits_value(digits.subrange(0, i - start)) == Some(value as nat),
        decreases bytes@.len() - i,
    {
        let byte = bytes[i];
        proof {
            let longer = digits.subrange(0, i - start + 1);
            assert(longer.drop_last() =~= digits.subrange(0, i - start));
            assert(longer.last() == byte);
        }
        if byte < 0x30 || byte > 0x39 {
            proof {
                lemma_digits_value_stays_none(digits, i - start + 1);
            }
            return None;
        }
        let digit: u64 = (byte - 0x30) as u64;
        if value > (u64::MAX - digit) / 10 {
            proof {
                if digits_value(digits) is Some {
                    lemma_digits_value_grows(digits, i - start + 1);
                }
            }
            return None;
        }
        value = value * 10 + digit;
        i = i + 1;
    }
    assert(digits.subrange(0, i - start) =~= digits);
    Some(value)
}

/// What is to be done next to bind a device.
#[derive(Clone, Copy, Debug, PartialEq, Eq, Structural)]
pub enum BindAction {
    /// Read the driver that the device is bound to.
    ReadDriver,
    /// Take the name of the device from its path.
    ReadDeviceName,
    /// Write the name of the device to the `unbind` file of its driver.
    WriteUnbind,
    /// Write the name of the VFIO driver to the `driver_override` file of
    /// the device.
    WriteDriverOverride,
    /// Write the name of the device to the `drivers_probe` file of the bus.
    WriteDriversProbe,
    /// Read the driver of the device once more.
    ReadDriverAgain,
    /// Read the IOMMU group of the device.
    ReadIommuGroup,
}

/// What came of taking the name of a device from its path.
#[derive(Clone, Copy, Debug, PartialEq, Eq, Structural)]
pub enum DeviceName {
    /// The path has no last component.
    Missing,
    /// The last component is not valid UTF-8.
    NotUtf8,
    /// The device has a name.
    Named,
}

/// What came of an action.
#[derive(Clone, Copy, Debug, PartialEq, Eq, Structural)]
pub enum BindEvent {
    /// The driver was read: the device is bound to the VFIO driver, or not.
    Driver { bound: bool },
    /// The name of the device was looked for.
    Name(DeviceName),
    /// A file was written, or could not be.
    Written { done: bool },
    /// The IOMMU group was read, or there is none.
    IommuGroup(Option<u64>),
}

/// How binding goes on after an event.
#[derive(Clone, Copy, Debug, PartialEq, Eq)]
pub enum BindStep {
    /// This is to be done next.
    Next(BindAction),
    /// Binding has ended, well or not.
    Done(Result<(), VfioError>),
}

/// Whether `event` is what `action` can end in.
pub open spec fn answers(action: BindAction, event: BindEvent) -> bool {
    match action {
        BindAction::ReadDriver | BindAction::ReadDriverAgain => event is Driver,
        BindAction::ReadDeviceName => event is Name,
        BindAction::WriteUnbind
        | BindAction::WriteDriverOverride
        | BindAction::WriteDriversProbe => event is Written,
        BindAction::ReadIommuGroup => event is IommuGroup,
    }
}

/// How binding goes on after `action` has ended in `event`. A device that
/// is bound already is left alone. Any other is unbound, given the VFIO
/// driver as its override and probed, in this order; then it must be bound
/// and have an IOMMU group. The first step that fails ends it, and so does
/// an event that does not answer the action: the device then counts as not
/// bound.
pub open spec fn bind_step(action: BindAction, event: BindEvent) -> BindStep {
    match (action, event) {
        (BindAction::ReadDriver, BindEvent::Driver { bound }) => if bound {
            BindStep::Done(Ok(()))
        } else {
            BindStep::Next(BindAction::ReadDeviceName)
        },
        (BindAction::ReadDeviceName, BindEvent::Name(name)) => match name {
            DeviceName::Missing => BindStep::Done(Err(VfioError::NoDeviceName)),
            DeviceName::NotUtf8 => BindStep::Done(Err(VfioError::InvalidFileName)),
            DeviceName::Named => BindStep::Next(BindAction::WriteUnbind),
        },
        (BindAction::WriteUnbind, BindEvent::Written { done }) => if done {
            BindStep::Next(BindAction::WriteDriverOverride)
        } else {
            BindStep::Done(Err(VfioError::UnbindFailed))
        },
        (BindAction::WriteDriverOverride, BindEvent::Written { done }) => if done {
            BindStep::Next(BindAction::WriteDriversProbe)
        } else {
            BindStep::Done(Err(VfioError::OverrideFailed))
        },
        (BindAction::WriteDriversProbe, BindEvent::Written { done }) => if done {
            BindStep::Next(BindAction::ReadDriverAgain)
        } else {
            BindStep::Done(Err(VfioError::ProbeFailed))
        },
        (BindAction::ReadDriverAgain, BindEvent::Driver { bound }) => if bound {
            BindStep::Next(BindAction::ReadIommuGroup)
        } else {
            BindStep::Done(Err(VfioError::StillNotBound))
        },
        (BindAction::ReadIommuGroup, BindEvent::IommuGroup(group)) => if group is Some {
            BindStep::Done(Ok(()))
        } else {
            BindStep::Done(Err(VfioError::NoIommuGroup))
        },
        _ => BindStep::Done(Err(VfioError::StillNotBound)),
    }
}

/// How binding ends when the events `events` come in, one for each action,
/// starting with `action`; nothing where the events run out before it ends
/// or one of them does not answer its action.
pub open spec fn bind_run(action: BindAction, events: Seq<BindEvent>) -> Option<
    Result<(), VfioError>,
>
    decreases events.len(),
{
    if events.len() == 0 || !answers(action, events[0]) {
        None
    } else {
        match bind_step(action, events[0]) {
            BindStep::Done(result) => if events.len() == 1 {
                Some(result)
            } else {
                None
            },
            BindStep::Next(next) => bind_run(next, events.drop_first()),
        }
    }
}

/// The action that binding starts with.
pub fn bind_start() -> (action: BindAction)
    ensures
        action == BindAction::ReadDriver,
{
    BindAction::ReadDriver
}

/// Decides how binding goes on after `action` has ended in `event`.
pub fn bind_vfio_driver(action: BindAction, event: BindEvent) -> (step: BindStep)
    ensures
        step == bind_step(action, event),
{
    match (action, event) {
        (BindAction::ReadDriver, BindEvent::Driver { bound }) => if bound {
            BindStep::Done(Ok(()))
        } else {
            BindStep::Next(BindAction::ReadDeviceName)
        },
        (BindAction::ReadDeviceName, BindEvent::Name(DeviceName::Missing)) => BindStep::Done(
            Err(VfioError::NoDeviceName),
        ),
        (BindAction::ReadDeviceName, BindEvent::Name(DeviceName::NotUtf8)) => BindStep::Done(
            Err(VfioError::InvalidFileName),
        ),
        (BindAction::ReadDeviceName, BindEvent::Name(DeviceName::Named)) => BindStep::Next(
            BindAction::WriteUnbind,
        ),
        (BindAction::WriteUnbind, BindEvent::Written { done: true }) => BindStep::Next(
            BindAction::WriteDriverOverride,
        ),
        (BindAction::WriteUnbind, BindEvent::Written { done: false }) => BindStep::Done(
            Err(VfioError::UnbindFailed),
        ),
        (BindAction::WriteDriverOverride, BindEvent::Written { done: true }) => BindStep::Next(
            BindAction::WriteDriversProbe,
        ),
        (BindAction::WriteDriverOverride, BindEvent::Written { done: false }) => BindStep::Done(
            Err(VfioError::OverrideFailed),
        ),
        (BindAction::WriteDriversProbe, BindEvent::Written { done: true }) => BindStep::Next(
            BindAction::ReadDriverAgain,
        ),
        (BindAction::WriteDriversProbe, BindEvent::Written { done: false }) => BindStep::Done(
            Err(VfioError::ProbeFailed),
        ),
        (BindAction::ReadDriverAgain, BindEvent::Driver { bound: true }) => BindStep::Next(
            BindAction::ReadIommuGroup,
        ),
        (BindAction::ReadDriverAgain, BindEvent::Driver { bound: false }) => BindStep::Done(
            Err(VfioError::StillNotBound),
        ),
        (BindAction::ReadIommuGroup, BindEvent::IommuGroup(Some(_))) => BindStep::Done(Ok(())),
        (BindAction::ReadIommuGroup, BindEvent::IommuGroup(None)) => BindStep::Done(
            Err(VfioError::NoIommuGroup),
        ),
        _ => BindStep::Done(Err(VfioError::StillNotBound)),
    }
}

/// Binding ends well in two ways only: the device was bound before anything
/// was written; or it was named, all three files were written, it was then
/// found bound, and it has an IOMMU group.
pub proof fn lemma_bind_ends_well(events: Seq<BindEvent>)
    ensures
        bind_run(BindAction::ReadDriver, events) == Some(Ok::<(), VfioError>(())) <==> (events
            == seq![BindEvent::Driver { bound: true }] || (events.len() == 7 && events
            =~= seq![
            BindEvent::Driver { bound: false },
            BindEvent::Name(DeviceName::Named),
            BindEvent::Written { done: true },
            BindEvent::Written { done: true },
            BindEvent::Written { done: true },
            BindEvent::Driver { bound: true },
            events[6],
        ] && events[6] matches BindEvent::IommuGroup(Some(_)))),
{
    reveal_with_fuel(bind_run, 8);
    let e1 = events.drop_first();
    let e2 = e1.drop_first();
    let e3 = e2.drop_first();
    let e4 = e3.drop_first();
    let e5 = e4.drop_first();
    let e6 = e5.drop_first();
    let e7 = e6.drop_first();
    if events.len() >= 1 {
        assert(events =~= seq![events[0]] + e1);
    }
    if events == seq![BindEvent::Driver { bound: true }] {
        assert(events.len() == 1);
        assert(events[0] == BindEvent::Driver { bound: true });
    }
    if events.len() == 7 {
        assert(e1[0] == events[1]);
        assert(e2[0] == events[2]);
        assert(e3[0] == events[3]);
        assert(e4[0] == events[4]);
        assert(e5[0] == events[5]);
        assert(e6[0] == events[6]);
        assert(e6.len() == 1);
    }
    if bind_run(BindAction::ReadDriver, events) == Some(Ok::<(), VfioError>(())) {
        if events.len() > 1 {
            assert(e1[0] == events[1]);
            assert(e1.len() >= 2 ==> e2[0] == events[2]);
            assert(e2.len() >= 2 ==> e3[0] == events[3]);
            assert(e3.len() >= 2 ==> e4[0] == events[4]);
            assert(e4.len() >= 2 ==> e5[0] == events[5]);
            assert(e5.len() >= 2 ==> e6[0] == events[6]);
            assert(events.len() == 7);
        } else {
            assert(events =~= seq![BindEvent::Driver { bound: true }]);
        }
    }
}

} // verus!
