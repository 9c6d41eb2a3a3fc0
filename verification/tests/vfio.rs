use vm_instance::vfio::{
    bind_start, bind_vfio_driver, check_platform_device, get_device_iommu_group,
    is_bound_to_vfio_driver, is_vfio_supported, BindAction, BindEvent, BindStep, DeviceName,
    ExceptionCode, VfioError, VfioHandler,
};

/// Feeds the events to the machine, one for each action, and gives the end
/// that it comes to together with the actions that it asked for.
fn run(events: &[BindEvent]) -> (Option<Result<(), VfioError>>, Vec<BindAction>) {
    let mut action = bind_start();
    let mut actions = vec![action];
    for event in events {
        match bind_vfio_driver(action, *event) {
            BindStep::Next(next) => {
                action = next;
                actions.push(next);
            }
            BindStep::Done(result) => return (Some(result), actions),
        }
    }
    (None, actions)
}

const WRITTEN: BindEvent = BindEvent::Written { done: true };
const NOT_WRITTEN: BindEvent = BindEvent::Written { done: false };
const BOUND: BindEvent = BindEvent::Driver { bound: true };
const NOT_BOUND: BindEvent = BindEvent::Driver { bound: false };
const NAMED: BindEvent = BindEvent::Name(DeviceName::Named);

#[test]
fn handler_is_made() {
    assert_eq!(VfioHandler::init(), VfioHandler::default());
}

#[test]
fn vfio_needs_both_paths() {
    assert!(is_vfio_supported(true, true));
    assert!(!is_vfio_supported(true, false));
    assert!(!is_vfio_supported(false, true));
    assert!(!is_vfio_supported(false, false));
}

#[test]
fn platform_device_must_exist_below_the_platform_directory() {
    assert_eq!(check_platform_device(true, true), Ok(()));
    assert_eq!(check_platform_device(false, true), Err(VfioError::NoSuchDevice));
    assert_eq!(check_platform_device(false, false), Err(VfioError::NoSuchDevice));
    assert_eq!(check_platform_device(true, false), Err(VfioError::NotPlatformDevice));
}

#[test]
fn only_the_vfio_platform_driver_counts_as_bound() {
    assert!(is_bound_to_vfio_driver(Some("vfio-platform")));
    assert!(!is_bound_to_vfio_driver(Some("vfio-platform ")));
    assert!(!is_bound_to_vfio_driver(Some("vfio")));
    assert!(!is_bound_to_vfio_driver(Some("")));
    assert!(!is_bound_to_vfio_driver(None));
}

#[test]
fn iommu_group_is_a_decimal_number() {
    assert_eq!(get_device_iommu_group("0"), Some(0));
    assert_eq!(get_device_iommu_group("7"), Some(7));
    assert_eq!(get_device_iommu_group("42"), Some(42));
    assert_eq!(get_device_iommu_group("007"), Some(7));
    assert_eq!(get_device_iommu_group("+13"), Some(13));
    assert_eq!(get_device_iommu_group("18446744073709551615"), Some(u64::MAX));
    assert_eq!(get_device_iommu_group("018446744073709551615"), Some(u64::MAX));
}

#[test]
fn iommu_group_of_anything_else_is_none() {
    for name in [
        "",
        "+",
        "-",
        "-1",
        "++1",
        "1+",
        " 1",
        "1 ",
        "0x10",
        "1_000",
        "12a",
        "a12",
        "18446744073709551616",
        "28446744073709551615",
        "99999999999999999999999",
        "\u{661}",
    ] {
        assert_eq!(get_device_iommu_group(name), None);
        assert_eq!(get_device_iommu_group(name), name.parse::<u64>().ok());
    }
}

#[test]
fn iommu_group_agrees_with_parse() {
    for name in ["0", "1", "+0", "+007", "123456789", "18446744073709551615", "0000"] {
        assert_eq!(get_device_iommu_group(name), name.parse::<u64>().ok());
    }
}

#[test]
fn exception_codes() {
    assert_eq!(VfioError::NotSupported.exception_code(), ExceptionCode::UNSUPPORTED_OPERATION);
    for error in [
        VfioError::CannotCanonicalize,
        VfioError::NoSuchDevice,
        VfioError::NotPlatformDevice,
        VfioError::NoDeviceName,
        VfioError::InvalidFileName,
    ] {
        assert_eq!(error.exception_code(), ExceptionCode::ILLEGAL_ARGUMENT);
    }
    for error in [
        VfioError::UnbindFailed,
        VfioError::OverrideFailed,
        VfioError::ProbeFailed,
        VfioError::StillNotBound,
        VfioError::NoIommuGroup,
        VfioError::NoDtboFd,
    ] {
        assert_eq!(error.exception_code(), ExceptionCode::SERVICE_SPECIFIC);
    }
}

#[test]
fn bound_device_is_left_alone() {
    assert_eq!(run(&[BOUND]), (Some(Ok(())), vec![BindAction::ReadDriver]));
}

#[test]
fn unbound_device_is_unbound_overridden_and_probed() {
    let events =
        [NOT_BOUND, NAMED, WRITTEN, WRITTEN, WRITTEN, BOUND, BindEvent::IommuGroup(Some(3))];
    assert_eq!(
        run(&events),
        (
            Some(Ok(())),
            vec![
                BindAction::ReadDriver,
                BindAction::ReadDeviceName,
                BindAction::WriteUnbind,
                BindAction::WriteDriverOverride,
                BindAction::WriteDriversProbe,
                BindAction::ReadDriverAgain,
                BindAction::ReadIommuGroup,
            ]
        )
    );
}

#[test]
fn binding_is_not_over_before_its_last_event() {
    let events = [NOT_BOUND, NAMED, WRITTEN, WRITTEN, WRITTEN, BOUND];
    assert_eq!(run(&events).0, None);
    assert_eq!(run(&[]).0, None);
    assert_eq!(run(&[NOT_BOUND]).0, None);
}

#[test]
fn each_failing_step_ends_binding_with_its_error() {
    assert_eq!(
        run(&[NOT_BOUND, BindEvent::Name(DeviceName::Missing)]).0,
        Some(Err(VfioError::NoDeviceName))
    );
    assert_eq!(
        run(&[NOT_BOUND, BindEvent::Name(DeviceName::NotUtf8)]).0,
        Some(Err(VfioError::InvalidFileName))
    );
    assert_eq!(run(&[NOT_BOUND, NAMED, NOT_WRITTEN]).0, Some(Err(VfioError::UnbindFailed)));
    assert_eq!(
        run(&[NOT_BOUND, NAMED, WRITTEN, NOT_WRITTEN]).0,
        Some(Err(VfioError::OverrideFailed))
    );
    assert_eq!(
        run(&[NOT_BOUND, NAMED, WRITTEN, WRITTEN, NOT_WRITTEN]).0,
        Some(Err(VfioError::ProbeFailed))
    );
    assert_eq!(
        run(&[NOT_BOUND, NAMED, WRITTEN, WRITTEN, WRITTEN, NOT_BOUND]).0,
        Some(Err(VfioError::StillNotBound))
    );
    assert_eq!(
        run(&[NOT_BOUND, NAMED, WRITTEN, WRITTEN, WRITTEN, BOUND, BindEvent::IommuGroup(None)]).0,
        Some(Err(VfioError::NoIommuGroup))
    );
}
