use mini_os::drivers::{
    check_peripheral_access, gpio_syscall, grant_gpio_access, init_driver_framework, init_gpio_driver,
    release_peripheral_access, request_peripheral_access, Driver, DriverError, DriverRegistry, GpioDriver, GpioHandle,
    PeripheralType, ResourceAccess,
};

#[test]
fn driver_error_messages() {
    assert_eq!(DriverError::NotInitialized.message(), "Driver not initialized");
    assert_eq!(DriverError::PermissionDenied.message(), "Access permission denied");
    assert_eq!(DriverError::ResourceBusy.message(), "Hardware resource busy");
    assert_eq!(DriverError::InvalidParameter.message(), "Invalid parameter");
    assert_eq!(DriverError::HardwareFault.message(), "Hardware fault detected");
    assert_eq!(DriverError::TimeoutError.message(), "Operation timeout");
    assert_eq!(DriverError::ConfigurationError.message(), "Driver configuration error");
}

#[test]
fn resource_sharing_fills_eight_slots() {
    let mut ra = ResourceAccess::new(PeripheralType::UART);
    assert_eq!(ra.peripheral_type, PeripheralType::UART);
    assert!(!ra.can_access(1));
    for t in 1..=8 {
        assert_eq!(ra.grant_shared_access(t), Ok(()));
        assert!(ra.can_access(t));
    }
    assert_eq!(ra.shared_tasks[0], Some(1));
    assert_eq!(ra.shared_tasks[7], Some(8));
    assert_eq!(ra.grant_shared_access(9), Err(DriverError::ResourceBusy));
    assert!(!ra.can_access(9));
}

#[test]
fn resource_ownership_round_trip() {
    let mut ra = ResourceAccess::new(PeripheralType::SPI);
    assert_eq!(ra.set_owner(2), Ok(()));
    assert_eq!(ra.owner_task, Some(2));
    assert!(ra.can_access(2));
    assert_eq!(ra.set_owner(3), Err(DriverError::ResourceBusy));
    assert_eq!(ra.release_owner(3), Err(DriverError::PermissionDenied));
    assert_eq!(ra.release_owner(2), Ok(()));
    assert_eq!(ra.owner_task, None);
    assert!(!ra.can_access(2));
}

#[test]
fn shared_grant_then_release_restores_access() {
    let mut reg = DriverRegistry::new();
    reg.init().unwrap();
    reg.request_access(1, 4, false).unwrap();
    reg.request_access(1, 5, false).unwrap();
    assert_eq!(reg.release_access(1, 5), Ok(()));
    assert!(!reg.check_access(1, 5));
    assert!(reg.check_access(1, 4));
    for t in 10..17 {
        assert_eq!(reg.request_access(1, t, false), Ok(()));
    }
    assert_eq!(reg.request_access(1, 20, false), Err(DriverError::ResourceBusy));
}

#[test]
fn registry_before_init_refuses() {
    let mut reg = DriverRegistry::new();
    assert!(!reg.check_access(0, 1));
    assert_eq!(reg.request_access(0, 1, true), Err(DriverError::InvalidParameter));
    assert_eq!(reg.release_access(0, 1), Err(DriverError::InvalidParameter));
    assert_eq!(reg.init(), Ok(()));
    assert_eq!(reg.init(), Err(DriverError::ConfigurationError));
}

#[test]
fn registry_exclusive_and_shared_access() {
    let mut reg = DriverRegistry::new();
    reg.init().unwrap();
    assert_eq!(reg.request_access(0, 1, true), Ok(()));
    assert!(reg.check_access(0, 1));
    assert!(!reg.check_access(0, 2));
    assert_eq!(reg.request_access(0, 2, true), Err(DriverError::ResourceBusy));
    assert_eq!(reg.request_access(0, 2, false), Ok(()));
    assert!(reg.check_access(0, 2));
    assert_eq!(reg.request_access(5, 1, false), Err(DriverError::NotInitialized));
    assert_eq!(reg.request_access(16, 1, false), Err(DriverError::InvalidParameter));
    assert_eq!(reg.release_access(0, 1), Ok(()));
    assert!(!reg.check_access(0, 1));
    assert_eq!(reg.release_access(0, 3), Err(DriverError::PermissionDenied));
    assert_eq!(reg.release_access(5, 1), Err(DriverError::NotInitialized));
    assert_eq!(reg.release_access(0, 2), Ok(()));
    assert!(!reg.check_access(0, 2));
}

#[test]
fn framework_functions() {
    let mut reg = DriverRegistry::new();
    assert_eq!(request_peripheral_access(&mut reg, 4, 1, false), Err(DriverError::InvalidParameter));
    assert_eq!(init_driver_framework(&mut reg), Ok(()));
    assert_eq!(init_driver_framework(&mut reg), Err(DriverError::ConfigurationError));
    assert_eq!(request_peripheral_access(&mut reg, 4, 1, false), Ok(()));
    assert!(check_peripheral_access(&reg, 4, 1));
    assert_eq!(release_peripheral_access(&mut reg, 4, 1), Ok(()));
    assert!(!check_peripheral_access(&reg, 4, 1));
    assert_eq!(release_peripheral_access(&mut reg, 4, 1), Err(DriverError::PermissionDenied));
}

#[test]
fn gpio_driver_refuses_before_init_and_without_authorization() {
    let mut g = GpioDriver::new();
    assert!(!g.is_initialized());
    assert_eq!(gpio_syscall(&mut g, 1, &[0, 0, 2]), Err(DriverError::NotInitialized));
    assert_eq!(grant_gpio_access(&mut g, 1), Err(DriverError::NotInitialized));
    assert_eq!(init_gpio_driver(&mut g), Ok(()));
    assert_eq!(init_gpio_driver(&mut g), Err(DriverError::ConfigurationError));
    assert_eq!(gpio_syscall(&mut g, 1, &[0, 0, 2]), Err(DriverError::PermissionDenied));
}

#[test]
fn gpio_driver_operations() {
    let mut g = GpioDriver::new();
    init_gpio_driver(&mut g).unwrap();
    assert_eq!(grant_gpio_access(&mut g, 1), Ok(()));
    assert!(g.check_access_permission(1));
    assert_eq!(gpio_syscall(&mut g, 1, &[0, 0, 2]), Ok(GpioHandle::ReadResult(true)));
    assert_eq!(gpio_syscall(&mut g, 1, &[0, 0, 3]), Ok(GpioHandle::ReadResult(false)));
    assert_eq!(gpio_syscall(&mut g, 1, &[0, 8, 1]), Err(DriverError::InvalidParameter));
    assert_eq!(gpio_syscall(&mut g, 1, &[0, 0]), Err(DriverError::InvalidParameter));
    assert_eq!(gpio_syscall(&mut g, 1, &[1, 1, 0, 5]), Ok(GpioHandle::WriteSuccess));
    assert_eq!(gpio_syscall(&mut g, 1, &[1, 1, 0, 16]), Err(DriverError::InvalidParameter));
    assert_eq!(gpio_syscall(&mut g, 1, &[1, 1]), Err(DriverError::InvalidParameter));
    assert_eq!(gpio_syscall(&mut g, 1, &[1]), Err(DriverError::InvalidParameter));
    assert_eq!(gpio_syscall(&mut g, 1, &[2, 0, 5, 1, 0, 2]), Ok(GpioHandle::ConfigureSuccess));
    assert_eq!(gpio_syscall(&mut g, 1, &[2, 0, 5, 2, 1, 3]), Ok(GpioHandle::ConfigureSuccess));
    assert_eq!(gpio_syscall(&mut g, 1, &[2, 1, 5, 1, 0, 2]), Ok(GpioHandle::ConfigureSuccess));
    assert_eq!(gpio_syscall(&mut g, 1, &[2, 2, 13, 1, 0, 2]), Ok(GpioHandle::ConfigureSuccess));
    assert_eq!(gpio_syscall(&mut g, 1, &[2, 7, 15, 1, 0, 2]), Ok(GpioHandle::ConfigureSuccess));
    assert_eq!(gpio_syscall(&mut g, 1, &[2, 8, 0, 1, 0, 2]), Err(DriverError::InvalidParameter));
    assert_eq!(gpio_syscall(&mut g, 1, &[2, 0, 16, 1, 0, 2]), Err(DriverError::InvalidParameter));
    assert_eq!(gpio_syscall(&mut g, 1, &[2, 0, 5, 4, 0, 2]), Err(DriverError::InvalidParameter));
    assert_eq!(gpio_syscall(&mut g, 1, &[2, 0, 5, 1, 3, 2]), Err(DriverError::InvalidParameter));
    assert_eq!(gpio_syscall(&mut g, 1, &[2, 0, 5, 1, 0, 4]), Err(DriverError::InvalidParameter));
    assert_eq!(gpio_syscall(&mut g, 1, &[2, 0, 5, 1, 0]), Err(DriverError::InvalidParameter));
    assert_eq!(gpio_syscall(&mut g, 1, &[3, 0, 5]), Ok(GpioHandle::ToggleSuccess));
    assert_eq!(gpio_syscall(&mut g, 1, &[3, 0]), Err(DriverError::InvalidParameter));
    assert_eq!(gpio_syscall(&mut g, 1, &[9]), Err(DriverError::InvalidParameter));
    assert_eq!(gpio_syscall(&mut g, 1, &[]), Err(DriverError::InvalidParameter));
    assert_eq!(gpio_syscall(&mut g, 2, &[3, 0, 5]), Err(DriverError::PermissionDenied));
}

#[test]
fn gpio_driver_access_lifecycle() {
    let mut g = GpioDriver::new();
    assert_eq!(g.shutdown(), Err(DriverError::NotInitialized));
    g.init(()).unwrap();
    for t in 0..8 {
        assert_eq!(g.grant_access(t), Ok(()));
    }
    assert_eq!(g.grant_access(8), Err(DriverError::ResourceBusy));
    assert_eq!(g.revoke_access(3), Ok(()));
    assert!(!g.check_access_permission(3));
    assert_eq!(g.revoke_access(3), Err(DriverError::PermissionDenied));
    assert_eq!(g.grant_access(8), Ok(()));
    assert!(g.check_access_permission(8));
    assert_eq!(g.mediated_operation(8, &[0, 1, 4]), Ok(GpioHandle::ReadResult(true)));
    assert_eq!(g.shutdown(), Ok(()));
    assert!(!g.is_initialized());
    assert!(!g.check_access_permission(8));
    assert_eq!(g.revoke_access(8), Err(DriverError::NotInitialized));
}
