use apicentric::ports::{PortError, PortManager, PortRange};

#[test]
fn test_port_manager_assignment() {
    let mut port_manager = PortManager::new(PortRange {
        start: 8000,
        end: 8002,
    });

    let port1 = port_manager.assign_port(None).unwrap();
    assert_eq!(port1, 8000);

    let port2 = port_manager.assign_port(None).unwrap();
    assert_eq!(port2, 8001);

    let port3 = port_manager.assign_port(Some(8002)).unwrap();
    assert_eq!(port3, 8002);

    let result = port_manager.assign_port(None);
    assert!(result.is_err());
}

#[test]
fn test_port_manager_conflict() {
    let mut port_manager = PortManager::new(PortRange {
        start: 8000,
        end: 8002,
    });

    port_manager.assign_port(Some(8001)).unwrap();

    let result = port_manager.assign_port(Some(8001));
    assert!(result.is_err());
}

#[test]
fn test_port_manager_release() {
    let mut port_manager = PortManager::new(PortRange {
        start: 8000,
        end: 8002,
    });

    let port = port_manager.assign_port(Some(8001)).unwrap();
    assert_eq!(port_manager.used_ports().len(), 1);

    port_manager.release_port(port);
    assert_eq!(port_manager.used_ports().len(), 0);

    let port2 = port_manager.assign_port(Some(8001)).unwrap();
    assert_eq!(port2, 8001);
}

#[test]
fn automatic_assignment_skips_requested_ports() {
    let mut pm = PortManager::new(PortRange { start: 9000, end: 9003 });
    assert_eq!(pm.assign_port(Some(9000)), Ok(9000));
    assert_eq!(pm.assign_port(Some(9002)), Ok(9002));
    assert_eq!(pm.assign_port(None), Ok(9001));
    assert_eq!(pm.assign_port(None), Ok(9003));
    assert_eq!(pm.assign_port(None), Err(PortError::Exhausted { start: 9000, end: 9003 }));
    assert_eq!(pm.assign_port(Some(9002)), Err(PortError::InUse(9002)));
}

#[test]
fn release_frees_only_that_port() {
    let mut pm = PortManager::new(PortRange { start: 1, end: 3 });
    pm.assign_port(None).unwrap();
    pm.assign_port(None).unwrap();
    pm.release_port(1);
    assert_eq!(pm.used_ports(), &[2]);
    assert_eq!(pm.assign_port(None), Ok(1));
}

#[test]
fn empty_range_is_exhausted() {
    let mut pm = PortManager::new(PortRange { start: 10, end: 9 });
    assert_eq!(pm.assign_port(None), Err(PortError::Exhausted { start: 10, end: 9 }));
    assert_eq!(pm.assign_port(Some(5)), Ok(5));
}

#[test]
fn requested_port_outside_range_is_accepted() {
    let mut pm = PortManager::new(PortRange { start: 8000, end: 8001 });
    assert_eq!(pm.assign_port(Some(65535)), Ok(65535));
    assert_eq!(pm.used_ports(), &[65535]);
}
