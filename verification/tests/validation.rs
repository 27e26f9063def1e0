use vm_lifecycle::config::{config_is_valid, ident_is_valid, VmConfig};
use vm_lifecycle::status::{status_code, LifecycleError};
use vm_lifecycle::table::VmTable;

fn valid() -> VmConfig {
    VmConfig {
        id: Some(String::from("a")),
        rootfs_image: Some(String::from("img.qcow2")),
        cpu_count: 2,
        memory_mib: 512,
        network_mode: Some(String::from("bridge")),
    }
}

#[test]
fn identifier_validity() {
    assert!(!ident_is_valid(&None));
    assert!(!ident_is_valid(&Some(String::new())));
    assert!(ident_is_valid(&Some(String::from("vm-1"))));
}

#[test]
fn config_validity_needs_every_field() {
    assert!(config_is_valid(&valid()));

    let mut c = valid();
    c.rootfs_image = None;
    assert!(!config_is_valid(&c));

    let mut c = valid();
    c.rootfs_image = Some(String::new());
    assert!(!config_is_valid(&c));

    let mut c = valid();
    c.cpu_count = 0;
    assert!(!config_is_valid(&c));

    let mut c = valid();
    c.memory_mib = 0;
    assert!(!config_is_valid(&c));

    let mut c = valid();
    c.network_mode = None;
    assert!(!config_is_valid(&c));

    let mut c = valid();
    c.network_mode = Some(String::new());
    assert!(!config_is_valid(&c));
}

#[test]
fn invalid_config_is_rejected_before_the_table() {
    let mut t = VmTable::new();
    let mut c = valid();
    c.memory_mib = 0;
    assert_eq!(t.launch(Some(&c), true), Err(LifecycleError::InvalidArgument));
    // Validation precedes the liveness check: even with "a" already
    // tracked, the broken configuration is reported as the invalid one.
    assert_eq!(t.launch(Some(&valid()), true), Ok(()));
    assert_eq!(t.launch(Some(&c), true), Err(LifecycleError::InvalidArgument));
}

#[test]
fn status_codes_are_distinct() {
    assert_eq!(status_code(&Ok(())), 0);
    assert_eq!(status_code(&Err(LifecycleError::InvalidArgument)), -1);
    assert_eq!(status_code(&Err(LifecycleError::NotFound)), -2);
    assert_eq!(status_code(&Err(LifecycleError::InvalidState)), -3);
    assert_eq!(status_code(&Err(LifecycleError::AlreadyExists)), -4);
    assert_eq!(status_code(&Err(LifecycleError::BackendFailure)), -5);
}

#[test]
fn checks_have_no_side_effect() {
    let mut t = VmTable::new();
    assert_eq!(t.check_launch(Some(&valid())), Ok(()));
    // The check admitted the launch but recorded nothing.
    assert_eq!(
        t.stop(Some(&String::from("a")), true),
        Err(LifecycleError::NotFound)
    );
    assert_eq!(t.launch(Some(&valid()), true), Ok(()));
    assert_eq!(t.check_stop(Some(&String::from("a"))), Ok(()));
    assert_eq!(
        t.check_cleanup(Some(&String::from("a"))),
        Err(LifecycleError::InvalidState)
    );
    assert_eq!(t.stop(Some(&String::from("a")), true), Ok(()));
    assert_eq!(t.check_cleanup(Some(&String::from("a"))), Ok(()));
}
