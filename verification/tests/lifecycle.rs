use vm_lifecycle::config::VmConfig;
use vm_lifecycle::status::{status_code, LifecycleError};
use vm_lifecycle::table::VmTable;

fn cfg(id: &str) -> VmConfig {
    VmConfig {
        id: Some(String::from(id)),
        rootfs_image: Some(String::from("img.qcow2")),
        cpu_count: 2,
        memory_mib: 512,
        network_mode: Some(String::from("bridge")),
    }
}

fn ident(id: &str) -> Option<String> {
    Some(String::from(id))
}

#[test]
fn scenario_full_lifecycle() {
    let mut t = VmTable::new();
    let c = cfg("a");
    assert_eq!(status_code(&t.launch(Some(&c), true)), 0);
    assert_eq!(status_code(&t.stop(ident("a").as_ref(), true)), 0);
    assert_eq!(
        t.stop(ident("a").as_ref(), true),
        Err(LifecycleError::InvalidState)
    );
    assert_eq!(status_code(&t.cleanup(ident("a").as_ref(), true)), 0);
    assert_eq!(
        t.stop(ident("a").as_ref(), true),
        Err(LifecycleError::NotFound)
    );
}

#[test]
fn launch_without_config_is_invalid_argument() {
    let mut t = VmTable::new();
    assert_eq!(t.launch(None, true), Err(LifecycleError::InvalidArgument));
    // The table is unchanged: nothing is tracked, so a valid launch succeeds.
    assert_eq!(t.launch(Some(&cfg("a")), true), Ok(()));
}

#[test]
fn empty_identifier_is_invalid_argument_everywhere() {
    let mut t = VmTable::new();
    let mut c = cfg("a");
    c.id = Some(String::new());
    assert_eq!(t.launch(Some(&c), true), Err(LifecycleError::InvalidArgument));
    let empty = ident("");
    assert_eq!(
        t.stop(empty.as_ref(), true),
        Err(LifecycleError::InvalidArgument)
    );
    assert_eq!(
        t.cleanup(empty.as_ref(), true),
        Err(LifecycleError::InvalidArgument)
    );
}

#[test]
fn absent_identifier_is_invalid_argument_everywhere() {
    let mut t = VmTable::new();
    let mut c = cfg("a");
    c.id = None;
    assert_eq!(t.launch(Some(&c), true), Err(LifecycleError::InvalidArgument));
    assert_eq!(t.stop(None, true), Err(LifecycleError::InvalidArgument));
    assert_eq!(t.cleanup(None, true), Err(LifecycleError::InvalidArgument));
}

#[test]
fn second_launch_is_already_exists() {
    let mut t = VmTable::new();
    assert_eq!(t.launch(Some(&cfg("vm-1")), true), Ok(()));
    assert_eq!(
        t.launch(Some(&cfg("vm-1")), true),
        Err(LifecycleError::AlreadyExists)
    );
    // Still rejected while the machine is merely stopped, not cleaned up.
    assert_eq!(t.stop(ident("vm-1").as_ref(), true), Ok(()));
    assert_eq!(
        t.launch(Some(&cfg("vm-1")), true),
        Err(LifecycleError::AlreadyExists)
    );
}

#[test]
fn already_tracked_launch_never_needs_the_backend() {
    let mut t = VmTable::new();
    assert_eq!(t.launch(Some(&cfg("vm-1")), true), Ok(()));
    // check_launch alone decides: the caller would not invoke the backend.
    assert_eq!(
        t.check_launch(Some(&cfg("vm-1"))),
        Err(LifecycleError::AlreadyExists)
    );
    // Even a backend said to have failed changes neither answer nor table.
    assert_eq!(
        t.launch(Some(&cfg("vm-1")), false),
        Err(LifecycleError::AlreadyExists)
    );
    assert_eq!(t.stop(ident("vm-1").as_ref(), true), Ok(()));
}

#[test]
fn cleanup_before_stop_is_invalid_state() {
    let mut t = VmTable::new();
    assert_eq!(t.launch(Some(&cfg("a")), true), Ok(()));
    assert_eq!(
        t.cleanup(ident("a").as_ref(), true),
        Err(LifecycleError::InvalidState)
    );
    // The running machine is untouched: stopping it still succeeds.
    assert_eq!(t.stop(ident("a").as_ref(), true), Ok(()));
    assert_eq!(t.cleanup(ident("a").as_ref(), true), Ok(()));
}

#[test]
fn cleanup_of_unknown_identifier_is_invalid_state() {
    let mut t = VmTable::new();
    assert_eq!(
        t.cleanup(ident("ghostly").as_ref(), true),
        Err(LifecycleError::InvalidState)
    );
}

#[test]
fn round_trip_frees_the_identifier() {
    let mut t = VmTable::new();
    assert_eq!(t.launch(Some(&cfg("vm-x")), true), Ok(()));
    assert_eq!(t.stop(ident("vm-x").as_ref(), true), Ok(()));
    assert_eq!(t.cleanup(ident("vm-x").as_ref(), true), Ok(()));
    // No entry is left: a stop reports NotFound, and a fresh launch of the
    // same identifier succeeds again.
    assert_eq!(
        t.stop(ident("vm-x").as_ref(), true),
        Err(LifecycleError::NotFound)
    );
    assert_eq!(t.launch(Some(&cfg("vm-x")), true), Ok(()));
}

#[test]
fn stop_of_unknown_identifier_is_not_found() {
    let mut t = VmTable::new();
    assert_eq!(
        t.stop(ident("nobody").as_ref(), true),
        Err(LifecycleError::NotFound)
    );
}

#[test]
fn backend_failure_commits_nothing() {
    let mut t = VmTable::new();
    // A failed creation records nothing: the identifier stays free.
    assert_eq!(
        t.launch(Some(&cfg("a")), false),
        Err(LifecycleError::BackendFailure)
    );
    assert_eq!(t.launch(Some(&cfg("a")), true), Ok(()));
    // A failed stop leaves the machine running: stop may be retried.
    assert_eq!(
        t.stop(ident("a").as_ref(), false),
        Err(LifecycleError::BackendFailure)
    );
    assert_eq!(t.stop(ident("a").as_ref(), true), Ok(()));
    // A failed teardown leaves the machine stopped: cleanup may be retried.
    assert_eq!(
        t.cleanup(ident("a").as_ref(), false),
        Err(LifecycleError::BackendFailure)
    );
    assert_eq!(t.cleanup(ident("a").as_ref(), true), Ok(()));
}

#[test]
fn distinct_identifiers_do_not_interfere() {
    let mut t = VmTable::new();
    assert_eq!(t.launch(Some(&cfg("a")), true), Ok(()));
    assert_eq!(t.launch(Some(&cfg("b")), true), Ok(()));
    assert_eq!(t.stop(ident("a").as_ref(), true), Ok(()));
    // "b" is still running: its own stop succeeds, its cleanup is premature.
    assert_eq!(
        t.cleanup(ident("b").as_ref(), true),
        Err(LifecycleError::InvalidState)
    );
    assert_eq!(t.stop(ident("b").as_ref(), true), Ok(()));
    assert_eq!(t.cleanup(ident("a").as_ref(), true), Ok(()));
    assert_eq!(t.cleanup(ident("b").as_ref(), true), Ok(()));
}
