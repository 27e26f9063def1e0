//! The general laws of the boundary, proved over the mathematical table.
//!
//! Each operation's `ensures` ties the executable table to [`spec_launch`],
//! [`spec_stop`] and [`spec_cleanup`], so a law proved here of those
//! functions holds of every run of the library.

use vstd::prelude::*;

use crate::config::{valid_config, VmConfig};
use crate::status::LifecycleError;
use crate::table::{
    spec_cleanup, spec_launch, spec_launch_check, spec_stop, spec_stop_check, VmState,
};

verus! {

/// A launch request with no configuration at all is rejected as an invalid
/// argument and leaves the table unchanged, whatever the table holds and
/// whatever the backend would have answered — it is never consulted.
pub proof fn launch_absent_config_rejected(m: Map<Seq<char>, VmState>, backend_ok: bool)
    ensures
        spec_launch(m, None, backend_ok) == (
            m,
            Err::<(), LifecycleError>(LifecycleError::InvalidArgument),
        ),
{
}

/// A launch whose configuration carries an invalid identifier — absent
/// (which is also how an invalidly encoded buffer arrives) or empty — is
/// rejected as an invalid argument and leaves the table unchanged, whatever
/// the rest of the configuration, the table and the backend outcome.
pub proof fn launch_invalid_identifier_rejected(
    m: Map<Seq<char>, VmState>,
    config: &VmConfig,
    backend_ok: bool,
)
    requires
        config.id is None || config.id->0@.len() == 0,
    ensures
        spec_launch(m, Some(config), backend_ok) == (
            m,
            Err::<(), LifecycleError>(LifecycleError::InvalidArgument),
        ),
{
}

/// A stop or cleanup naming an invalid identifier — absent (which is also
/// how an invalidly encoded buffer arrives) or empty — is rejected as an
/// invalid argument and leaves the table unchanged, whatever the table and
/// the backend outcome.
pub proof fn invalid_identifier_rejected(
    m: Map<Seq<char>, VmState>,
    vm_id: Option<&String>,
    backend_ok: bool,
)
    requires
        vm_id is None || vm_id->0@.len() == 0,
    ensures
        spec_stop(m, vm_id, backend_ok) == (
            m,
            Err::<(), LifecycleError>(LifecycleError::InvalidArgument),
        ),
        spec_cleanup(m, vm_id, backend_ok) == (
            m,
            Err::<(), LifecycleError>(LifecycleError::InvalidArgument),
        ),
{
}

/// While an identifier is tracked — as `Running` or as `Stopped` — any
/// launch naming it, however valid its configuration, is answered
/// `AlreadyExists` with the table unchanged, and the answer does not depend
/// on the backend outcome: the backend is never consulted. Of any number of
/// launches with one identifier, serialised by the table's critical
/// section, only the first can therefore reach the backend's creation
/// primitive or insert an entry; all the others observe `AlreadyExists`.
pub proof fn launch_while_tracked_rejected(
    m: Map<Seq<char>, VmState>,
    config: &VmConfig,
    backend_ok: bool,
)
    requires
        valid_config(*config),
        m.contains_key(config.id->0@),
    ensures
        spec_launch(m, Some(config), backend_ok) == (
            m,
            Err::<(), LifecycleError>(LifecycleError::AlreadyExists),
        ),
{
}

/// Once a launch has succeeded for an identifier, a second launch naming
/// the same identifier — before cleanup — always answers `AlreadyExists`,
/// leaves the table as the first launch left it, and never consults the
/// backend a second time.
pub proof fn second_launch_rejected(
    m: Map<Seq<char>, VmState>,
    first: &VmConfig,
    second: &VmConfig,
    backend_ok: bool,
)
    requires
        spec_launch(m, Some(first), true).1 is Ok,
        valid_config(*second),
        second.id->0@ == first.id->0@,
    ensures
        spec_launch(spec_launch(m, Some(first), true).0, Some(second), backend_ok) == (
            spec_launch(m, Some(first), true).0,
            Err::<(), LifecycleError>(LifecycleError::AlreadyExists),
        ),
{
    let m1 = spec_launch(m, Some(first), true).0;
    assert(m1.contains_key(second.id->0@));
    launch_while_tracked_rejected(m1, second, backend_ok);
}

/// A cleanup can succeed only from the `Stopped` state: whenever a cleanup
/// reports success, the identifier was tracked as `Stopped` when it ran.
pub proof fn cleanup_requires_stopped(
    m: Map<Seq<char>, VmState>,
    vm_id: Option<&String>,
    backend_ok: bool,
)
    requires
        spec_cleanup(m, vm_id, backend_ok).1 is Ok,
    ensures
        m.contains_key(vm_id->0@),
        m[vm_id->0@] == VmState::Stopped,
{
}

/// Only a successful stop ever puts an identifier into the `Stopped`
/// state: neither a launch nor a cleanup — whatever their arguments and
/// backend outcomes — leaves an identifier `Stopped` that was not `Stopped`
/// already. Together with [`cleanup_requires_stopped`], a cleanup can
/// succeed only after a successful stop of the same identifier.
pub proof fn stopped_only_by_stop(
    m: Map<Seq<char>, VmState>,
    config: Option<&VmConfig>,
    vm_id: Option<&String>,
    backend_ok: bool,
    k: Seq<char>,
)
    ensures
        ({
            let after = spec_launch(m, config, backend_ok).0;
            after.contains_key(k) && after[k] == VmState::Stopped ==> m.contains_key(k)
                && m[k] == VmState::Stopped
        }),
        ({
            let after = spec_cleanup(m, vm_id, backend_ok).0;
            after.contains_key(k) && after[k] == VmState::Stopped ==> m.contains_key(k)
                && m[k] == VmState::Stopped
        }),
{
}

/// A cleanup issued right after a successful launch, with no stop in
/// between, is rejected as `InvalidState` — the machine is still running —
/// and leaves the table unchanged, whatever the backend would have
/// answered.
pub proof fn cleanup_before_stop_rejected(
    m: Map<Seq<char>, VmState>,
    config: &VmConfig,
    vm_id: Option<&String>,
    backend_ok: bool,
)
    requires
        spec_launch(m, Some(config), true).1 is Ok,
        vm_id is Some,
        vm_id->0@ == config.id->0@,
    ensures
        spec_cleanup(spec_launch(m, Some(config), true).0, vm_id, backend_ok) == (
            spec_launch(m, Some(config), true).0,
            Err::<(), LifecycleError>(LifecycleError::InvalidState),
        ),
{
}

/// The round trip: a launch, a stop and a cleanup of one identifier, each
/// passing its check and each with a successful backend, all report success
/// and leave the table exactly as it began — in particular without an entry
/// for the identifier — and a further launch of the same configuration
/// passes its check again: an identifier may be reused after full teardown.
pub proof fn round_trip_frees_identifier(
    m: Map<Seq<char>, VmState>,
    config: &VmConfig,
    vm_id: Option<&String>,
)
    requires
        spec_launch_check(m, Some(config)) is Ok,
        vm_id is Some,
        vm_id->0@ == config.id->0@,
    ensures
        ({
            let (m1, r1) = spec_launch(m, Some(config), true);
            let (m2, r2) = spec_stop(m1, vm_id, true);
            let (m3, r3) = spec_cleanup(m2, vm_id, true);
            r1 is Ok && r2 is Ok && r3 is Ok && !m3.contains_key(config.id->0@) && m3 == m
                && spec_launch_check(m3, Some(config)) is Ok
        }),
{
    let k = config.id->0@;
    let (m1, r1) = spec_launch(m, Some(config), true);
    let (m2, r2) = spec_stop(m1, vm_id, true);
    let (m3, r3) = spec_cleanup(m2, vm_id, true);
    assert(spec_stop_check(m1, vm_id) is Ok);
    assert(m3 =~= m);
}

} // verus!
