//! The lifecycle state table and the three boundary operations.

use vstd::prelude::*;

use crate::config::{config_is_valid, valid_config, valid_ident_ref, VmConfig};
use crate::status::LifecycleError;

verus! {

/// The lifecycle state of a tracked virtual machine. An identifier that is
/// absent from the table is unregistered: it has either never been launched
/// or has been fully cleaned up.
#[derive(Clone, Copy, Debug, PartialEq, Eq, Structural)]
pub enum VmState {
    /// Launched and not yet stopped.
    Running,
    /// Stopped and awaiting cleanup.
    Stopped,
}

/// One tracked machine: its identifier and its current state.
struct VmEntry {
    id: String,
    state: VmState,
}

/// The lifecycle table as mathematics: identifier to state, the entries
/// taken in order (the ids are pairwise distinct, so order never matters).
spec fn entries_map(s: Seq<VmEntry>) -> Map<Seq<char>, VmState>
    decreases s.len(),
{
    if s.len() == 0 {
        Map::empty()
    } else {
        entries_map(s.drop_last()).insert(s.last().id@, s.last().state)
    }
}

/// No two entries share an identifier.
spec fn distinct_ids(s: Seq<VmEntry>) -> bool {
    forall|i: int, j: int|
        0 <= i < s.len() && 0 <= j < s.len() && i != j ==> (#[trigger] s[i].id@) != (
        #[trigger] s[j].id@)
}

/// What a launch request must pass before the backend may be invoked:
/// the configuration must be present and valid, and its identifier must not
/// already be tracked as live. The first failure wins, so an invalid
/// configuration is reported as such even when its identifier is also
/// already tracked.
pub open spec fn spec_launch_check(
    m: Map<Seq<char>, VmState>,
    config: Option<&VmConfig>,
) -> Result<(), LifecycleError> {
    match config {
        None => Err(LifecycleError::InvalidArgument),
        Some(c) => if !valid_config(*c) {
            Err(LifecycleError::InvalidArgument)
        } else if m.contains_key(c.id->0@) {
            Err(LifecycleError::AlreadyExists)
        } else {
            Ok(())
        },
    }
}

/// What a stop request must pass: a valid identifier that is tracked and
/// still running. An unknown identifier is `NotFound`; an already stopped
/// one is `InvalidState`, so a caller can tell "never existed" from
/// "already stopped".
pub open spec fn spec_stop_check(
    m: Map<Seq<char>, VmState>,
    vm_id: Option<&String>,
) -> Result<(), LifecycleError> {
    if !valid_ident_ref(vm_id) {
        Err(LifecycleError::InvalidArgument)
    } else if !m.contains_key(vm_id->0@) {
        Err(LifecycleError::NotFound)
    } else if m[vm_id->0@] == VmState::Stopped {
        Err(LifecycleError::InvalidState)
    } else {
        Ok(())
    }
}

/// What a cleanup request must pass: a valid identifier that is tracked and
/// already stopped. Everything else — unknown as well as still running — is
/// `InvalidState`: a machine must be stopped before it may be cleaned up.
pub open spec fn spec_cleanup_check(
    m: Map<Seq<char>, VmState>,
    vm_id: Option<&String>,
) -> Result<(), LifecycleError> {
    if !valid_ident_ref(vm_id) {
        Err(LifecycleError::InvalidArgument)
    } else if !(m.contains_key(vm_id->0@) && m[vm_id->0@] == VmState::Stopped) {
        Err(LifecycleError::InvalidState)
    } else {
        Ok(())
    }
}

/// The launch operation on the mathematical table: the table afterwards and
/// the reported outcome. When the check fails, the result does not depend on
/// the backend outcome at all — the backend is never consulted — and the
/// table is unchanged. When it passes, a successful backend creation inserts
/// the identifier as `Running`; a failed one changes nothing.
pub open spec fn spec_launch(
    m: Map<Seq<char>, VmState>,
    config: Option<&VmConfig>,
    backend_ok: bool,
) -> (Map<Seq<char>, VmState>, Result<(), LifecycleError>) {
    match spec_launch_check(m, config) {
        Err(e) => (m, Err(e)),
        Ok(()) => if backend_ok {
            (m.insert(config->0.id->0@, VmState::Running), Ok(()))
        } else {
            (m, Err(LifecycleError::BackendFailure))
        },
    }
}

/// The stop operation on the mathematical table, in the same shape as
/// [`spec_launch`]: a successful backend stop moves the identifier to
/// `Stopped`; every failure leaves the table unchanged.
pub open spec fn spec_stop(
    m: Map<Seq<char>, VmState>,
    vm_id: Option<&String>,
    backend_ok: bool,
) -> (Map<Seq<char>, VmState>, Result<(), LifecycleError>) {
    match spec_stop_check(m, vm_id) {
        Err(e) => (m, Err(e)),
        Ok(()) => if backend_ok {
            (m.insert(vm_id->0@, VmState::Stopped), Ok(()))
        } else {
            (m, Err(LifecycleError::BackendFailure))
        },
    }
}

/// The cleanup operation on the mathematical table: a successful backend
/// teardown removes the entry, so the identifier becomes unregistered and
/// may be reused; every failure leaves the table unchanged.
pub open spec fn spec_cleanup(
    m: Map<Seq<char>, VmState>,
    vm_id: Option<&String>,
    backend_ok: bool,
) -> (Map<Seq<char>, VmState>, Result<(), LifecycleError>) {
    match spec_cleanup_check(m, vm_id) {
        Err(e) => (m, Err(e)),
        Ok(()) => if backend_ok {
            (m.remove(vm_id->0@), Ok(()))
        } else {
            (m, Err(LifecycleError::BackendFailure))
        },
    }
}

/// The process-wide lifecycle state table: the single owner of every
/// identifier's lifecycle state. A caller serialises the operations on one
/// table (for the foreign boundary, behind one lock), so each runs as an
/// atomic check-invoke-commit section.
pub struct VmTable {
    entries: Vec<VmEntry>,
}

impl View for VmTable {
    type V = Map<Seq<char>, VmState>;

    closed spec fn view(&self) -> Map<Seq<char>, VmState> {
        entries_map(self.entries@)
    }
}

/// Every entry of `entries_map(s)` comes from some entry of `s`.
proof fn lemma_entry_in_map(s: Seq<VmEntry>, i: int)
    requires
        0 <= i < s.len(),
    ensures
        entries_map(s).contains_key(s[i].id@),
    decreases s.len(),
{
    if i < s.len() - 1 {
        lemma_entry_in_map(s.drop_last(), i);
    }
}

/// An identifier that no entry of `s` carries is not in `entries_map(s)`.
proof fn lemma_absent_from_map(s: Seq<VmEntry>, k: Seq<char>)
    requires
        forall|i: int| 0 <= i < s.len() ==> (#[trigger] s[i].id@) != k,
    ensures
        !entries_map(s).contains_key(k),
    decreases s.len(),
{
    if s.len() > 0 {
        lemma_absent_from_map(s.drop_last(), k);
    }
}

/// With distinct identifiers, the map holds exactly each entry's state.
proof fn lemma_entry_state(s: Seq<VmEntry>, i: int)
    requires
        distinct_ids(s),
        0 <= i < s.len(),
    ensures
        entries_map(s).contains_key(s[i].id@),
        entries_map(s)[s[i].id@] == s[i].state,
    decreases s.len(),
{
    if i < s.len() - 1 {
        assert(distinct_ids(s.drop_last()));
        lemma_entry_state(s.drop_last(), i);
    }
}

/// Appending an entry inserts its identifier into the map.
proof fn lemma_map_push(s: Seq<VmEntry>, e: VmEntry)
    ensures
        entries_map(s.push(e)) == entries_map(s).insert(e.id@, e.state),
{
    assert(s.push(e).drop_last() =~= s);
    assert(s.push(e).last() == e);
}

/// With distinct identifiers, removing an entry removes its identifier from
/// the map.
proof fn lemma_map_remove(s: Seq<VmEntry>, i: int)
    requires
        distinct_ids(s),
        0 <= i < s.len(),
    ensures
        entries_map(s.remove(i)) == entries_map(s).remove(s[i].id@),
    decreases s.len(),
{
    let k = s[i].id@;
    if i == s.len() - 1 {
        assert(s.remove(i) =~= s.drop_last());
        assert(forall|j: int|
            0 <= j < s.drop_last().len() ==> (#[trigger] s.drop_last()[j].id@) != k);
        lemma_absent_from_map(s.drop_last(), k);
        assert(entries_map(s.drop_last()).insert(k, s[i].state).remove(k) =~= entries_map(
            s.drop_last(),
        ));
    } else {
        let dl = s.drop_last();
        let last = s.last();
        assert(distinct_ids(dl));
        lemma_map_remove(dl, i);
        assert(s.remove(i).drop_last() =~= dl.remove(i));
        assert(s.remove(i).last() == last);
        assert(entries_map(s.remove(i)) == entries_map(dl.remove(i)).insert(
            last.id@,
            last.state,
        ));
        assert(k != last.id@);
        assert(entries_map(dl).remove(k).insert(last.id@, last.state) =~= entries_map(
            dl,
        ).insert(last.id@, last.state).remove(k));
    }
}

impl VmTable {
    /// The table's invariant: entries carry pairwise distinct identifiers,
    /// so the table is a map.
    #[verifier::type_invariant]
    spec fn wf(self) -> bool {
        distinct_ids(self.entries@)
    }

    /// Creates the empty table: no identifier is tracked.
    pub fn new() -> (t: Self)
        ensures
            t@ == Map::<Seq<char>, VmState>::empty(),
    {
        VmTable { entries: Vec::new() }
    }

    /// The position of the entry tracking `id`, if any.
    fn find_index(&self, id: &String) -> (r: Option<usize>)
        ensures
            match r {
                Some(i) => i < self.entries@.len() && self.entries@[i as int].id@ == id@,
                None => forall|j: int|
                    0 <= j < self.entries@.len() ==> (#[trigger] self.entries@[j].id@) != id@,
            },
    {
        let n = self.entries.len();
        let mut i: usize = 0;
        while i < n
            invariant
                n == self.entries@.len(),
                i <= n,
                forall|j: int| 0 <= j < i ==> (#[trigger] self.entries@[j].id@) != id@,
            decreases n - i,
        {
            if self.entries[i].id == *id {
                return Some(i);
            }
            i = i + 1;
        }
        None
    }

    /// Whether `launch` may proceed to the backend: the validation and
    /// table checks of a launch request, with no side effect. The caller
    /// invokes the backend's creation primitive only when this returns
    /// `Ok`, then reports the outcome to [`Self::launch`] within the same
    /// critical section.
    pub fn check_launch(&self, config: Option<&VmConfig>) -> (r: Result<(), LifecycleError>)
        ensures
            r == spec_launch_check(self@, config),
    {
        proof {
            use_type_invariant(&*self);
        }
        let c = match config {
            None => { return Err(LifecycleError::InvalidArgument) },
            Some(c) => c,
        };
        if !config_is_valid(c) {
            return Err(LifecycleError::InvalidArgument);
        }
        let id: &String = c.id.as_ref().unwrap();
        match self.find_index(id) {
            Some(i) => {
                proof {
                    lemma_entry_in_map(self.entries@, i as int);
                }
                Err(LifecycleError::AlreadyExists)
            },
            None => {
                proof {
                    lemma_absent_from_map(self.entries@, id@);
                }
                Ok(())
            },
        }
    }

    /// Whether `stop` may proceed to the backend; no side effect.
    pub fn check_stop(&self, vm_id: Option<&String>) -> (r: Result<(), LifecycleError>)
        ensures
            r == spec_stop_check(self@, vm_id),
    {
        proof {
            use_type_invariant(&*self);
        }
        let id = match vm_id {
            None => { return Err(LifecycleError::InvalidArgument) },
            Some(id) => id,
        };
        if id.as_str().is_empty() {
            return Err(LifecycleError::InvalidArgument);
        }
        match self.find_index(id) {
            None => {
                proof {
                    lemma_absent_from_map(self.entries@, id@);
                }
                Err(LifecycleError::NotFound)
            },
            Some(i) => {
                proof {
                    lemma_entry_state(self.entries@, i as int);
                }
                match self.entries[i].state {
                    VmState::Stopped => Err(LifecycleError::InvalidState),
                    VmState::Running => Ok(()),
                }
            },
        }
    }

    /// Whether `cleanup` may proceed to the backend; no side effect.
    pub fn check_cleanup(&self, vm_id: Option<&String>) -> (r: Result<(), LifecycleError>)
        ensures
            r == spec_cleanup_check(self@, vm_id),
    {
        proof {
            use_type_invariant(&*self);
        }
        let id = match vm_id {
            None => { return Err(LifecycleError::InvalidArgument) },
            Some(id) => id,
        };
        if id.as_str().is_empty() {
            return Err(LifecycleError::InvalidArgument);
        }
        match self.find_index(id) {
            None => {
                proof {
                    lemma_absent_from_map(self.entries@, id@);
                }
                Err(LifecycleError::InvalidState)
            },
            Some(i) => {
                proof {
                    lemma_entry_state(self.entries@, i as int);
                }
                match self.entries[i].state {
                    VmState::Running => Err(LifecycleError::InvalidState),
                    VmState::Stopped => Ok(()),
                }
            },
        }
    }

    /// The launch operation. `backend_ok` is the outcome of the backend's
    /// creation primitive, which the caller invokes only after
    /// [`Self::check_launch`] has passed; when the check fails here, the
    /// reported error and the unchanged table do not depend on `backend_ok`
    /// at all. On a passed check and a successful backend creation, the
    /// identifier is inserted as `Running`; on a failed one, nothing was
    /// recorded and nothing is rolled back.
    pub fn launch(&mut self, config: Option<&VmConfig>, backend_ok: bool) -> (r: Result<
        (),
        LifecycleError,
    >)
        ensures
            final(self)@ == spec_launch(old(self)@, config, backend_ok).0,
            r == spec_launch(old(self)@, config, backend_ok).1,
    {
        proof {
            use_type_invariant(&*self);
        }
        if let Err(e) = self.check_launch(config) {
            return Err(e);
        }
        if !backend_ok {
            return Err(LifecycleError::BackendFailure);
        }
        let c = config.unwrap();
        let id = c.id.as_ref().unwrap().clone();
        proof {
            lemma_absent_from_map_converse(self.entries@, id@);
        }
        let mut entries: Vec<VmEntry> = Vec::new();
        std::mem::swap(&mut entries, &mut self.entries);
        let ghost s = entries@;
        entries.push(VmEntry { id, state: VmState::Running });
        proof {
            lemma_map_push(s, entries@.last());
        }
        self.entries = entries;
        Ok(())
    }

    /// The stop operation, in the same shape as [`Self::launch`]: the
    /// caller invokes the backend's stop primitive only after
    /// [`Self::check_stop`] has passed and reports the outcome here. On
    /// success the identifier moves to `Stopped`; on backend failure the
    /// machine is presumed still running and the table is unchanged.
    pub fn stop(&mut self, vm_id: Option<&String>, backend_ok: bool) -> (r: Result<
        (),
        LifecycleError,
    >)
        ensures
            final(self)@ == spec_stop(old(self)@, vm_id, backend_ok).0,
            r == spec_stop(old(self)@, vm_id, backend_ok).1,
    {
        proof {
            use_type_invariant(&*self);
        }
        if let Err(e) = self.check_stop(vm_id) {
            return Err(e);
        }
        if !backend_ok {
            return Err(LifecycleError::BackendFailure);
        }
        let id = vm_id.unwrap();
        let i = match self.find_index(id) {
            None => {
                proof {
                    lemma_absent_from_map(self.entries@, id@);
                }
                return Err(LifecycleError::NotFound);
            },
            Some(i) => i,
        };
        let mut entries: Vec<VmEntry> = Vec::new();
        std::mem::swap(&mut entries, &mut self.entries);
        let ghost s = entries@;
        let e = entries.remove(i);
        entries.push(VmEntry { id: e.id, state: VmState::Stopped });
        proof {
            lemma_map_remove(s, i as int);
            lemma_map_push(s.remove(i as int), entries@.last());
            assert(distinct_ids(s.remove(i as int))) by {
                assert(forall|j: int|
                    0 <= j < s.remove(i as int).len() ==> (#[trigger] s.remove(i as int)[j])
                        == if j < i as int {
                        s[j]
                    } else {
                        s[j + 1]
                    });
            }
            assert(entries_map(s).remove(id@).insert(id@, VmState::Stopped) =~= entries_map(
                s,
            ).insert(id@, VmState::Stopped));
        }
        self.entries = entries;
        Ok(())
    }

    /// The cleanup operation, in the same shape as [`Self::launch`]: the
    /// caller invokes the backend's teardown primitive only after
    /// [`Self::check_cleanup`] has passed and reports the outcome here. On
    /// success the entry is removed, so the identifier becomes unregistered
    /// and may be reused; on backend failure the table is unchanged.
    pub fn cleanup(&mut self, vm_id: Option<&String>, backend_ok: bool) -> (r: Result<
        (),
        LifecycleError,
    >)
        ensures
            final(self)@ == spec_cleanup(old(self)@, vm_id, backend_ok).0,
            r == spec_cleanup(old(self)@, vm_id, backend_ok).1,
    {
        proof {
            use_type_invariant(&*self);
        }
        if let Err(e) = self.check_cleanup(vm_id) {
            return Err(e);
        }
        if !backend_ok {
            return Err(LifecycleError::BackendFailure);
        }
        let id = vm_id.unwrap();
        let i = match self.find_index(id) {
            None => {
                proof {
                    lemma_absent_from_map(self.entries@, id@);
                }
                return Err(LifecycleError::InvalidState);
            },
            Some(i) => i,
        };
        let mut entries: Vec<VmEntry> = Vec::new();
        std::mem::swap(&mut entries, &mut self.entries);
        let ghost s = entries@;
        entries.remove(i);
        proof {
            lemma_map_remove(s, i as int);
            assert(distinct_ids(s.remove(i as int))) by {
                assert(forall|j: int|
                    0 <= j < s.remove(i as int).len() ==> (#[trigger] s.remove(i as int)[j])
                        == if j < i as int {
                        s[j]
                    } else {
                        s[j + 1]
                    });
            }
        }
        self.entries = entries;
        Ok(())
    }
}

/// An identifier in `entries_map(s)` is carried by some entry of `s`.
proof fn lemma_absent_from_map_converse(s: Seq<VmEntry>, k: Seq<char>)
    requires
        !entries_map(s).contains_key(k),
    ensures
        forall|i: int| 0 <= i < s.len() ==> (#[trigger] s[i].id@) != k,
{
    assert forall|i: int| 0 <= i < s.len() implies (#[trigger] s[i].id@) != k by {
        if s[i].id@ == k {
            lemma_entry_in_map(s, i);
        }
    }
}

} // verus!
