//! The launch-time configuration record and its validity rules.

use vstd::prelude::*;

verus! {

/// A virtual machine configuration as it arrives at the boundary.
///
/// String fields cross the boundary as borrowed, caller-owned buffers that
/// may be absent or not validly encoded; the caller of this library copies
/// each into an owned `String` before any logic runs, and hands `None` for a
/// buffer that was absent or could not be decoded. Validation therefore
/// treats `None` and the empty string alike as invalid.
pub struct VmConfig {
    /// The identifier the machine will be tracked under.
    pub id: Option<String>,
    /// The boot image the machine starts from.
    pub rootfs_image: Option<String>,
    /// Number of virtual processors; zero is rejected.
    pub cpu_count: u32,
    /// Memory in mebibytes; zero is rejected.
    pub memory_mib: u32,
    /// The networking mode, validated for presence; the virtualization
    /// subsystem interprets the named mode.
    pub network_mode: Option<String>,
}

/// A well-formed identifier: present and non-empty. (A string that was not
/// validly encoded never becomes a `String`; it reaches the library as
/// `None`.)
pub open spec fn valid_ident(id: Option<String>) -> bool {
    id is Some && id->0@.len() > 0
}

/// The same rule for an identifier passed by reference.
pub open spec fn valid_ident_ref(id: Option<&String>) -> bool {
    id is Some && id->0@.len() > 0
}

/// A configuration is valid exactly when `id` and `rootfs_image` are valid
/// identifiers, the processor and memory counts are non-zero, and a
/// networking mode is present.
pub open spec fn valid_config(c: VmConfig) -> bool {
    &&& valid_ident(c.id)
    &&& valid_ident(c.rootfs_image)
    &&& c.cpu_count > 0
    &&& c.memory_mib > 0
    &&& valid_ident(c.network_mode)
}

/// Decides whether an identifier field is present and non-empty.
pub fn ident_is_valid(id: &Option<String>) -> (b: bool)
    ensures
        b == valid_ident(*id),
{
    match id {
        None => false,
        Some(s) => !s.as_str().is_empty(),
    }
}

/// Decides whether a configuration satisfies the validity invariant.
pub fn config_is_valid(c: &VmConfig) -> (b: bool)
    ensures
        b == valid_config(*c),
{
    ident_is_valid(&c.id) && ident_is_valid(&c.rootfs_image) && c.cpu_count > 0
        && c.memory_mib > 0 && ident_is_valid(&c.network_mode)
}

} // verus!
