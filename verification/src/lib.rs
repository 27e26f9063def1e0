//! Boundary validation and lifecycle tracking for virtual machine instances.
//!
//! An external caller drives the lifecycle of virtual machines through three
//! operations: launch, stop and cleanup. Every value crossing the boundary is
//! validated before it may reach the virtualization subsystem, and a
//! process-wide table tracks which identifier is in which lifecycle state.
//! The table enforces the legal transitions
//! `Unregistered -> Running -> Stopped -> Unregistered`; every other request
//! is rejected with a distinct error and leaves the table untouched.
//!
//! The virtualization subsystem itself (the backend) is an external
//! collaborator: the caller invokes its primitive only when the corresponding
//! check here has passed, and reports the outcome back, so an operation takes
//! the backend outcome as an argument and commits a transition only on
//! success.

pub mod config;
pub mod laws;
pub mod status;
pub mod table;
