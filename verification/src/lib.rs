//! Core of a Linux process sandbox for running a single untrusted program
//! under resource caps and syscall filtering.
//!
//! This crate holds the pure, verified logic of the sandbox:
//! * compilation of seccomp rule sets into classic BPF programs,
//! * construction of the argv/envp vectors handed to `execve`,
//! * decoding of wait statuses and resource usage into a run report,
//! * the planning arithmetic for rlimits, the watchdog timer and the
//!   ephemeral cgroup.
//!
//! The side-effectful half of the sandbox (namespaced clone, mounts,
//! chroot, cgroup filesystem writes, descriptor plumbing and the actual
//! `prctl` load of the compiled filter) lives in the accompanying
//! application crate, which consumes the values produced here.

pub mod bpf;
pub mod cgroups;
pub mod denylist;
pub mod error;
pub mod exec_args;
pub mod sandbox;
pub mod seccomp;
pub mod status;
pub mod text;

pub use bpf::sock_filter;
