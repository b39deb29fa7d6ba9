//! Planning of the ephemeral cgroup that caps the process count.
//!
//! The decisions — which hierarchy to use, whether a group is created at
//! all, and the exact bytes written into its control files — are made
//! here.  Creating the temporary directory, writing the files and tearing
//! the group down are filesystem work done by the surrounding application,
//! which follows this plan.

use vstd::prelude::*;

use crate::text::{i64_to_dec, spec_dec_i64};

verus! {

/// What a run asks of the cgroup manager.
///
/// The planning step that produces these options rejects a pids limit on
/// a version other than 1 or 2, so a limit carried here is always one
/// that some hierarchy can hold.
pub struct CGroupOptions {
    /// The cgroup hierarchy version, 1 or 2.
    pub version: i32,
    /// The largest number of processes allowed in the group, 0 for no
    /// limit.
    pub pids: i32,
}

/// Handle of an ephemeral v1 group: the directory under the pids
/// controller, if one was created.
pub struct CGroupV1 {
    /// Host path of the group's directory under the pids hierarchy.
    pub pids_path: Option<String>,
}

/// Handle of an ephemeral v2 group.
pub struct CGroupV2 {
    /// Host path of the group's directory.
    pub path: String,
}

/// Handle of whatever group a run created; at most one of the two is
/// present.
pub struct CGroup {
    /// The v1 group, when version 1 was chosen and a pids limit is set.
    pub v1: Option<CGroupV1>,
    /// The v2 group, when version 2 was chosen.
    pub v2: Option<CGroupV2>,
}

impl CGroupOptions {
    /// Whether a v1 group is created.  The v1 hierarchy used here carries
    /// only the pids controller, so without a pids limit there is nothing
    /// to put in it and no group is made.
    pub fn wants_v1(&self) -> (b: bool)
        ensures
            b == (self.version == 1 && self.pids > 0),
    {
        self.version == 1 && self.pids > 0
    }

    /// Whether a v2 group is created.  A v2 group is made even without a
    /// pids limit, so that the run's descendants are migrated out of the
    /// caller's group.
    pub fn wants_v2(&self) -> (b: bool)
        ensures
            b == (self.version == 2),
    {
        self.version == 2
    }

    /// The bytes written to the group's `cgroup.procs` file to enroll a
    /// process.
    pub fn procs_content(pid: i32) -> (r: Vec<u8>)
        ensures
            r@ == spec_dec_i64(pid as int),
    {
        i64_to_dec(pid as i64)
    }

    /// The bytes written to the group's `pids.max` file, or nothing when
    /// no pids limit is set: a run without a limit writes no `pids.max`.
    pub fn pids_max_content(&self) -> (r: Option<Vec<u8>>)
        ensures
            self.pids <= 0 ==> r is None,
            self.pids > 0 ==> (r matches Some(v) && v@ == spec_dec_i64(self.pids as int)),
    {
        if self.pids > 0 {
            Some(i64_to_dec(self.pids as i64))
        } else {
            None
        }
    }
}

} // verus!
