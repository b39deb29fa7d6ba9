//! The sandbox configuration and the plan of a run.
//!
//! A [`Sandbox`] is assembled by the builder methods below, mirroring the
//! command line.  From it, [`Sandbox::run_plan`] computes everything a run
//! decides ahead of time: the execve vectors, the cgroup request, the
//! rlimit values and the watchdog delay.  The surrounding application
//! performs the namespaced clone, the in-child security pipeline and the
//! waits, following this plan.

use vstd::prelude::*;
use vstd::string::StringExecFns;

use crate::cgroups::CGroupOptions;
use crate::error::{ConfigField, Error};
use crate::exec_args::{built_from, has_nul, is_first_nul, ExecArgs};
use crate::text::str_bytes;

verus! {

/// Size in bytes of the stack mapped for the cloned child.
pub const STACK_SIZE: usize = 1048576;

/// The address-space rlimit is set to this multiple of the configured
/// memory limit: the cap is deliberately doubled to leave room for
/// mapping overhead while still catching runaway allocations.
pub const ADDRESS_SPACE_FACTOR: u64 = 2;

/// Number of processes the pyramid itself adds to the cgroup: the cloned
/// namespace init, the forked intermediate and the execve target.
pub const PYRAMID_PROCESSES: i32 = 3;

/// Configuration of a single run.
pub struct Sandbox {
    /// The command to run, prefixed with the in-sandbox runner path.
    pub inner_args: Vec<String>,
    /// Host path bind-mounted at `/tmp` inside the sandbox.
    pub workdir: String,
    /// Host path of the pre-populated root filesystem.
    pub rootfs: String,
    /// Descriptor the result report is written to.
    pub result_fd: i32,
    /// Descriptor the target's stdin is redirected from.
    pub stdin_fd: i32,
    /// Descriptor the target's stdout is redirected to.
    pub stdout_fd: i32,
    /// Descriptor the target's stderr is redirected to.
    pub stderr_fd: i32,
    /// CPU time cap in milliseconds, if any.
    pub time_limit: Option<i32>,
    /// Address-space cap in kibibytes, if any.
    pub memory_limit: Option<i32>,
    /// File-size write cap in bits, if any.
    pub file_size_limit: Option<i32>,
    /// The cgroup hierarchy version, 1 or 2.
    pub cgroup: i32,
    /// Cap on the number of processes, 0 for no limit.
    pub pids: i32,
}

/// The rlimit values installed in the child before `execve`.
pub struct RlimitPlan {
    /// `RLIMIT_CPU` in seconds, if a time limit is set.
    pub cpu_seconds: Option<u64>,
    /// `RLIMIT_AS` in bytes, if a memory limit is set.
    pub address_space_bytes: Option<u64>,
    /// `RLIMIT_FSIZE`, if a file-size limit is set.
    pub file_size: Option<u64>,
}

/// Everything a run decides before touching the system.
pub struct RunPlan {
    /// The execve vectors of the target.
    pub exec_args: ExecArgs,
    /// What the cgroup manager is asked to build.
    pub cgroup: CGroupOptions,
    /// The rlimit values installed in the child.
    pub rlimits: RlimitPlan,
    /// Seconds the watchdog sleeps before killing the target, if a time
    /// limit is set.
    pub timer_delay_seconds: Option<u64>,
}

/// The `RLIMIT_CPU` value for a time limit: the limit in whole seconds
/// plus one, plus one more when the remainder is over 800 ms.
pub open spec fn spec_cpu_rlimit(time_limit: Option<i32>) -> Option<u64> {
    match time_limit {
        Some(t) => Some(
            ((t / 1000 + 1) + if t % 1000 > 800 {
                1int
            } else {
                0int
            }) as u64,
        ),
        None => None,
    }
}

/// The `RLIMIT_AS` value for a memory limit in kibibytes: the limit in
/// bytes times [`ADDRESS_SPACE_FACTOR`].
pub open spec fn spec_address_space_rlimit(memory_limit: Option<i32>) -> Option<u64> {
    match memory_limit {
        Some(m) => Some((m * 1024 * ADDRESS_SPACE_FACTOR) as u64),
        None => None,
    }
}

/// The `RLIMIT_FSIZE` value for a file-size limit.
pub open spec fn spec_file_size_rlimit(file_size_limit: Option<i32>) -> Option<u64> {
    match file_size_limit {
        Some(f) => Some(f as u64),
        None => None,
    }
}

/// The watchdog delay for a time limit: the limit in whole seconds plus a
/// two-second buffer.  The watchdog is a wall-clock backstop behind
/// `RLIMIT_CPU`, for targets that block instead of burning CPU.
pub open spec fn spec_timer_delay(time_limit: Option<i32>) -> Option<u64> {
    match time_limit {
        Some(t) => Some((t / 1000 + 2) as u64),
        None => None,
    }
}

impl Sandbox {
    /// The command of the run, prefixed with the in-sandbox runner path.
    pub open spec fn spec_inner_args(self) -> Seq<String> {
        self.inner_args@
    }

    /// The command vector is never empty: it always starts with the
    /// runner path.
    pub open spec fn wf(self) -> bool {
        self.spec_inner_args().len() > 0
    }

    /// Limits carried by the configuration are positive: a limit that is
    /// not positive is represented by the absence of the option, as the
    /// builders below establish.
    pub open spec fn limits_positive(self) -> bool {
        &&& (self.time_limit matches Some(t) ==> t > 0)
        &&& (self.memory_limit matches Some(m) ==> m > 0)
        &&& (self.file_size_limit matches Some(f) ==> f > 0)
    }

    /// A pids limit can only be honoured by cgroup version 1 or 2: any
    /// other version together with a positive pids limit is an invalid
    /// configuration, which planning rejects with
    /// [`Error::ConfigInvalid`].
    pub open spec fn cgroup_config_valid(self) -> bool {
        self.cgroup == 1 || self.cgroup == 2 || self.pids <= 0
    }

    /// Creates a configuration for the given command, with inherited
    /// standard descriptors, no limits, and cgroup version 1.
    pub fn new(args: Vec<String>) -> (r: Self)
        ensures
            r.wf(),
            r.spec_inner_args().len() == args@.len() + 1,
            r.spec_inner_args()[0]@ == "/usr/bin/runit"@,
            forall|i: int|
                0 <= i < args@.len() ==> r.spec_inner_args()[i + 1] == #[trigger] args@[i],
            r.workdir@ == Seq::<char>::empty(),
            r.rootfs@ == Seq::<char>::empty(),
            r.result_fd == 1,
            r.stdin_fd == 0,
            r.stdout_fd == 1,
            r.stderr_fd == 2,
            r.time_limit is None,
            r.memory_limit is None,
            r.file_size_limit is None,
            r.cgroup == 1,
            r.pids == 0,
            r.limits_positive(),
    {
        let mut v: Vec<String> = Vec::new();
        v.push(String::from_str("/usr/bin/runit"));
        let mut rest = args;
        v.append(&mut rest);
        Sandbox {
            inner_args: v,
            workdir: String::new(),
            rootfs: String::new(),
            result_fd: 1,
            stdin_fd: 0,
            stdout_fd: 1,
            stderr_fd: 2,
            time_limit: None,
            memory_limit: None,
            file_size_limit: None,
            cgroup: 1,
            pids: 0,
        }
    }

    /// Sets the working directory bind-mounted at `/tmp` inside the
    /// sandbox.
    pub fn workdir(self, s: String) -> (r: Self)
        ensures
            r == (Sandbox { workdir: s, ..self }),
    {
        Sandbox { workdir: s, ..self }
    }

    /// Sets the root filesystem path.
    pub fn rootfs(self, s: String) -> (r: Self)
        ensures
            r == (Sandbox { rootfs: s, ..self }),
    {
        Sandbox { rootfs: s, ..self }
    }

    /// Sets the CPU time limit in milliseconds; a value that is not
    /// positive means no limit and leaves the configuration unchanged, so
    /// a built configuration always satisfies [`Sandbox::limits_positive`].
    pub fn time_limit(self, l: i32) -> (r: Self)
        ensures
            l > 0 ==> r == (Sandbox { time_limit: Some(l), ..self }),
            l <= 0 ==> r == self,
    {
        if l > 0 {
            Sandbox { time_limit: Some(l), ..self }
        } else {
            self
        }
    }

    /// Sets the memory limit in kibibytes; a value that is not positive
    /// means no limit.
    pub fn memory_limit(self, l: i32) -> (r: Self)
        ensures
            l > 0 ==> r == (Sandbox { memory_limit: Some(l), ..self }),
            l <= 0 ==> r == self,
    {
        if l > 0 {
            Sandbox { memory_limit: Some(l), ..self }
        } else {
            self
        }
    }

    /// Sets the file-size limit in bits; a value that is not positive
    /// means no limit.
    pub fn file_size_limit(self, l: i32) -> (r: Self)
        ensures
            l > 0 ==> r == (Sandbox { file_size_limit: Some(l), ..self }),
            l <= 0 ==> r == self,
    {
        if l > 0 {
            Sandbox { file_size_limit: Some(l), ..self }
        } else {
            self
        }
    }

    /// Selects the cgroup hierarchy version; values other than 1 and 2
    /// leave the configuration unchanged.
    pub fn cgroup(self, l: i32) -> (r: Self)
        ensures
            l == 1 || l == 2 ==> r == (Sandbox { cgroup: l, ..self }),
            !(l == 1 || l == 2) ==> r == self,
    {
        if l == 1 || l == 2 {
            Sandbox { cgroup: l, ..self }
        } else {
            self
        }
    }

    /// Sets the cap on the number of processes; values that are not
    /// positive leave the configuration unchanged.
    pub fn pids(self, l: i32) -> (r: Self)
        ensures
            l > 0 ==> r == (Sandbox { pids: l, ..self }),
            l <= 0 ==> r == self,
    {
        if l > 0 {
            Sandbox { pids: l, ..self }
        } else {
            self
        }
    }

    /// Builds the execve vectors for the run's command.
    pub fn exec_args(&self) -> (r: Result<ExecArgs, Error>)
        requires
            self.wf(),
        ensures
            r is Ok <==> (forall|i: int|
                0 <= i < self.spec_inner_args().len() ==> !has_nul(
                    str_bytes((#[trigger] self.spec_inner_args()[i])@),
                )),
            r matches Ok(e) ==> built_from(e, self.spec_inner_args()),
            r matches Err(e) ==> (e matches Error::InvalidString(p) && (exists|i: int|
                {
                    &&& 0 <= i < self.spec_inner_args().len()
                    &&& is_first_nul(str_bytes((#[trigger] self.spec_inner_args()[i])@), p as int)
                    &&& forall|k: int|
                        0 <= k < i ==> !has_nul(str_bytes(self.spec_inner_args()[k]@))
                })),
    {
        ExecArgs::build(&self.inner_args)
    }

    /// The rlimit values installed in the child before `execve`.
    pub fn rlimits(&self) -> (r: RlimitPlan)
        requires
            self.limits_positive(),
        ensures
            r.cpu_seconds == spec_cpu_rlimit(self.time_limit),
            r.address_space_bytes == spec_address_space_rlimit(self.memory_limit),
            r.file_size == spec_file_size_rlimit(self.file_size_limit),
            r.cpu_seconds is Some <==> self.time_limit is Some,
            r.address_space_bytes is Some <==> self.memory_limit is Some,
            r.file_size is Some <==> self.file_size_limit is Some,
    {
        let cpu_seconds = match self.time_limit {
            Some(t) => {
                let mut secs = (t / 1000 + 1) as u64;
                if t % 1000 > 800 {
                    secs = secs + 1;
                }
                Some(secs)
            },
            None => None,
        };
        let address_space_bytes = match self.memory_limit {
            Some(m) => Some((m as u64) * 1024 * ADDRESS_SPACE_FACTOR),
            None => None,
        };
        let file_size = match self.file_size_limit {
            Some(f) => Some(f as u64),
            None => None,
        };
        RlimitPlan { cpu_seconds, address_space_bytes, file_size }
    }

    /// How long the watchdog sleeps before sending `SIGKILL` to the
    /// target: the time limit in whole seconds plus two.  Without a time
    /// limit there is no watchdog at all.
    pub fn timer_delay_seconds(&self) -> (r: Option<u64>)
        requires
            self.limits_positive(),
        ensures
            r == spec_timer_delay(self.time_limit),
            r is Some <==> self.time_limit is Some,
    {
        match self.time_limit {
            Some(t) => Some((t / 1000 + 2) as u64),
            None => None,
        }
    }

    /// What the cgroup manager is asked to build: the configured version,
    /// and — when a pids limit is set — the limit raised by the three
    /// processes of the pyramid itself, so that the cap observed by the
    /// target matches the configured one.
    ///
    /// A positive pids limit with a version other than 1 or 2 is refused:
    /// no hierarchy could hold the cap, and dropping it silently would
    /// leave the caller without the protection it asked for.
    pub fn cgroup_plan(&self) -> (r: Result<CGroupOptions, Error>)
        requires
            self.pids <= i32::MAX - PYRAMID_PROCESSES,
        ensures
            r is Ok <==> self.cgroup_config_valid(),
            r matches Err(e) ==> e == Error::ConfigInvalid(ConfigField::CGroupVersion),
            r matches Ok(o) ==> {
                &&& o.version == self.cgroup
                &&& (self.pids > 0 ==> o.pids == self.pids + PYRAMID_PROCESSES)
                &&& (self.pids <= 0 ==> o.pids == 0)
            },
    {
        if self.pids > 0 && !(self.cgroup == 1 || self.cgroup == 2) {
            return Err(Error::ConfigInvalid(ConfigField::CGroupVersion));
        }
        let pids = if self.pids > 0 {
            self.pids + PYRAMID_PROCESSES
        } else {
            0
        };
        Ok(CGroupOptions { version: self.cgroup, pids })
    }

    /// Everything a run decides ahead of time, in one value.
    ///
    /// The execve vectors are built first: a command with an interior NUL
    /// fails here, before any plan exists — so before any cgroup is
    /// created or any child cloned.  The cgroup configuration is checked
    /// next: a pids limit on a version other than 1 or 2 fails with
    /// [`Error::ConfigInvalid`], equally before anything is created.
    pub fn run_plan(&self) -> (r: Result<RunPlan, Error>)
        requires
            self.wf(),
            self.limits_positive(),
            self.pids <= i32::MAX - PYRAMID_PROCESSES,
        ensures
            r is Ok <==> (self.cgroup_config_valid() && forall|i: int|
                0 <= i < self.spec_inner_args().len() ==> !has_nul(
                    str_bytes((#[trigger] self.spec_inner_args()[i])@),
                )),
            r matches Ok(p) ==> {
                &&& built_from(p.exec_args, self.spec_inner_args())
                &&& p.cgroup.version == self.cgroup
                &&& (self.pids > 0 ==> p.cgroup.pids == self.pids + PYRAMID_PROCESSES)
                &&& (self.pids <= 0 ==> p.cgroup.pids == 0)
                &&& p.rlimits.cpu_seconds == spec_cpu_rlimit(self.time_limit)
                &&& p.rlimits.address_space_bytes == spec_address_space_rlimit(self.memory_limit)
                &&& p.rlimits.file_size == spec_file_size_rlimit(self.file_size_limit)
                &&& p.timer_delay_seconds == spec_timer_delay(self.time_limit)
            },
            r matches Err(Error::InvalidString(p)) ==> (exists|i: int|
                {
                    &&& 0 <= i < self.spec_inner_args().len()
                    &&& is_first_nul(str_bytes((#[trigger] self.spec_inner_args()[i])@), p as int)
                }),
            r matches Err(Error::ConfigInvalid(f)) ==> f == ConfigField::CGroupVersion
                && !self.cgroup_config_valid() && (forall|i: int|
                0 <= i < self.spec_inner_args().len() ==> !has_nul(
                    str_bytes((#[trigger] self.spec_inner_args()[i])@),
                )),
    {
        let built = match self.exec_args() {
            Ok(e) => e,
            Err(err) => {
                return Err(err);
            },
        };
        let cgroup = match self.cgroup_plan() {
            Ok(o) => o,
            Err(err) => {
                return Err(err);
            },
        };
        Ok(
            RunPlan {
                exec_args: built,
                cgroup,
                rlimits: self.rlimits(),
                timer_delay_seconds: self.timer_delay_seconds(),
            },
        )
    }
}

} // verus!
