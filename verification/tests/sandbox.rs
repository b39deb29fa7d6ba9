use newbie_sandbox::cgroups::CGroupOptions;
use newbie_sandbox::error::{ConfigField, Error};
use newbie_sandbox::sandbox::Sandbox;

#[test]
fn new_has_documented_defaults() {
    let s = Sandbox::new(vec![String::from("/bin/echo")]);
    assert_eq!(s.inner_args, vec!["/usr/bin/runit", "/bin/echo"]);
    assert_eq!(s.workdir, "");
    assert_eq!(s.rootfs, "");
    assert_eq!(s.result_fd, 1);
    assert_eq!(s.stdin_fd, 0);
    assert_eq!(s.stdout_fd, 1);
    assert_eq!(s.stderr_fd, 2);
    assert_eq!(s.time_limit, None);
    assert_eq!(s.memory_limit, None);
    assert_eq!(s.file_size_limit, None);
    assert_eq!(s.cgroup, 1);
    assert_eq!(s.pids, 0);
}

#[test]
fn zero_limits_mean_no_limit() {
    let s = Sandbox::new(vec![String::from("/bin/true")])
        .time_limit(0)
        .memory_limit(0)
        .file_size_limit(0);
    assert_eq!(s.time_limit, None);
    assert_eq!(s.memory_limit, None);
    assert_eq!(s.file_size_limit, None);
    let plan = s.rlimits();
    assert_eq!(plan.cpu_seconds, None);
    assert_eq!(plan.address_space_bytes, None);
    assert_eq!(plan.file_size, None);
    // No time limit means no watchdog either.
    assert_eq!(s.timer_delay_seconds(), None);
}

#[test]
fn cpu_rlimit_formula() {
    let s = Sandbox::new(vec![String::from("/bin/true")]).time_limit(1000);
    assert_eq!(s.rlimits().cpu_seconds, Some(2));
    // A remainder above 800 ms buys one more second.
    let s = Sandbox::new(vec![String::from("/bin/true")]).time_limit(1900);
    assert_eq!(s.rlimits().cpu_seconds, Some(3));
    let s = Sandbox::new(vec![String::from("/bin/true")]).time_limit(1800);
    assert_eq!(s.rlimits().cpu_seconds, Some(2));
}

#[test]
fn watchdog_delay_formula() {
    let s = Sandbox::new(vec![String::from("/bin/true")]).time_limit(1000);
    assert_eq!(s.timer_delay_seconds(), Some(3));
    let s = Sandbox::new(vec![String::from("/bin/true")]).time_limit(2500);
    assert_eq!(s.timer_delay_seconds(), Some(4));
}

#[test]
fn one_kib_memory_limit_gives_2048_bytes() {
    let s = Sandbox::new(vec![String::from("/bin/true")]).memory_limit(1);
    assert_eq!(s.rlimits().address_space_bytes, Some(2048));
    let s = Sandbox::new(vec![String::from("/bin/true")]).memory_limit(10240);
    assert_eq!(s.rlimits().address_space_bytes, Some(2 * 10240 * 1024));
}

#[test]
fn file_size_limit_is_taken_directly() {
    let s = Sandbox::new(vec![String::from("/bin/true")]).file_size_limit(999);
    assert_eq!(s.rlimits().file_size, Some(999));
}

#[test]
fn cgroup_version_validation() {
    let s = Sandbox::new(vec![String::from("/bin/true")]).cgroup(2);
    assert_eq!(s.cgroup, 2);
    let s = Sandbox::new(vec![String::from("/bin/true")]).cgroup(3);
    assert_eq!(s.cgroup, 1);
    let s = Sandbox::new(vec![String::from("/bin/true")]).pids(-4);
    assert_eq!(s.pids, 0);
}

#[test]
fn cgroup_plan_adds_pyramid_processes() {
    let s = Sandbox::new(vec![String::from("/bin/true")]).cgroup(2).pids(5);
    let o = s.cgroup_plan().unwrap();
    assert_eq!(o.version, 2);
    assert_eq!(o.pids, 8);
    let s = Sandbox::new(vec![String::from("/bin/true")]);
    assert_eq!(s.cgroup_plan().unwrap().pids, 0);
}

#[test]
fn pids_limit_needs_a_cgroup_version() {
    // The builders only accept versions 1 and 2, but the fields are open;
    // a pids limit on any other version is refused, not silently dropped.
    let mut s = Sandbox::new(vec![String::from("/bin/true")]).pids(5);
    s.cgroup = 3;
    assert!(matches!(
        s.cgroup_plan(),
        Err(Error::ConfigInvalid(ConfigField::CGroupVersion))
    ));
    assert!(matches!(
        s.run_plan(),
        Err(Error::ConfigInvalid(ConfigField::CGroupVersion))
    ));
    // Without a pids limit there is nothing to hold, so any version is
    // acceptable and no group is asked for.
    s.pids = 0;
    let o = s.cgroup_plan().unwrap();
    assert_eq!(o.pids, 0);
    assert!(!o.wants_v1());
    assert!(!o.wants_v2());
}

#[test]
fn negative_limits_mean_no_limit() {
    let s = Sandbox::new(vec![String::from("/bin/true")])
        .time_limit(-5)
        .memory_limit(-1)
        .file_size_limit(-100);
    assert_eq!(s.time_limit, None);
    assert_eq!(s.memory_limit, None);
    assert_eq!(s.file_size_limit, None);
}

#[test]
fn no_pids_limit_writes_no_pids_max() {
    let o = CGroupOptions { version: 2, pids: 0 };
    assert!(o.pids_max_content().is_none());
    assert!(!o.wants_v1());
    assert!(o.wants_v2());
    let o = CGroupOptions { version: 1, pids: 0 };
    assert!(!o.wants_v1());
    assert!(!o.wants_v2());
}

#[test]
fn pids_limit_contents() {
    let o = CGroupOptions { version: 1, pids: 8 };
    assert!(o.wants_v1());
    assert_eq!(o.pids_max_content(), Some(b"8".to_vec()));
    assert_eq!(CGroupOptions::procs_content(1234), b"1234".to_vec());
}

#[test]
fn run_plan_assembles_everything() {
    let s = Sandbox::new(vec![String::from("/bin/echo"), String::from("hi")])
        .time_limit(1000)
        .memory_limit(1024)
        .cgroup(2)
        .pids(5);
    let p = s.run_plan().unwrap();
    assert_eq!(p.exec_args.pathname, b"/usr/bin/runit".to_vec());
    assert_eq!(p.exec_args.argv.len(), 3);
    assert_eq!(p.cgroup.version, 2);
    assert_eq!(p.cgroup.pids, 8);
    assert_eq!(p.rlimits.cpu_seconds, Some(2));
    assert_eq!(p.rlimits.address_space_bytes, Some(2 * 1024 * 1024));
    assert_eq!(p.timer_delay_seconds, Some(3));
}

#[test]
fn nul_in_command_fails_before_any_plan() {
    let s = Sandbox::new(vec![String::from("/bin/e\0cho")]);
    assert!(matches!(s.run_plan(), Err(Error::InvalidString(6))));
}
