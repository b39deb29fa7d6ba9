use newbie_sandbox::denylist::deny_syscalls;
use newbie_sandbox::seccomp::{SeccompAction, SeccompArch, SeccompFilter};
use newbie_sandbox::sock_filter;

#[test]
fn deny_list_covers_the_policy_on_x86_64() {
    let list = deny_syscalls(SeccompArch::Amd64);
    assert_eq!(list.len(), 46);
    let numbers: Vec<i64> = list.iter().map(|e| e.0).collect();
    // Spot checks against the kernel's x86_64 syscall table.
    assert_eq!(numbers[0], 163); // acct
    assert!(numbers.contains(&165)); // mount
    assert!(numbers.contains(&101)); // ptrace
    assert!(numbers.contains(&272)); // unshare
    assert_eq!(numbers[45], 136); // ustat
    // The filter is default-allow: ordinary syscalls are not listed.
    assert!(!numbers.contains(&0)); // read
    assert!(!numbers.contains(&1)); // write
    for entry in &list {
        assert_eq!(entry.1.len(), 1);
    }
}

#[test]
fn deny_list_omits_syscalls_foreign_to_aarch64() {
    let list = deny_syscalls(SeccompArch::Aarch64);
    // aarch64 never provided nine of the listed calls.
    assert_eq!(list.len(), 37);
    let numbers: Vec<i64> = list.iter().map(|e| e.0).collect();
    assert_eq!(numbers[0], 89); // acct
    assert!(numbers.contains(&40)); // mount
    assert!(numbers.contains(&117)); // ptrace
    assert_eq!(numbers[36], 282); // userfaultfd
}

#[test]
fn deny_filter_kills_listed_syscalls() {
    let filter =
        SeccompFilter::new(deny_syscalls(SeccompArch::Amd64), SeccompAction::Allow).unwrap();
    let prog = filter.compile().unwrap();
    // One load, 46 five-instruction chains, one default return.
    assert_eq!(prog.len(), 1 + 46 * 5 + 1);
    // Each chain of the compiled policy returns Kill; the terminal
    // returns Allow.
    let kill = sock_filter { code: 0x06, jt: 0, jf: 0, k: 0 };
    let kill_count = prog.iter().filter(|i| **i == kill).count();
    assert_eq!(kill_count, 46);
    // The chain that matches mount (syscall 165) is present.
    let mount_check = sock_filter { code: 0x15, jt: 0, jf: 1, k: 165 };
    assert!(prog.contains(&mount_check));
    assert_eq!(*prog.last().unwrap(), sock_filter { code: 0x06, jt: 0, jf: 0, k: 0x7fff_0000 });
}
