//! The fixed syscall deny list of the sandbox.
//!
//! Every target runs under a default-allow filter that applies `Kill` to
//! the syscalls below, mirroring the significant syscalls blocked by
//! well-known container defaults: module loading, kexec, raw tracing,
//! mount manipulation, clock setting, and the other administrative calls
//! a judged program has no business making.  The numbers are the kernel's
//! per-architecture syscall numbers; aarch64 never provided nine of the
//! calls (the obsolete module interface, the x86 port calls, `sysfs`,
//! `_sysctl`, `uselib` and `ustat`), so its list omits them.

use vstd::prelude::*;

use crate::bpf::{spec_bpf_eval, SeccompData};
use crate::seccomp::{
    deny_syscall, has_key, lemma_chain_of_has_key, lemma_chain_of_index,
    lemma_collect_chain_has_key, lemma_collect_single_kill, lemma_deny_listed_syscall_killed,
    lemma_installable_program_eval, lemma_match32_absent, spec_arch_gate, spec_audit_arch,
    spec_chain_of, spec_collect_chain, spec_filter_bpf, spec_match32, SeccompAction, SeccompArch,
    SeccompFilter, SyscallRuleSet, SECCOMP_RET_ALLOW, SECCOMP_RET_KILL,
};

verus! {

/// The deny-listed syscall numbers of the architecture, in the fixed
/// order of the policy.
pub open spec fn spec_deny_numbers(arch: SeccompArch) -> Seq<i64> {
    match arch {
        SeccompArch::Amd64 => seq![
            163i64,  // acct
            248i64,  // add_key
            321i64,  // bpf
            305i64,  // clock_adjtime
            227i64,  // clock_settime
            174i64,  // create_module
            176i64,  // delete_module
            313i64,  // finit_module
            177i64,  // get_kernel_syms
            239i64,  // get_mempolicy
            175i64,  // init_module
            173i64,  // ioperm
            172i64,  // iopl
            312i64,  // kcmp
            320i64,  // kexec_file_load
            246i64,  // kexec_load
            250i64,  // keyctl
            212i64,  // lookup_dcookie
            237i64,  // mbind
            165i64,  // mount
            279i64,  // move_pages
            303i64,  // name_to_handle_at
            180i64,  // nfsservctl
            304i64,  // open_by_handle_at
            298i64,  // perf_event_open
            135i64,  // personality
            155i64,  // pivot_root
            310i64,  // process_vm_readv
            311i64,  // process_vm_writev
            101i64,  // ptrace
            178i64,  // query_module
            179i64,  // quotactl
            169i64,  // reboot
            249i64,  // request_key
            238i64,  // set_mempolicy
            308i64,  // setns
            164i64,  // settimeofday
            167i64,  // swapon
            168i64,  // swapoff
            139i64,  // sysfs
            156i64,  // _sysctl
            166i64,  // umount2
            272i64,  // unshare
            134i64,  // uselib
            323i64,  // userfaultfd
            136i64,  // ustat
        ],
        SeccompArch::Aarch64 => seq![
            89i64,  // acct
            217i64,  // add_key
            280i64,  // bpf
            266i64,  // clock_adjtime
            112i64,  // clock_settime
            106i64,  // delete_module
            273i64,  // finit_module
            236i64,  // get_mempolicy
            105i64,  // init_module
            272i64,  // kcmp
            294i64,  // kexec_file_load
            104i64,  // kexec_load
            219i64,  // keyctl
            18i64,  // lookup_dcookie
            235i64,  // mbind
            40i64,  // mount
            239i64,  // move_pages
            264i64,  // name_to_handle_at
            42i64,  // nfsservctl
            265i64,  // open_by_handle_at
            241i64,  // perf_event_open
            92i64,  // personality
            41i64,  // pivot_root
            270i64,  // process_vm_readv
            271i64,  // process_vm_writev
            117i64,  // ptrace
            60i64,  // quotactl
            142i64,  // reboot
            218i64,  // request_key
            237i64,  // set_mempolicy
            268i64,  // setns
            170i64,  // settimeofday
            224i64,  // swapon
            225i64,  // swapoff
            39i64,  // umount2
            97i64,  // unshare
            282i64,  // userfaultfd
        ],
    }
}

/// The deny-listed syscall numbers of the architecture, as a vector.
#[verifier::rlimit(100)]
fn deny_numbers(arch: SeccompArch) -> (r: Vec<i64>)
    ensures
        r@ == spec_deny_numbers(arch),
{
    let mut v: Vec<i64> = Vec::new();
    match arch {
        SeccompArch::Amd64 => {
            v.push(163);  // acct
            v.push(248);  // add_key
            v.push(321);  // bpf
            v.push(305);  // clock_adjtime
            v.push(227);  // clock_settime
            v.push(174);  // create_module
            v.push(176);  // delete_module
            v.push(313);  // finit_module
            v.push(177);  // get_kernel_syms
            v.push(239);  // get_mempolicy
            v.push(175);  // init_module
            v.push(173);  // ioperm
            v.push(172);  // iopl
            v.push(312);  // kcmp
            v.push(320);  // kexec_file_load
            v.push(246);  // kexec_load
            v.push(250);  // keyctl
            v.push(212);  // lookup_dcookie
            v.push(237);  // mbind
            v.push(165);  // mount
            v.push(279);  // move_pages
            v.push(303);  // name_to_handle_at
            v.push(180);  // nfsservctl
            v.push(304);  // open_by_handle_at
            v.push(298);  // perf_event_open
            v.push(135);  // personality
            v.push(155);  // pivot_root
            v.push(310);  // process_vm_readv
            v.push(311);  // process_vm_writev
            v.push(101);  // ptrace
            v.push(178);  // query_module
            v.push(179);  // quotactl
            v.push(169);  // reboot
            v.push(249);  // request_key
            v.push(238);  // set_mempolicy
            v.push(308);  // setns
            v.push(164);  // settimeofday
            v.push(167);  // swapon
            v.push(168);  // swapoff
            v.push(139);  // sysfs
            v.push(156);  // _sysctl
            v.push(166);  // umount2
            v.push(272);  // unshare
            v.push(134);  // uselib
            v.push(323);  // userfaultfd
            v.push(136);  // ustat
        },
        SeccompArch::Aarch64 => {
            v.push(89);  // acct
            v.push(217);  // add_key
            v.push(280);  // bpf
            v.push(266);  // clock_adjtime
            v.push(112);  // clock_settime
            v.push(106);  // delete_module
            v.push(273);  // finit_module
            v.push(236);  // get_mempolicy
            v.push(105);  // init_module
            v.push(272);  // kcmp
            v.push(294);  // kexec_file_load
            v.push(104);  // kexec_load
            v.push(219);  // keyctl
            v.push(18);  // lookup_dcookie
            v.push(235);  // mbind
            v.push(40);  // mount
            v.push(239);  // move_pages
            v.push(264);  // name_to_handle_at
            v.push(42);  // nfsservctl
            v.push(265);  // open_by_handle_at
            v.push(241);  // perf_event_open
            v.push(92);  // personality
            v.push(41);  // pivot_root
            v.push(270);  // process_vm_readv
            v.push(271);  // process_vm_writev
            v.push(117);  // ptrace
            v.push(60);  // quotactl
            v.push(142);  // reboot
            v.push(218);  // request_key
            v.push(237);  // set_mempolicy
            v.push(268);  // setns
            v.push(170);  // settimeofday
            v.push(224);  // swapon
            v.push(225);  // swapoff
            v.push(39);  // umount2
            v.push(97);  // unshare
            v.push(282);  // userfaultfd
        },
    }
    assert(v@ =~= spec_deny_numbers(arch));
    v
}

/// The deny list itself: one unconditional `Kill` rule for each number of
/// [`spec_deny_numbers`], in order.
pub fn deny_syscalls(arch: SeccompArch) -> (r: Vec<SyscallRuleSet>)
    ensures
        r@.len() == spec_deny_numbers(arch).len(),
        forall|i: int|
            0 <= i < r@.len() ==> (#[trigger] r@[i]).0 == spec_deny_numbers(arch)[i]
                && r@[i].1@.len() == 1 && r@[i].1@[0].spec_conditions().len() == 0
                && r@[i].1@[0].spec_action() == SeccompAction::Kill,
{
    let nums = deny_numbers(arch);
    let mut r: Vec<SyscallRuleSet> = Vec::new();
    let mut i: usize = 0;
    while i < nums.len()
        invariant
            nums@ == spec_deny_numbers(arch),
            0 <= i <= nums@.len(),
            r@.len() == i,
            forall|j: int|
                0 <= j < i ==> (#[trigger] r@[j]).0 == spec_deny_numbers(arch)[j]
                    && r@[j].1@.len() == 1 && r@[j].1@[0].spec_conditions().len() == 0
                    && r@[j].1@[0].spec_action() == SeccompAction::Kill,
        decreases nums@.len() - i,
    {
        r.push(deny_syscall(nums[i]));
        i = i + 1;
    }
    r
}

/// The sandbox's own policy kills every listed syscall: for a filter
/// collected from the deny list of the architecture — as
/// [`SeccompFilter::new`] builds it from [`deny_syscalls`] — the
/// installable program evaluates to `RET KILL` on every deny-listed
/// syscall number, never to the default `Allow`.
pub proof fn lemma_deny_policy_kills(
    f: SeccompFilter,
    entries: Seq<SyscallRuleSet>,
    arch: SeccompArch,
    data: SeccompData,
    s: i64,
)
    requires
        f.wf(),
        forall|nr: i64|
            #[trigger] spec_chain_of(f.spec_rules(), nr) == spec_collect_chain(entries, nr),
        entries.len() == spec_deny_numbers(arch).len(),
        forall|i: int|
            0 <= i < entries.len() ==> (#[trigger] entries[i]).0 == spec_deny_numbers(arch)[i]
                && entries[i].1@.len() == 1 && entries[i].1@[0].spec_conditions().len() == 0
                && entries[i].1@[0].spec_action() == SeccompAction::Kill,
        spec_deny_numbers(arch).contains(s),
        data.nr == s as u32,
        data.arch == spec_audit_arch(arch),
    ensures
        spec_bpf_eval(spec_arch_gate(arch) + spec_filter_bpf(f), data, 0, 0) == Some(
            SECCOMP_RET_KILL,
        ),
{
    let nums = spec_deny_numbers(arch);
    let j = choose|j: int| 0 <= j < nums.len() && nums[j] == s;
    assert(entries[j].0 == s);
    assert(has_key(entries, s));
    lemma_collect_chain_has_key(entries, s);
    assert(spec_chain_of(f.spec_rules(), s) is Some);
    assert forall|nr: i64| (#[trigger] spec_chain_of(f.spec_rules(), nr)) is Some implies {
        let c = spec_chain_of(f.spec_rules(), nr)->0;
        c.len() == 1 && c[0].spec_conditions().len() == 0 && c[0].spec_action()
            == SeccompAction::Kill
    } by {
        lemma_collect_single_kill(entries, nr);
    }
    lemma_deny_listed_syscall_killed(f, arch, data, s);
}

/// The policy's other half: a syscall whose number matches no deny-list
/// entry — not even after the truncation to 32 bits that the BPF
/// comparison applies — falls through every chain and is allowed by the
/// filter's default action.
pub proof fn lemma_deny_policy_allows_unlisted(
    f: SeccompFilter,
    entries: Seq<SyscallRuleSet>,
    arch: SeccompArch,
    data: SeccompData,
)
    requires
        f.wf(),
        f.spec_default_action() == SeccompAction::Allow,
        forall|nr: i64|
            #[trigger] spec_chain_of(f.spec_rules(), nr) == spec_collect_chain(entries, nr),
        entries.len() == spec_deny_numbers(arch).len(),
        forall|i: int|
            0 <= i < entries.len() ==> (#[trigger] entries[i]).0 == spec_deny_numbers(arch)[i]
                && entries[i].1@.len() == 1 && entries[i].1@[0].spec_conditions().len() == 0
                && entries[i].1@[0].spec_action() == SeccompAction::Kill,
        forall|i: int|
            0 <= i < spec_deny_numbers(arch).len() ==> (#[trigger] spec_deny_numbers(arch)[i])
                as u32 != data.nr,
        data.arch == spec_audit_arch(arch),
    ensures
        spec_bpf_eval(spec_arch_gate(arch) + spec_filter_bpf(f), data, 0, 0) == Some(
            SECCOMP_RET_ALLOW,
        ),
{
    let nums = spec_deny_numbers(arch);
    let rules = f.spec_rules();
    // The policy is never empty, so the filter has at least one chain.
    match arch {
        SeccompArch::Amd64 => assert(nums.len() > 0),
        SeccompArch::Aarch64 => assert(nums.len() > 0),
    }
    assert(entries[0].0 == nums[0]);
    assert(has_key(entries, entries[0].0));
    lemma_collect_chain_has_key(entries, entries[0].0);
    lemma_chain_of_has_key(rules, entries[0].0);
    let w0 = choose|w0: int| 0 <= w0 < rules.len() && rules[w0].0 == entries[0].0;
    assert(rules.len() > 0);
    // Every chain of the filter is one of the policy's: a single
    // unconditional Kill rule, whose key truncates to something other
    // than the loaded number.
    assert forall|i: int|
        0 <= i < rules.len() implies (#[trigger] rules[i]).1@.len() == 1
        && rules[i].1@[0].spec_conditions().len() == 0 && rules[i].0 as u32 != data.nr by {
        let k = rules[i].0;
        lemma_chain_of_index(rules, i);
        lemma_collect_single_kill(entries, k);
        lemma_collect_chain_has_key(entries, k);
        let w = choose|w: int| 0 <= w < entries.len() && (#[trigger] entries[w]).0 == k;
        assert(nums[w] as u32 != data.nr);
    }
    lemma_match32_absent(rules, data.nr);
    lemma_installable_program_eval(f, arch, data);
    assert(spec_match32(rules, data.nr) is None);
}

} // verus!
