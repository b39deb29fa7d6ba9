use newbie_sandbox::seccomp::{
    allow_syscall, allow_syscall_if, deny_syscall, Error, SeccompAction, SeccompArch,
    SeccompCmpArgLen, SeccompCmpOp, SeccompCondition, SeccompError, SeccompFilter, SeccompLevel,
};
use newbie_sandbox::seccomp::installable_program;
use newbie_sandbox::sock_filter;

fn stmt(code: u16, k: u32) -> sock_filter {
    sock_filter { code, jt: 0, jf: 0, k }
}

fn jump(code: u16, k: u32, jt: u8, jf: u8) -> sock_filter {
    sock_filter { code, jt, jf, k }
}

#[test]
fn condition_rejects_large_argument_number() {
    let r = SeccompCondition::new(6, SeccompCmpArgLen::DWORD, SeccompCmpOp::Eq, 0);
    assert!(matches!(r, Err(Error::InvalidArgumentNumber)));
    assert!(SeccompCondition::new(5, SeccompCmpArgLen::DWORD, SeccompCmpOp::Eq, 0).is_ok());
}

#[test]
fn eq_qword_condition_encoding() {
    let c = SeccompCondition::new(
        1,
        SeccompCmpArgLen::QWORD,
        SeccompCmpOp::Eq,
        0x1_0000_0002,
    )
    .unwrap();
    // Argument 1 sits at offset 24; its high half at 28 (little endian).
    let expected = vec![
        stmt(0x20, 28),
        jump(0x15, 1, 0, 6),
        stmt(0x20, 24),
        jump(0x15, 2, 0, 4),
    ];
    assert_eq!(c.into_bpf(4), expected);
}

#[test]
fn eq_dword_condition_compares_low_half_only() {
    let c = SeccompCondition::new(0, SeccompCmpArgLen::DWORD, SeccompCmpOp::Eq, 13).unwrap();
    let expected = vec![stmt(0x20, 16), jump(0x15, 13, 0, 1)];
    assert_eq!(c.into_bpf(1), expected);
}

#[test]
fn masked_eq_condition_applies_and() {
    let c = SeccompCondition::new(
        0,
        SeccompCmpArgLen::QWORD,
        SeccompCmpOp::MaskedEq(0xff00_0000_00ff),
        0x1234_0000_0042,
    )
    .unwrap();
    let expected = vec![
        stmt(0x20, 20),
        stmt(0x54, 0xff00),
        jump(0x15, 0x1200, 0, 4),
        stmt(0x20, 16),
        stmt(0x54, 0xff),
        jump(0x15, 0x42, 0, 1),
    ];
    assert_eq!(c.into_bpf(1), expected);
}

#[test]
fn unconditional_rule_encoding() {
    let rule = newbie_sandbox::seccomp::SeccompRule::new(vec![], SeccompAction::Allow);
    let expected = vec![stmt(0x05, 1), stmt(0x05, 2), stmt(0x06, 0x7fff_0000)];
    assert_eq!(rule.into_bpf(), expected);
}

#[test]
fn conditions_are_prepended() {
    // Conditions are prepended while the rule is built backwards, so the
    // last condition added is the first one evaluated.
    let a = SeccompCondition::new(0, SeccompCmpArgLen::DWORD, SeccompCmpOp::Eq, 1).unwrap();
    let b = SeccompCondition::new(1, SeccompCmpArgLen::DWORD, SeccompCmpOp::Eq, 2).unwrap();
    let rule = newbie_sandbox::seccomp::SeccompRule::new(vec![a, b], SeccompAction::Allow);
    let expected = vec![
        stmt(0x05, 1),
        stmt(0x05, 6),
        stmt(0x20, 24),
        jump(0x15, 2, 0, 3),
        stmt(0x20, 16),
        jump(0x15, 1, 0, 1),
        stmt(0x06, 0x7fff_0000),
    ];
    assert_eq!(rule.into_bpf(), expected);
}

#[test]
fn long_rule_gets_helper_jumps() {
    // 63 four-instruction conditions push the running jump offset past
    // what an 8-bit jump field can express, so a three-jump helper pad is
    // spliced in before the last condition and the offset restarts.
    let mut conds = Vec::new();
    for _ in 0..63 {
        conds.push(
            SeccompCondition::new(0, SeccompCmpArgLen::QWORD, SeccompCmpOp::Eq, 5).unwrap(),
        );
    }
    let rule = newbie_sandbox::seccomp::SeccompRule::new(conds, SeccompAction::Allow);
    let p = rule.into_bpf();
    assert_eq!(p.len(), 2 + 4 * 63 + 3 + 1);
    // Entry jumps: into the rule, and out of the chain past the restarted
    // offset.
    assert_eq!(p[0], stmt(0x05, 1));
    assert_eq!(p[1], stmt(0x05, 6));
    // The last condition added comes first, compiled at offset 1.
    assert_eq!(p[2..6], [stmt(0x20, 20), jump(0x15, 0, 0, 3), stmt(0x20, 16), jump(0x15, 5, 0, 1)]);
    // Then the helper pad, carrying the old offset of 249.
    assert_eq!(p[6..9], [stmt(0x05, 2), stmt(0x05, 250), stmt(0x05, 250)]);
    // Then the next condition, compiled at the pre-pad offset 245.
    assert_eq!(
        p[9..13],
        [stmt(0x20, 20), jump(0x15, 0, 0, 247), stmt(0x20, 16), jump(0x15, 5, 0, 245)]
    );
    assert_eq!(*p.last().unwrap(), stmt(0x06, 0x7fff_0000));
}

#[test]
fn empty_filter_compiles_to_empty_program() {
    let f = SeccompFilter::empty();
    assert_eq!(f.compile().unwrap(), vec![]);
}

#[test]
fn deny_filter_program_layout() {
    // Entries are visited in ascending syscall order whatever the build
    // order, as an ordered map would iterate them.
    let f = SeccompFilter::new(
        vec![deny_syscall(7), deny_syscall(3)],
        SeccompAction::Allow,
    )
    .unwrap();
    let p = f.compile().unwrap();
    let chain = |nr: u32| {
        vec![
            jump(0x15, nr, 0, 1),
            stmt(0x05, 1),
            stmt(0x05, 2),
            stmt(0x06, 0),
            stmt(0x06, 0x7fff_0000),
        ]
    };
    let mut expected = vec![stmt(0x20, 0)];
    expected.extend(chain(3));
    expected.extend(chain(7));
    expected.push(stmt(0x06, 0x7fff_0000));
    assert_eq!(p, expected);
}

#[test]
fn compilation_is_deterministic() {
    let f = SeccompFilter::new(
        vec![deny_syscall(1), deny_syscall(60), deny_syscall(165)],
        SeccompAction::Allow,
    )
    .unwrap();
    let a = f.compile().unwrap();
    let b = f.compile().unwrap();
    assert_eq!(a, b);
}

#[test]
fn installable_program_frames() {
    let f = SeccompFilter::new(vec![deny_syscall(165)], SeccompAction::Allow).unwrap();
    let body = f.compile().unwrap();
    let p = installable_program(SeccompArch::Amd64, &body);
    // The architecture gate comes first ...
    assert_eq!(p[0], stmt(0x20, 4));
    assert_eq!(p[1], jump(0x15, 62 | 0x8000_0000 | 0x4000_0000, 1, 0));
    assert_eq!(p[2], stmt(0x06, 0));
    // ... and the default action return comes last.
    assert_eq!(*p.last().unwrap(), stmt(0x06, 0x7fff_0000));
}

#[test]
fn filter_too_large_is_refused() {
    let many = |n: usize| {
        let mut rules = Vec::new();
        for _ in 0..n {
            rules.push(newbie_sandbox::seccomp::SeccompRule::new(
                vec![],
                SeccompAction::Kill,
            ));
        }
        rules
    };
    // 1364 three-instruction rules put the program at exactly 4096
    // instructions, which still compiles; one more rule tips it over.
    let just_fits = SeccompFilter::new(vec![(1, many(1364))], SeccompAction::Allow).unwrap();
    assert_eq!(just_fits.compile().unwrap().len(), 4096);
    let too_large = SeccompFilter::new(vec![(1, many(1365))], SeccompAction::Allow).unwrap();
    assert!(matches!(too_large.compile(), Err(Error::FilterTooLarge)));
}

#[test]
fn empty_rules_vector_is_refused() {
    let r = SeccompFilter::new(vec![(5, vec![])], SeccompAction::Allow);
    assert!(matches!(r, Err(Error::EmptyRulesVector)));
    let mut f = SeccompFilter::empty();
    assert!(matches!(f.add_rules(5, vec![]), Err(Error::EmptyRulesVector)));
}

#[test]
fn add_rules_appends_to_existing_chain() {
    let mut f = SeccompFilter::new(vec![allow_syscall(2)], SeccompAction::Trap).unwrap();
    f.add_rules(
        2,
        vec![newbie_sandbox::seccomp::SeccompRule::new(
            vec![],
            SeccompAction::Kill,
        )],
    )
    .unwrap();
    let p = f.compile().unwrap();
    // load nr, syscall comparison, two rules of three instructions each,
    // the chain's default return, the filter's default return.
    assert_eq!(p.len(), 10);
    assert_eq!(p[4], stmt(0x06, 0x7fff_0000));
    assert_eq!(p[7], stmt(0x06, 0));
}

#[test]
fn allow_all_replaces_actions() {
    let f = SeccompFilter::new(
        vec![deny_syscall(3), deny_syscall(9)],
        SeccompAction::Allow,
    )
    .unwrap();
    let relaxed = f.allow_all();
    let p = relaxed.compile().unwrap();
    // Same layout as a deny filter, but every chain returns Allow.
    assert_eq!(p[4], stmt(0x06, 0x7fff_0000));
    assert_eq!(p[9], stmt(0x06, 0x7fff_0000));
}

#[test]
fn allow_syscall_if_keeps_rules() {
    let cond = SeccompCondition::new(0, SeccompCmpArgLen::DWORD, SeccompCmpOp::Eq, 1).unwrap();
    let rule = newbie_sandbox::seccomp::SeccompRule::new(vec![cond], SeccompAction::Allow);
    let (nr, rules) = allow_syscall_if(42, vec![rule]);
    assert_eq!(nr, 42);
    assert_eq!(rules.len(), 1);
}

#[test]
fn action_codes() {
    assert_eq!(SeccompAction::Allow.code(), 0x7fff_0000);
    assert_eq!(SeccompAction::Kill.code(), 0);
    assert_eq!(SeccompAction::Log.code(), 0x7ffc_0000);
    assert_eq!(SeccompAction::Trap.code(), 0x0003_0000);
    assert_eq!(SeccompAction::Errno(9999).code(), 0x0005_0000 | 9999);
    assert_eq!(SeccompAction::Trace(70000).code(), 0x7ff0_0000 | (70000 & 0xffff));
}

#[test]
fn seccomp_level_from_string() {
    assert!(matches!(
        SeccompLevel::from_string("0"),
        Ok(SeccompLevel::Disabled)
    ));
    assert!(matches!(SeccompLevel::from_string("1"), Ok(SeccompLevel::Basic)));
    assert!(matches!(
        SeccompLevel::from_string("2"),
        Ok(SeccompLevel::Advanced)
    ));
    assert!(matches!(
        SeccompLevel::from_string("+2"),
        Ok(SeccompLevel::Advanced)
    ));
    assert!(matches!(
        SeccompLevel::from_string("3"),
        Err(SeccompError::Level(3))
    ));
    assert!(matches!(
        SeccompLevel::from_string("abc"),
        Err(SeccompError::Parse)
    ));
    assert!(matches!(SeccompLevel::from_string(""), Err(SeccompError::Parse)));
    assert!(matches!(
        SeccompLevel::from_string("256"),
        Err(SeccompError::Parse)
    ));
    assert!(matches!(
        SeccompLevel::from_string("-1"),
        Err(SeccompError::Parse)
    ));
}
