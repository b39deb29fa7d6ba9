//! Seccomp rule sets and their compilation to classic BPF.
//!
//! A [`SeccompFilter`] maps syscall numbers to chains of [`SeccompRule`]s
//! and carries a default [`SeccompAction`].  Compilation turns the filter
//! into a flat BPF program: an optional architecture gate, a load of the
//! syscall number, one comparison chain per syscall, and a terminal
//! `RET default_action`.  Generation is pure; loading the program into the
//! kernel is left to the caller of the compiled output.

use vstd::prelude::*;

use crate::bpf::{
    bpf_jump, bpf_stmt, sock_filter, spec_bpf_eval, spec_jump, spec_stmt, BpfProgram, SeccompData,
    BPF_ABS, BPF_ALU, BPF_AND, BPF_JA, BPF_JEQ, BPF_JGE, BPF_JGT, BPF_JMP, BPF_K, BPF_LD, BPF_RET,
    BPF_W,
};

verus! {

/// Maximum number of instructions that a BPF program can have.
pub const BPF_MAX_LEN: usize = 4096;

// Return codes for BPF programs, as in linux's seccomp.h.
pub const SECCOMP_RET_ALLOW: u32 = 0x7fff_0000;
pub const SECCOMP_RET_ERRNO: u32 = 0x0005_0000;
pub const SECCOMP_RET_KILL: u32 = 0x0000_0000;
pub const SECCOMP_RET_LOG: u32 = 0x7ffc_0000;
pub const SECCOMP_RET_TRACE: u32 = 0x7ff0_0000;
pub const SECCOMP_RET_TRAP: u32 = 0x0003_0000;
pub const SECCOMP_RET_MASK: u32 = 0x0000_ffff;

// Audit architecture identifiers, as in linux's audit.h:
// the ELF machine number combined with the 64-bit and little-endian flags.
pub const AUDIT_ARCH_X86_64: u32 = 62 | 0x8000_0000 | 0x4000_0000;
pub const AUDIT_ARCH_AARCH64: u32 = 183 | 0x8000_0000 | 0x4000_0000;

/// The maximum index of a syscall argument (arguments are numbered 0 to 5).
pub const ARG_NUMBER_MAX: u8 = 5;

/// The maximum number of BPF statements that one condition translates into.
pub const CONDITION_MAX_LEN: u16 = 6;

// Offsets of fields of the kernel's `struct seccomp_data`, in bytes:
// `nr` at 0, `arch` at 4, `args[i]` at 16 + 8 * i.
pub const SECCOMP_DATA_NR_OFFSET: u8 = 0;
pub const SECCOMP_DATA_ARCH_OFFSET: u8 = 4;
pub const SECCOMP_DATA_ARGS_OFFSET: u8 = 16;
pub const SECCOMP_DATA_ARG_SIZE: u8 = 8;

/// Seccomp errors.
#[derive(Clone, Copy, Debug, PartialEq, Eq, Structural)]
pub enum Error {
    /// Attempting to add an empty vector of rules to the rule chain of a syscall.
    EmptyRulesVector,
    /// Filter exceeds the maximum number of instructions that a BPF program can have.
    FilterTooLarge,
    /// Failed to translate rules into BPF.
    IntoBpf,
    /// Argument number that exceeds the maximum value.
    InvalidArgumentNumber,
    /// Failed to load seccomp rules into the kernel.
    Load(i32),
}

/// Comparison to perform when matching a condition.
#[derive(Clone, Copy, Debug, PartialEq, Eq, Structural)]
pub enum SeccompCmpOp {
    /// Argument value is equal to the specified value.
    Eq,
    /// Argument value is greater than or equal to the specified value.
    Ge,
    /// Argument value is greater than specified value.
    Gt,
    /// Argument value is less than or equal to the specified value.
    Le,
    /// Argument value is less than specified value.
    Lt,
    /// Masked bits of argument value are equal to masked bits of specified value.
    MaskedEq(u64),
    /// Argument value is not equal to specified value.
    Ne,
}

/// Seccomp argument value length.
#[derive(Clone, Copy, Debug, PartialEq, Eq, Structural)]
#[allow(non_camel_case_types)]
pub enum SeccompCmpArgLen {
    /// Argument value length is 4 bytes.
    DWORD,
    /// Argument value length is 8 bytes.
    QWORD,
}

/// Condition that a syscall must match in order to satisfy a rule.
#[derive(Clone, Copy, Debug, PartialEq, Eq, Structural)]
pub struct SeccompCondition {
    /// Index of the argument that is to be compared.
    arg_number: u8,
    /// Length of the argument value that is to be compared.
    arg_len: SeccompCmpArgLen,
    /// Comparison to perform.
    operator: SeccompCmpOp,
    /// The value that will be compared with the argument value.
    value: u64,
}

/// Actions that seccomp can apply to a process calling a syscall.
#[derive(Clone, Copy, Debug, PartialEq, Eq, Structural)]
pub enum SeccompAction {
    /// Allows syscall.
    Allow,
    /// Returns from syscall with specified error number.
    Errno(u32),
    /// Kills calling process.
    Kill,
    /// Same as allow but logs call.
    Log,
    /// Notifies tracing process of the caller with respective number.
    Trace(u32),
    /// Sends `SIGSYS` to the calling process.
    Trap,
}

/// Rule that seccomp attempts to match for a syscall.
///
/// If all conditions match then the rule gets matched.  A rule with no
/// conditions always matches.  The action of the first rule that matches is
/// applied to the calling process; if no rule matches, the filter's default
/// action is applied.
#[derive(Clone, Debug)]
pub struct SeccompRule {
    /// Conditions that need to match in order for the rule to get matched.
    conditions: Vec<SeccompCondition>,
    /// Action applied to the calling process if the rule gets matched.
    action: SeccompAction,
}

/// A tuple (syscall number, rule chain).
pub type SyscallRuleSet = (i64, Vec<SeccompRule>);

/// Filter containing rule chains assigned to syscall numbers.
///
/// The chains are kept sorted by strictly increasing syscall number, so the
/// compiled program visits them in the same order in which an ordered map
/// would iterate its keys.
#[derive(Clone, Debug)]
pub struct SeccompFilter {
    /// Chains of rules, one per syscall number, sorted by syscall number.
    rules: Vec<SyscallRuleSet>,
    /// Default action applied to syscall numbers that match no chain.
    default_action: SeccompAction,
}

/// The BPF return code that encodes an action.
pub open spec fn action_code(action: SeccompAction) -> u32 {
    match action {
        SeccompAction::Allow => SECCOMP_RET_ALLOW,
        SeccompAction::Errno(x) => SECCOMP_RET_ERRNO | (x & SECCOMP_RET_MASK),
        SeccompAction::Kill => SECCOMP_RET_KILL,
        SeccompAction::Log => SECCOMP_RET_LOG,
        SeccompAction::Trace(x) => SECCOMP_RET_TRACE | (x & SECCOMP_RET_MASK),
        SeccompAction::Trap => SECCOMP_RET_TRAP,
    }
}

impl SeccompAction {
    /// The BPF return code of this action.
    pub fn code(&self) -> (r: u32)
        ensures
            r == action_code(*self),
    {
        match *self {
            SeccompAction::Allow => SECCOMP_RET_ALLOW,
            SeccompAction::Errno(x) => SECCOMP_RET_ERRNO | (x & SECCOMP_RET_MASK),
            SeccompAction::Kill => SECCOMP_RET_KILL,
            SeccompAction::Log => SECCOMP_RET_LOG,
            SeccompAction::Trace(x) => SECCOMP_RET_TRACE | (x & SECCOMP_RET_MASK),
            SeccompAction::Trap => SECCOMP_RET_TRAP,
        }
    }
}

/// Most significant 32-bit half of a 64-bit operand.
pub open spec fn spec_msb(value: u64) -> u32 {
    (value >> 32) as u32
}

/// Least significant 32-bit half of a 64-bit operand.
pub open spec fn spec_lsb(value: u64) -> u32 {
    value as u32
}

/// Offset of syscall argument `arg_number` inside `struct seccomp_data`.
pub open spec fn spec_arg_offset(arg_number: u8) -> int {
    SECCOMP_DATA_ARGS_OFFSET + arg_number * SECCOMP_DATA_ARG_SIZE
}

/// Offset of the least significant half of the argument.  The supported
/// architectures are little-endian, so the low half sits at the base offset.
pub open spec fn spec_lsb_offset(arg_number: u8) -> int {
    spec_arg_offset(arg_number)
}

/// Offset of the most significant half of the argument.
pub open spec fn spec_msb_offset(arg_number: u8) -> int {
    spec_arg_offset(arg_number) + SECCOMP_DATA_ARG_SIZE / 2
}

impl SeccompCondition {
    /// A condition is well formed when its argument index is valid.
    pub open spec fn wf(self) -> bool {
        self.spec_arg_number() <= ARG_NUMBER_MAX
    }

    /// The argument index of the condition.
    pub closed spec fn spec_arg_number(self) -> u8 {
        self.arg_number
    }

    /// The operand width of the condition.
    pub closed spec fn spec_arg_len(self) -> SeccompCmpArgLen {
        self.arg_len
    }

    /// The comparison of the condition.
    pub closed spec fn spec_operator(self) -> SeccompCmpOp {
        self.operator
    }

    /// The value compared against the argument.
    pub closed spec fn spec_value(self) -> u64 {
        self.value
    }

    /// Creates a new [`SeccompCondition`] comparing argument `arg_number`
    /// with `value` under `operator`, failing when the argument index is out
    /// of range.
    pub fn new(arg_number: u8, arg_len: SeccompCmpArgLen, operator: SeccompCmpOp, value: u64) -> (r:
        Result<Self, Error>)
        ensures
            r is Ok <==> arg_number <= ARG_NUMBER_MAX,
            r matches Err(e) ==> e == Error::InvalidArgumentNumber,
            r matches Ok(c) ==> c.wf() && c.spec_arg_number() == arg_number && c.spec_arg_len()
                == arg_len && c.spec_operator() == operator && c.spec_value() == value,
    {
        if arg_number > ARG_NUMBER_MAX {
            return Err(Error::InvalidArgumentNumber);
        }
        Ok(Self { arg_number, arg_len, operator, value })
    }
}

/// The BPF statements of one condition, given the jump offset that skips to
/// the next rule (or out of the chain) when the comparison fails.
///
/// The 64-bit operand is compared in 32-bit halves, most significant half
/// first; a `DWORD` condition compares the least significant half only.  A
/// `MaskedEq` condition applies an `ALU AND` to each loaded half before the
/// equality compare.
pub open spec fn spec_cond_bpf(c: SeccompCondition, offset: int) -> Seq<sock_filter> {
    let msb = spec_msb(c.spec_value());
    let lsb = spec_lsb(c.spec_value());
    let msb_off = spec_msb_offset(c.spec_arg_number()) as u32;
    let lsb_off = spec_lsb_offset(c.spec_arg_number()) as u32;
    match c.spec_operator() {
        SeccompCmpOp::Eq => {
            let tail = seq![
                spec_stmt((BPF_LD + BPF_W + BPF_ABS) as u16, lsb_off),
                spec_jump((BPF_JMP + BPF_JEQ + BPF_K) as u16, lsb, 0, offset as u8),
            ];
            match c.spec_arg_len() {
                SeccompCmpArgLen::DWORD => tail,
                SeccompCmpArgLen::QWORD => seq![
                    spec_stmt((BPF_LD + BPF_W + BPF_ABS) as u16, msb_off),
                    spec_jump((BPF_JMP + BPF_JEQ + BPF_K) as u16, msb, 0, (offset + 2) as u8),
                ] + tail,
            }
        },
        SeccompCmpOp::Ge => {
            let tail = seq![
                spec_stmt((BPF_LD + BPF_W + BPF_ABS) as u16, lsb_off),
                spec_jump((BPF_JMP + BPF_JGE + BPF_K) as u16, lsb, 0, offset as u8),
            ];
            match c.spec_arg_len() {
                SeccompCmpArgLen::DWORD => tail,
                SeccompCmpArgLen::QWORD => seq![
                    spec_stmt((BPF_LD + BPF_W + BPF_ABS) as u16, msb_off),
                    spec_jump((BPF_JMP + BPF_JGT + BPF_K) as u16, msb, 3, 0),
                    spec_jump((BPF_JMP + BPF_JEQ + BPF_K) as u16, msb, 0, (offset + 2) as u8),
                ] + tail,
            }
        },
        SeccompCmpOp::Gt => {
            let tail = seq![
                spec_stmt((BPF_LD + BPF_W + BPF_ABS) as u16, lsb_off),
                spec_jump((BPF_JMP + BPF_JGT + BPF_K) as u16, lsb, 0, offset as u8),
            ];
            match c.spec_arg_len() {
                SeccompCmpArgLen::DWORD => tail,
                SeccompCmpArgLen::QWORD => seq![
                    spec_stmt((BPF_LD + BPF_W + BPF_ABS) as u16, msb_off),
                    spec_jump((BPF_JMP + BPF_JGT + BPF_K) as u16, msb, 3, 0),
                    spec_jump((BPF_JMP + BPF_JEQ + BPF_K) as u16, msb, 0, (offset + 2) as u8),
                ] + tail,
            }
        },
        SeccompCmpOp::Le => {
            let tail = seq![
                spec_stmt((BPF_LD + BPF_W + BPF_ABS) as u16, lsb_off),
                spec_jump((BPF_JMP + BPF_JGT + BPF_K) as u16, lsb, offset as u8, 0),
            ];
            match c.spec_arg_len() {
                SeccompCmpArgLen::DWORD => tail,
                SeccompCmpArgLen::QWORD => seq![
                    spec_stmt((BPF_LD + BPF_W + BPF_ABS) as u16, msb_off),
                    spec_jump((BPF_JMP + BPF_JGT + BPF_K) as u16, msb, (offset + 3) as u8, 0),
                    spec_jump((BPF_JMP + BPF_JEQ + BPF_K) as u16, msb, 0, 2),
                ] + tail,
            }
        },
        SeccompCmpOp::Lt => {
            let tail = seq![
                spec_stmt((BPF_LD + BPF_W + BPF_ABS) as u16, lsb_off),
                spec_jump((BPF_JMP + BPF_JGE + BPF_K) as u16, lsb, offset as u8, 0),
            ];
            match c.spec_arg_len() {
                SeccompCmpArgLen::DWORD => tail,
                SeccompCmpArgLen::QWORD => seq![
                    spec_stmt((BPF_LD + BPF_W + BPF_ABS) as u16, msb_off),
                    spec_jump((BPF_JMP + BPF_JGT + BPF_K) as u16, msb, (offset + 3) as u8, 0),
                    spec_jump((BPF_JMP + BPF_JEQ + BPF_K) as u16, msb, 0, 2),
                ] + tail,
            }
        },
        SeccompCmpOp::MaskedEq(mask) => {
            let masked = (c.spec_value() & mask);
            let tail = seq![
                spec_stmt((BPF_LD + BPF_W + BPF_ABS) as u16, lsb_off),
                spec_stmt((BPF_ALU + BPF_AND + BPF_K) as u16, spec_lsb(mask)),
                spec_jump((BPF_JMP + BPF_JEQ + BPF_K) as u16, spec_lsb(masked), 0, offset as u8),
            ];
            match c.spec_arg_len() {
                SeccompCmpArgLen::DWORD => tail,
                SeccompCmpArgLen::QWORD => seq![
                    spec_stmt((BPF_LD + BPF_W + BPF_ABS) as u16, msb_off),
                    spec_stmt((BPF_ALU + BPF_AND + BPF_K) as u16, spec_msb(mask)),
                    spec_jump(
                        (BPF_JMP + BPF_JEQ + BPF_K) as u16,
                        spec_msb(masked),
                        0,
                        (offset + 3) as u8,
                    ),
                ] + tail,
            }
        },
        SeccompCmpOp::Ne => {
            let tail = seq![
                spec_stmt((BPF_LD + BPF_W + BPF_ABS) as u16, lsb_off),
                spec_jump((BPF_JMP + BPF_JEQ + BPF_K) as u16, lsb, offset as u8, 0),
            ];
            match c.spec_arg_len() {
                SeccompCmpArgLen::DWORD => tail,
                SeccompCmpArgLen::QWORD => seq![
                    spec_stmt((BPF_LD + BPF_W + BPF_ABS) as u16, msb_off),
                    spec_jump((BPF_JMP + BPF_JEQ + BPF_K) as u16, msb, 0, 2),
                ] + tail,
            }
        },
    }
}

/// Every condition translates into between 2 and `CONDITION_MAX_LEN`
/// instructions.
pub proof fn lemma_cond_bpf_len(c: SeccompCondition, offset: int)
    ensures
        2 <= spec_cond_bpf(c, offset).len() <= CONDITION_MAX_LEN,
{
}

impl SeccompCondition {
    /// Translates the condition into BPF statements, with `offset` the jump
    /// distance to the start of the next rule when the comparison fails.
    pub fn into_bpf(&self, offset: u8) -> (r: Vec<sock_filter>)
        requires
            self.wf(),
            offset <= 252,
        ensures
            r@ == spec_cond_bpf(*self, offset as int),
    {
        let msb: u32 = #[verifier::truncate] ((self.value >> 32) as u32);
        let lsb: u32 = #[verifier::truncate] (self.value as u32);
        let arg_offset: u8 = SECCOMP_DATA_ARGS_OFFSET + self.arg_number * SECCOMP_DATA_ARG_SIZE;
        let lsb_off: u32 = arg_offset as u32;
        let msb_off: u32 = (arg_offset + SECCOMP_DATA_ARG_SIZE / 2) as u32;
        let mut r: Vec<sock_filter> = Vec::new();
        match self.operator {
            SeccompCmpOp::Eq => {
                if let SeccompCmpArgLen::QWORD = self.arg_len {
                    r.push(bpf_stmt(BPF_LD + BPF_W + BPF_ABS, msb_off));
                    r.push(bpf_jump(BPF_JMP + BPF_JEQ + BPF_K, msb, 0, offset + 2));
                }
                r.push(bpf_stmt(BPF_LD + BPF_W + BPF_ABS, lsb_off));
                r.push(bpf_jump(BPF_JMP + BPF_JEQ + BPF_K, lsb, 0, offset));
            },
            SeccompCmpOp::Ge => {
                if let SeccompCmpArgLen::QWORD = self.arg_len {
                    r.push(bpf_stmt(BPF_LD + BPF_W + BPF_ABS, msb_off));
                    r.push(bpf_jump(BPF_JMP + BPF_JGT + BPF_K, msb, 3, 0));
                    r.push(bpf_jump(BPF_JMP + BPF_JEQ + BPF_K, msb, 0, offset + 2));
                }
                r.push(bpf_stmt(BPF_LD + BPF_W + BPF_ABS, lsb_off));
                r.push(bpf_jump(BPF_JMP + BPF_JGE + BPF_K, lsb, 0, offset));
            },
            SeccompCmpOp::Gt => {
                if let SeccompCmpArgLen::QWORD = self.arg_len {
                    r.push(bpf_stmt(BPF_LD + BPF_W + BPF_ABS, msb_off));
                    r.push(bpf_jump(BPF_JMP + BPF_JGT + BPF_K, msb, 3, 0));
                    r.push(bpf_jump(BPF_JMP + BPF_JEQ + BPF_K, msb, 0, offset + 2));
                }
                r.push(bpf_stmt(BPF_LD + BPF_W + BPF_ABS, lsb_off));
                r.push(bpf_jump(BPF_JMP + BPF_JGT + BPF_K, lsb, 0, offset));
            },
            SeccompCmpOp::Le => {
                if let SeccompCmpArgLen::QWORD = self.arg_len {
                    r.push(bpf_stmt(BPF_LD + BPF_W + BPF_ABS, msb_off));
                    r.push(bpf_jump(BPF_JMP + BPF_JGT + BPF_K, msb, offset + 3, 0));
                    r.push(bpf_jump(BPF_JMP + BPF_JEQ + BPF_K, msb, 0, 2));
                }
                r.push(bpf_stmt(BPF_LD + BPF_W + BPF_ABS, lsb_off));
                r.push(bpf_jump(BPF_JMP + BPF_JGT + BPF_K, lsb, offset, 0));
            },
            SeccompCmpOp::Lt => {
                if let SeccompCmpArgLen::QWORD = self.arg_len {
                    r.push(bpf_stmt(BPF_LD + BPF_W + BPF_ABS, msb_off));
                    r.push(bpf_jump(BPF_JMP + BPF_JGT + BPF_K, msb, offset + 3, 0));
                    r.push(bpf_jump(BPF_JMP + BPF_JEQ + BPF_K, msb, 0, 2));
                }
                r.push(bpf_stmt(BPF_LD + BPF_W + BPF_ABS, lsb_off));
                r.push(bpf_jump(BPF_JMP + BPF_JGE + BPF_K, lsb, offset, 0));
            },
            SeccompCmpOp::MaskedEq(mask) => {
                let mask_msb: u32 = #[verifier::truncate] ((mask >> 32) as u32);
                let mask_lsb: u32 = #[verifier::truncate] (mask as u32);
                let masked: u64 = self.value & mask;
                let masked_msb: u32 = #[verifier::truncate] ((masked >> 32) as u32);
                let masked_lsb: u32 = #[verifier::truncate] (masked as u32);
                if let SeccompCmpArgLen::QWORD = self.arg_len {
                    r.push(bpf_stmt(BPF_LD + BPF_W + BPF_ABS, msb_off));
                    r.push(bpf_stmt(BPF_ALU + BPF_AND + BPF_K, mask_msb));
                    r.push(bpf_jump(BPF_JMP + BPF_JEQ + BPF_K, masked_msb, 0, offset + 3));
                }
                r.push(bpf_stmt(BPF_LD + BPF_W + BPF_ABS, lsb_off));
                r.push(bpf_stmt(BPF_ALU + BPF_AND + BPF_K, mask_lsb));
                r.push(bpf_jump(BPF_JMP + BPF_JEQ + BPF_K, masked_lsb, 0, offset));
            },
            SeccompCmpOp::Ne => {
                if let SeccompCmpArgLen::QWORD = self.arg_len {
                    r.push(bpf_stmt(BPF_LD + BPF_W + BPF_ABS, msb_off));
                    r.push(bpf_jump(BPF_JMP + BPF_JEQ + BPF_K, msb, 0, 2));
                }
                r.push(bpf_stmt(BPF_LD + BPF_W + BPF_ABS, lsb_off));
                r.push(bpf_jump(BPF_JMP + BPF_JEQ + BPF_K, lsb, offset, 0));
            },
        }
        assert(r@ =~= spec_cond_bpf(*self, offset as int));
        r
    }
}

/// The three helper jumps inserted when the running jump offset of a rule
/// would overflow the 8-bit jump field: the first continues the condition
/// chain, the latter two act as trampolines for the "rule failed" and
/// "chain failed" paths.
pub open spec fn spec_helper_jumps(offset: int) -> Seq<sock_filter> {
    seq![
        spec_stmt((BPF_JMP + BPF_JA) as u16, 2),
        spec_stmt((BPF_JMP + BPF_JA) as u16, (offset + 1) as u32),
        spec_stmt((BPF_JMP + BPF_JA) as u16, (offset + 1) as u32),
    ]
}

/// The body of a rule after its first `i` conditions have been prepended,
/// together with the running jump offset to the next rule.  The body is
/// built backwards: the `RET action` comes first, each condition is
/// prepended in turn, and a helper pad is inserted whenever prepending the
/// next condition could overflow the 8-bit jump offset.
pub open spec fn spec_rule_build(
    action: SeccompAction,
    conds: Seq<SeccompCondition>,
    i: int,
) -> (Seq<sock_filter>, int)
    decreases i,
{
    if i <= 0 {
        (seq![spec_stmt((BPF_RET + BPF_K) as u16, action_code(action))], 1)
    } else {
        let prev = spec_rule_build(action, conds, i - 1);
        if prev.1 + CONDITION_MAX_LEN + 1 > 255 {
            let c = spec_cond_bpf(conds[i - 1], 1);
            (c + (spec_helper_jumps(prev.1) + prev.0), 1 + c.len() as int)
        } else {
            let c = spec_cond_bpf(conds[i - 1], prev.1);
            (c + prev.0, prev.1 + c.len() as int)
        }
    }
}

/// The BPF statements of a whole rule: two entry jumps (the first enters
/// the rule, the second jumps out of the chain), the conditions, and the
/// `RET action` terminal.
pub open spec fn spec_rule_bpf(r: SeccompRule) -> Seq<sock_filter> {
    let built = spec_rule_build(
        r.spec_action(),
        r.spec_conditions(),
        r.spec_conditions().len() as int,
    );
    seq![
        spec_stmt((BPF_JMP + BPF_JA) as u16, 1),
        spec_stmt((BPF_JMP + BPF_JA) as u16, (built.1 + 1) as u32),
    ] + built.0
}

/// The running jump offset of a rule body always stays in `1 ..= 254`.
pub proof fn lemma_rule_build_offset(action: SeccompAction, conds: Seq<SeccompCondition>, i: int)
    ensures
        1 <= spec_rule_build(action, conds, i).1 <= 254,
    decreases i,
{
    if i > 0 {
        lemma_rule_build_offset(action, conds, i - 1);
        let prev = spec_rule_build(action, conds, i - 1);
        if prev.1 + CONDITION_MAX_LEN + 1 > 255 {
            lemma_cond_bpf_len(conds[i - 1], 1);
        } else {
            lemma_cond_bpf_len(conds[i - 1], prev.1);
        }
    }
}

impl SeccompRule {
    /// The conditions of the rule.
    pub closed spec fn spec_conditions(self) -> Seq<SeccompCondition> {
        self.conditions@
    }

    /// The action of the rule.
    pub closed spec fn spec_action(self) -> SeccompAction {
        self.action
    }

    /// A rule is well formed when all its conditions are.
    pub open spec fn wf(self) -> bool {
        forall|i: int|
            0 <= i < self.spec_conditions().len() ==> (#[trigger] self.spec_conditions()[i]).wf()
    }

    /// Creates a new rule.  Rules with no conditions always match.
    pub fn new(conditions: Vec<SeccompCondition>, action: SeccompAction) -> (r: Self)
        ensures
            r.spec_conditions() == conditions@,
            r.spec_action() == action,
    {
        Self { conditions, action }
    }

    /// Translates the rule into BPF statements.
    pub fn into_bpf(&self) -> (r: Vec<sock_filter>)
        requires
            self.wf(),
        ensures
            r@ == spec_rule_bpf(*self),
    {
        let ghost action = self.spec_action();
        let ghost conds = self.spec_conditions();
        let mut tail: Vec<sock_filter> = Vec::new();
        tail.push(bpf_stmt(BPF_RET + BPF_K, self.action.code()));
        let mut offset: u8 = 1;
        let n = self.conditions.len();
        let mut i: usize = 0;
        assert(tail@ =~= spec_rule_build(action, conds, 0).0);
        while i < n
            invariant
                self.wf(),
                action == self.spec_action(),
                conds == self.spec_conditions(),
                n == conds.len(),
                0 <= i <= n,
                tail@ == spec_rule_build(action, conds, i as int).0,
                offset as int == spec_rule_build(action, conds, i as int).1,
            decreases n - i,
        {
            proof {
                lemma_rule_build_offset(action, conds, i as int);
            }
            if (offset as u16) + CONDITION_MAX_LEN + 1 > 255 {
                let mut padded: Vec<sock_filter> = Vec::new();
                padded.push(bpf_stmt(BPF_JMP + BPF_JA, 2));
                padded.push(bpf_stmt(BPF_JMP + BPF_JA, offset as u32 + 1));
                padded.push(bpf_stmt(BPF_JMP + BPF_JA, offset as u32 + 1));
                assert(padded@ =~= spec_helper_jumps(offset as int));
                padded.append(&mut tail);
                tail = padded;
                offset = 1;
            }
            proof {
                lemma_cond_bpf_len(conds[i as int], offset as int);
            }
            let mut c = self.conditions[i].into_bpf(offset);
            let clen = c.len();
            c.append(&mut tail);
            tail = c;
            offset = offset + clen as u8;
            i = i + 1;
            assert(tail@ =~= spec_rule_build(action, conds, i as int).0);
        }
        let mut r: Vec<sock_filter> = Vec::new();
        r.push(bpf_stmt(BPF_JMP + BPF_JA, 1));
        r.push(bpf_stmt(BPF_JMP + BPF_JA, offset as u32 + 1));
        r.append(&mut tail);
        assert(r@ =~= spec_rule_bpf(*self));
        r
    }
}

/// Builds the (syscall, rules) tuple for allowing a syscall regardless of
/// arguments.
pub fn allow_syscall(syscall_number: i64) -> (r: SyscallRuleSet)
    ensures
        r.0 == syscall_number,
        r.1@.len() == 1,
        r.1@[0].spec_conditions().len() == 0,
        r.1@[0].spec_action() == SeccompAction::Allow,
        r.1@[0].wf(),
{
    let mut rules: Vec<SeccompRule> = Vec::new();
    rules.push(SeccompRule::new(Vec::new(), SeccompAction::Allow));
    (syscall_number, rules)
}

/// Builds the (syscall, rules) tuple for allowing a syscall with certain
/// arguments.
pub fn allow_syscall_if(syscall_number: i64, rules: Vec<SeccompRule>) -> (r: SyscallRuleSet)
    ensures
        r.0 == syscall_number,
        r.1 == rules,
{
    (syscall_number, rules)
}

/// All rules of a chain are well formed.
pub open spec fn chain_rules_wf(chain: Seq<SeccompRule>) -> bool {
    forall|j: int| 0 <= j < chain.len() ==> (#[trigger] chain[j]).wf()
}

/// A rule chain is well formed: it is not empty and all its rules are well
/// formed.  Empty chains are excluded because the compiled chain of an
/// empty rule list would fall through to the default action for a syscall
/// that was explicitly listed.
pub open spec fn chain_wf(chain: Seq<SeccompRule>) -> bool {
    chain.len() > 0 && chain_rules_wf(chain)
}

/// The entries of a filter are sorted by strictly increasing syscall number.
pub open spec fn entries_sorted(entries: Seq<SyscallRuleSet>) -> bool {
    forall|i: int, j: int|
        0 <= i < j < entries.len() ==> (#[trigger] entries[i]).0 < (#[trigger] entries[j]).0
}

/// Well-formed filter entries: sorted by syscall number, with well-formed
/// chains.
pub open spec fn entries_wf(entries: Seq<SyscallRuleSet>) -> bool {
    entries_sorted(entries) && forall|i: int|
        0 <= i < entries.len() ==> chain_wf((#[trigger] entries[i]).1@)
}

/// The rule chain that `entries` assigns to syscall `nr` (the first match).
pub open spec fn spec_chain_of(entries: Seq<SyscallRuleSet>, nr: i64) -> Option<Seq<SeccompRule>>
    decreases entries.len(),
{
    if entries.len() == 0 {
        None
    } else if entries[0].0 == nr {
        Some(entries[0].1@)
    } else {
        spec_chain_of(entries.drop_first(), nr)
    }
}

/// The chain that collecting `entries` into a map assigns to syscall `nr`:
/// the chain of the last entry with that syscall number.
pub open spec fn spec_collect_chain(
    entries: Seq<SyscallRuleSet>,
    nr: i64,
) -> Option<Seq<SeccompRule>>
    decreases entries.len(),
{
    if entries.len() == 0 {
        None
    } else if entries.last().0 == nr {
        Some(entries.last().1@)
    } else {
        spec_collect_chain(entries.drop_last(), nr)
    }
}

/// Some entry carries syscall number `nr`.
pub open spec fn has_key(entries: Seq<SyscallRuleSet>, nr: i64) -> bool {
    exists|i: int| 0 <= i < entries.len() && (#[trigger] entries[i]).0 == nr
}

/// Looking a key up in a concatenation first searches the left part.
pub proof fn lemma_chain_of_concat(s1: Seq<SyscallRuleSet>, s2: Seq<SyscallRuleSet>, nr: i64)
    ensures
        spec_chain_of(s1 + s2, nr) == if spec_chain_of(s1, nr) is Some {
            spec_chain_of(s1, nr)
        } else {
            spec_chain_of(s2, nr)
        },
    decreases s1.len(),
{
    if s1.len() == 0 {
        assert(s1 + s2 =~= s2);
    } else {
        assert((s1 + s2)[0] == s1[0]);
        assert((s1 + s2).drop_first() =~= s1.drop_first() + s2);
        lemma_chain_of_concat(s1.drop_first(), s2, nr);
    }
}

/// A lookup succeeds exactly when some entry carries the key.
pub proof fn lemma_chain_of_has_key(entries: Seq<SyscallRuleSet>, nr: i64)
    ensures
        spec_chain_of(entries, nr) is Some <==> has_key(entries, nr),
    decreases entries.len(),
{
    if entries.len() > 0 {
        lemma_chain_of_has_key(entries.drop_first(), nr);
        if entries[0].0 == nr {
            assert(has_key(entries, nr));
        } else if has_key(entries.drop_first(), nr) {
            let i = choose|i: int|
                0 <= i < entries.drop_first().len() && entries.drop_first()[i].0 == nr;
            assert(entries[i + 1].0 == nr);
        } else if has_key(entries, nr) {
            let i = choose|i: int| 0 <= i < entries.len() && entries[i].0 == nr;
            assert(entries.drop_first()[i - 1].0 == nr);
        }
    }
}

/// Lookup in a one-entry list.
pub proof fn lemma_chain_of_singleton(e: SyscallRuleSet, k: i64)
    ensures
        spec_chain_of(seq![e], k) == if e.0 == k {
            Some(e.1@)
        } else {
            None::<Seq<SeccompRule>>
        },
{
    assert(seq![e].drop_first() =~= Seq::<SyscallRuleSet>::empty());
    assert(spec_chain_of(Seq::<SyscallRuleSet>::empty(), k) is None);
}

/// Collecting yields a chain exactly when some entry carries the key.
pub proof fn lemma_collect_chain_has_key(entries: Seq<SyscallRuleSet>, nr: i64)
    ensures
        spec_collect_chain(entries, nr) is Some <==> has_key(entries, nr),
    decreases entries.len(),
{
    if entries.len() > 0 {
        if entries.last().0 == nr {
            assert((#[trigger] entries[entries.len() - 1]).0 == nr);
        } else {
            lemma_collect_chain_has_key(entries.drop_last(), nr);
            if has_key(entries.drop_last(), nr) {
                let i = choose|i: int|
                    0 <= i < entries.drop_last().len() && entries.drop_last()[i].0 == nr;
                assert(entries[i].0 == nr);
            } else if has_key(entries, nr) {
                let i = choose|i: int| 0 <= i < entries.len() && entries[i].0 == nr;
                assert(entries.drop_last()[i].0 == nr);
            }
        }
    }
}

/// In an entry list whose chains are all the single unconditional `Kill`
/// rule, any collected chain has that shape.
pub proof fn lemma_collect_single_kill(entries: Seq<SyscallRuleSet>, nr: i64)
    requires
        forall|i: int|
            0 <= i < entries.len() ==> (#[trigger] entries[i]).1@.len() == 1
                && entries[i].1@[0].spec_conditions().len() == 0
                && entries[i].1@[0].spec_action() == SeccompAction::Kill,
    ensures
        spec_collect_chain(entries, nr) matches Some(c) ==> c.len() == 1
            && c[0].spec_conditions().len() == 0 && c[0].spec_action() == SeccompAction::Kill,
    decreases entries.len(),
{
    if entries.len() > 0 {
        if entries.last().0 == nr {
            assert((#[trigger] entries[entries.len() - 1]).1@.len() == 1);
        } else {
            assert forall|i: int|
                0 <= i < entries.drop_last().len() implies (#[trigger] entries.drop_last()[
            i]).1@.len() == 1 && entries.drop_last()[i].1@[0].spec_conditions().len() == 0
                && entries.drop_last()[i].1@[0].spec_action() == SeccompAction::Kill by {
                assert(entries.drop_last()[i] == entries[i]);
            }
            lemma_collect_single_kill(entries.drop_last(), nr);
        }
    }
}

/// In a sorted entry list the lookup of the key at index `i` returns the
/// chain at index `i`.
pub proof fn lemma_chain_of_index(entries: Seq<SyscallRuleSet>, i: int)
    requires
        entries_sorted(entries),
        0 <= i < entries.len(),
    ensures
        spec_chain_of(entries, entries[i].0) == Some(entries[i].1@),
    decreases entries.len(),
{
    if i > 0 {
        assert(entries[0].0 < entries[i].0);
        assert(entries.drop_first()[i - 1] == entries[i]);
        assert(entries_sorted(entries.drop_first())) by {
            assert forall|a: int, b: int|
                0 <= a < b < entries.drop_first().len() implies (#[trigger] entries.drop_first()[
                a]).0 < (#[trigger] entries.drop_first()[b]).0 by {
                assert(entries.drop_first()[a] == entries[a + 1]);
                assert(entries.drop_first()[b] == entries[b + 1]);
            }
        }
        lemma_chain_of_index(entries.drop_first(), i - 1);
    }
}

/// Builds the (syscall, rules) tuple that unconditionally applies `Kill` to
/// a syscall.
pub fn deny_syscall(syscall_number: i64) -> (r: SyscallRuleSet)
    ensures
        r.0 == syscall_number,
        r.1@.len() == 1,
        r.1@[0].spec_conditions().len() == 0,
        r.1@[0].spec_action() == SeccompAction::Kill,
        r.1@[0].wf(),
{
    let mut rules: Vec<SeccompRule> = Vec::new();
    rules.push(SeccompRule::new(Vec::new(), SeccompAction::Kill));
    (syscall_number, rules)
}

/// Splicing an entry into a sorted entry list at its ordered position
/// keeps the list well formed and changes the chain of exactly that
/// entry's key.  When `found` holds, the entry replaces the one that held
/// the key before; otherwise it is inserted between its neighbours.
proof fn lemma_splice_entry(
    entries: Seq<SyscallRuleSet>,
    idx: int,
    entry: SyscallRuleSet,
    found: bool,
    merged: Seq<SyscallRuleSet>,
)
    requires
        entries_wf(entries),
        chain_wf(entry.1@),
        0 <= idx <= entries.len(),
        forall|j: int| 0 <= j < idx ==> (#[trigger] entries[j]).0 < entry.0,
        found ==> idx < entries.len() && entries[idx].0 == entry.0,
        !found ==> idx == entries.len() || entries[idx].0 > entry.0,
        merged == entries.subrange(0, idx) + seq![entry] + entries.subrange(
            if found {
                idx + 1
            } else {
                idx
            },
            entries.len() as int,
        ),
    ensures
        entries_wf(merged),
        spec_chain_of(merged, entry.0) == Some(entry.1@),
        forall|k: i64|
            k != entry.0 ==> #[trigger] spec_chain_of(merged, k) == spec_chain_of(entries, k),
{
    let nr = entry.0;
    let base: int = if found {
        idx + 1
    } else {
        idx
    };
    let left = entries.subrange(0, idx);
    let right = entries.subrange(base, entries.len() as int);
    let mid = seq![entry];
    assert(merged =~= left + mid + right);
    assert forall|j: int| 0 <= j < right.len() implies (#[trigger] right[j]).0 > nr by {
        assert(right[j] == entries[base + j]);
        if found {
            assert(entries[idx].0 < entries[base + j].0);
        } else if j > 0 {
            assert(entries[idx].0 < entries[idx + j].0);
        }
    }
    // Index mapping: merged keeps the old entries around position idx.
    assert forall|a: int| 0 <= a < merged.len() implies #[trigger] merged[a] == (if a < idx {
        entries[a]
    } else if a == idx {
        entry
    } else {
        entries[base + a - idx - 1]
    }) by {
        if a < idx {
            assert(merged[a] == left[a]);
        } else if a == idx {
            assert(merged[a] == mid[0]);
        } else {
            assert(merged[a] == right[a - idx - 1]);
        }
    }
    assert forall|a: int, b: int|
        0 <= a < b < merged.len() implies (#[trigger] merged[a]).0 < (#[trigger] merged[b]).0 by {
        if a > idx && b > idx {
            assert(entries[base + a - idx - 1].0 < entries[base + b - idx - 1].0);
        }
    }
    assert forall|a: int| 0 <= a < merged.len() implies chain_wf((#[trigger] merged[a]).1@) by {
        if a < idx {
            assert(chain_wf(entries[a].1@));
        } else if a > idx {
            assert(chain_wf(entries[base + a - idx - 1].1@));
        }
    }
    // Lookup of the spliced key.
    assert forall|j: int| 0 <= j < left.len() implies (#[trigger] left[j]).0 != nr by {
        assert(left[j] == entries[j]);
    }
    lemma_chain_of_has_key(left, nr);
    assert(merged =~= left + (mid + right));
    lemma_chain_of_concat(left, mid + right, nr);
    lemma_chain_of_concat(mid, right, nr);
    lemma_chain_of_singleton(entry, nr);
    // Lookup of every other key is unchanged.
    assert forall|k: i64|
        k != nr implies #[trigger] spec_chain_of(merged, k) == spec_chain_of(entries, k) by {
        lemma_chain_of_concat(left, mid + right, k);
        lemma_chain_of_concat(mid, right, k);
        lemma_chain_of_singleton(entry, k);
        if found {
            assert(entries =~= left + (seq![entries[idx]] + right));
            lemma_chain_of_concat(left, seq![entries[idx]] + right, k);
            lemma_chain_of_concat(seq![entries[idx]], right, k);
            lemma_chain_of_singleton(entries[idx], k);
        } else {
            assert(entries =~= left + right);
            lemma_chain_of_concat(left, right, k);
        }
    }
}

impl SeccompFilter {
    /// The entries of the filter, sorted by syscall number.
    pub closed spec fn spec_rules(self) -> Seq<SyscallRuleSet> {
        self.rules@
    }

    /// The default action of the filter.
    pub closed spec fn spec_default_action(self) -> SeccompAction {
        self.default_action
    }

    /// A filter is well formed when its entries are.
    pub open spec fn wf(self) -> bool {
        entries_wf(self.spec_rules())
    }

    /// Creates an empty filter which allows everything.
    pub fn empty() -> (r: SeccompFilter)
        ensures
            r.wf(),
            r.spec_rules().len() == 0,
            r.spec_default_action() == SeccompAction::Allow,
    {
        Self { rules: Vec::new(), default_action: SeccompAction::Allow }
    }

    /// Puts `chain` in place of whatever chain `nr` currently has, keeping
    /// the entries sorted.
    fn insert_chain(&mut self, nr: i64, chain: Vec<SeccompRule>)
        requires
            old(self).wf(),
            chain_wf(chain@),
        ensures
            final(self).wf(),
            final(self).spec_default_action() == old(self).spec_default_action(),
            spec_chain_of(final(self).spec_rules(), nr) == Some(chain@),
            forall|k: i64|
                k != nr ==> #[trigger] spec_chain_of(final(self).spec_rules(), k) == spec_chain_of(
                    old(self).spec_rules(),
                    k,
                ),
    {
        let ghost entries = self.rules@;
        let mut idx: usize = 0;
        while idx < self.rules.len() && self.rules[idx].0 < nr
            invariant
                self == old(self),
                entries == self.rules@,
                0 <= idx <= entries.len(),
                forall|j: int| 0 <= j < idx ==> (#[trigger] entries[j]).0 < nr,
            decreases self.rules@.len() - idx,
        {
            idx = idx + 1;
        }
        let found = idx < self.rules.len() && self.rules[idx].0 == nr;
        if found {
            self.rules.remove(idx);
        }
        let ghost entry_g: SyscallRuleSet = (nr, chain);
        self.rules.insert(idx, (nr, chain));
        proof {
            let base: int = if found {
                idx as int + 1
            } else {
                idx as int
            };
            assert(self.rules@ =~= entries.subrange(0, idx as int) + seq![entry_g]
                + entries.subrange(base, entries.len() as int));
            lemma_splice_entry(entries, idx as int, entry_g, found, self.rules@);
        }
    }

    /// Creates a new filter from a list of `(syscall, chain)` entries and a
    /// default action.
    ///
    /// Entries are collected in order, a later entry for a syscall
    /// replacing an earlier one.  Every chain must hold at least one rule,
    /// otherwise building fails with [`Error::EmptyRulesVector`].
    #[verifier::loop_isolation(false)]
    pub fn new(rules: Vec<SyscallRuleSet>, default_action: SeccompAction) -> (r: Result<
        SeccompFilter,
        Error,
    >)
        requires
            forall|i: int|
                0 <= i < rules@.len() ==> chain_rules_wf((#[trigger] rules@[i]).1@),
        ensures
            r is Ok ==> (forall|i: int|
                0 <= i < rules@.len() ==> (#[trigger] rules@[i]).1@.len() > 0),
            r matches Err(e) ==> e == Error::EmptyRulesVector && (exists|i: int|
                0 <= i < rules@.len() && (#[trigger] rules@[i]).1@.len() == 0),
            r matches Ok(f) ==> f.wf() && f.spec_default_action() == default_action && forall|
                nr: i64,
            |
                #[trigger] spec_chain_of(f.spec_rules(), nr) == spec_collect_chain(rules@, nr),
    {
        let ghost all = rules@;
        let mut filter = SeccompFilter { rules: Vec::new(), default_action };
        let mut src = rules;
        let ghost done: int = 0;
        proof {
            assert(all.subrange(0, 0) =~= Seq::<SyscallRuleSet>::empty());
        }
        while src.len() > 0
            invariant
                0 <= done <= all.len(),
                src@ == all.subrange(done, all.len() as int),
                filter.wf(),
                filter.spec_default_action() == default_action,
                forall|i: int| 0 <= i < all.len() ==> chain_rules_wf((#[trigger] all[i]).1@),
                forall|i: int| 0 <= i < done ==> (#[trigger] all[i]).1@.len() > 0,
                forall|nr: i64|
                    #[trigger] spec_chain_of(filter.spec_rules(), nr) == spec_collect_chain(
                        all.subrange(0, done),
                        nr,
                    ),
            decreases src@.len(),
        {
            let entry = src.remove(0);
            proof {
                assert(all[done] == entry);
                assert(src@ =~= all.subrange(done + 1, all.len() as int));
            }
            if entry.1.len() == 0 {
                proof {
                    assert(0 <= done < all.len() && (#[trigger] all[done]).1@.len() == 0);
                    assert(exists|i: int|
                        0 <= i < all.len() && (#[trigger] all[i]).1@.len() == 0);
                }
                return Err(Error::EmptyRulesVector);
            }
            filter.insert_chain(entry.0, entry.1);
            proof {
                done = done + 1;
                let prefix = all.subrange(0, done);
                assert(prefix.last() == entry);
                assert(prefix.drop_last() =~= all.subrange(0, done - 1));
            }
        }
        proof {
            assert(all.subrange(0, done) =~= all);
        }
        Ok(filter)
    }

    /// Adds rules for the specified syscall, appending to any chain the
    /// syscall already has.  An empty rule vector is refused with
    /// [`Error::EmptyRulesVector`] and leaves the filter unchanged.
    pub fn add_rules(&mut self, syscall_number: i64, rules: Vec<SeccompRule>) -> (r: Result<
        (),
        Error,
    >)
        requires
            old(self).wf(),
            chain_rules_wf(rules@),
        ensures
            r is Ok <==> rules@.len() > 0,
            r matches Err(e) ==> e == Error::EmptyRulesVector && *final(self) == *old(self),
            r is Ok ==> final(self).wf() && final(self).spec_default_action() == old(
                self,
            ).spec_default_action() && spec_chain_of(final(self).spec_rules(), syscall_number)
                == Some(
                match spec_chain_of(old(self).spec_rules(), syscall_number) {
                    Some(c) => c + rules@,
                    None => rules@,
                },
            ) && (forall|k: i64|
                k != syscall_number ==> #[trigger] spec_chain_of(final(self).spec_rules(), k)
                    == spec_chain_of(old(self).spec_rules(), k)),
    {
        if rules.len() == 0 {
            return Err(Error::EmptyRulesVector);
        }
        let ghost entries = self.rules@;
        let mut idx: usize = 0;
        while idx < self.rules.len() && self.rules[idx].0 < syscall_number
            invariant
                self == old(self),
                entries == self.rules@,
                0 <= idx <= entries.len(),
                forall|j: int| 0 <= j < idx ==> (#[trigger] entries[j]).0 < syscall_number,
            decreases self.rules@.len() - idx,
        {
            idx = idx + 1;
        }
        let found = idx < self.rules.len() && self.rules[idx].0 == syscall_number;
        if found {
            let mut entry = self.rules.remove(idx);
            proof {
                lemma_chain_of_index(entries, idx as int);
                lemma_remove_preserves(entries, idx as int);
                assert(self.rules@ =~= entries.subrange(0, idx as int) + entries.subrange(
                    idx as int + 1,
                    entries.len() as int,
                ));
            }
            let mut new_rules = rules;
            entry.1.append(&mut new_rules);
            self.insert_chain(syscall_number, entry.1);
        } else {
            proof {
                assert forall|j: int| 0 <= j < entries.len() implies (#[trigger] entries[j]).0
                    != syscall_number by {
                    if j >= idx {
                        if j > idx {
                            assert(entries[idx as int].0 < entries[j].0);
                        }
                    }
                }
                lemma_chain_of_has_key(entries, syscall_number);
            }
            self.insert_chain(syscall_number, rules);
        }
        Ok(())
    }

    /// Replaces every chain of the filter by one unconditional `Allow`
    /// rule, keeping the set of syscall numbers and the default action.
    pub fn allow_all(self) -> (r: SeccompFilter)
        requires
            self.wf(),
        ensures
            r.wf(),
            r.spec_default_action() == self.spec_default_action(),
            forall|nr: i64|
                #[trigger] spec_chain_of(r.spec_rules(), nr) is Some <==> spec_chain_of(
                    self.spec_rules(),
                    nr,
                ) is Some,
            forall|nr: i64|
                #[trigger] spec_chain_of(r.spec_rules(), nr) matches Some(c) ==> c.len() == 1
                    && c[0].spec_conditions().len() == 0 && c[0].spec_action()
                    == SeccompAction::Allow,
    {
        let ghost entries = self.rules@;
        let mut replaced: Vec<SyscallRuleSet> = Vec::new();
        let n = self.rules.len();
        let mut i: usize = 0;
        while i < n
            invariant
                entries == self.rules@,
                n == entries.len(),
                0 <= i <= n,
                entries_wf(entries),
                replaced@.len() == i,
                forall|j: int|
                    0 <= j < i ==> (#[trigger] replaced@[j]).0 == entries[j].0 && replaced@[j].1@.len()
                        == 1 && replaced@[j].1@[0].spec_conditions().len() == 0
                        && replaced@[j].1@[0].spec_action() == SeccompAction::Allow,
            decreases n - i,
        {
            let nr = self.rules[i].0;
            replaced.push(allow_syscall(nr));
            i = i + 1;
        }
        proof {
            assert forall|a: int, b: int|
                0 <= a < b < replaced@.len() implies (#[trigger] replaced@[a]).0 < (
            #[trigger] replaced@[b]).0 by {
                assert(entries[a].0 < entries[b].0);
            }
            assert forall|a: int| 0 <= a < replaced@.len() implies chain_wf(
                (#[trigger] replaced@[a]).1@,
            ) by {
                assert(replaced@[a].1@[0].wf());
            }
            assert forall|nr: i64| #[trigger] has_key(replaced@, nr) == has_key(entries, nr) by {
                if has_key(replaced@, nr) {
                    let w = choose|w: int| 0 <= w < replaced@.len() && replaced@[w].0 == nr;
                    assert(entries[w].0 == nr);
                }
                if has_key(entries, nr) {
                    let w = choose|w: int| 0 <= w < entries.len() && entries[w].0 == nr;
                    assert(replaced@[w].0 == nr);
                }
            }
            assert forall|nr: i64| #[trigger] spec_chain_of(replaced@, nr) is Some <==> spec_chain_of(
                entries,
                nr,
            ) is Some by {
                lemma_chain_of_has_key(replaced@, nr);
                lemma_chain_of_has_key(entries, nr);
            }
            assert forall|nr: i64| (#[trigger] spec_chain_of(replaced@, nr)) is Some implies {
                let c = spec_chain_of(replaced@, nr)->0;
                c.len() == 1 && c[0].spec_conditions().len() == 0 && c[0].spec_action()
                    == SeccompAction::Allow
            } by {
                lemma_chain_of_has_key(replaced@, nr);
                let w = choose|w: int| 0 <= w < replaced@.len() && replaced@[w].0 == nr;
                lemma_chain_of_index(replaced@, w);
            }
        }
        SeccompFilter { rules: replaced, default_action: self.default_action }
    }
}

/// The concatenated BPF statements of the first `i` rules of a chain.
pub open spec fn spec_rules_bpf(rules: Seq<SeccompRule>, i: int) -> Seq<sock_filter>
    decreases i,
{
    if i <= 0 {
        Seq::empty()
    } else {
        spec_rules_bpf(rules, i - 1) + spec_rule_bpf(rules[i - 1])
    }
}

/// The BPF statements of the whole chain of one syscall: a comparison of
/// the loaded syscall number that skips into the chain's rules on a match,
/// the rules, and the `RET default_action` reached when every rule of the
/// chain fails.
pub open spec fn spec_chain_bpf(
    syscall_number: i64,
    rules: Seq<SeccompRule>,
    default_code: u32,
) -> Seq<sock_filter> {
    seq![spec_jump((BPF_JMP + BPF_JEQ + BPF_K) as u16, syscall_number as u32, 0, 1)]
        + spec_rules_bpf(rules, rules.len() as int) + seq![
        spec_stmt((BPF_RET + BPF_K) as u16, default_code),
    ]
}

/// The concatenated chains of the first `i` entries of a filter.
pub open spec fn spec_chains_bpf(
    entries: Seq<SyscallRuleSet>,
    default_code: u32,
    i: int,
) -> Seq<sock_filter>
    decreases i,
{
    if i <= 0 {
        Seq::empty()
    } else {
        spec_chains_bpf(entries, default_code, i - 1) + spec_chain_bpf(
            entries[i - 1].0,
            entries[i - 1].1@,
            default_code,
        )
    }
}

/// The BPF program of a whole filter: a load of the syscall number, the
/// chains of all entries in ascending syscall order, and a final
/// `RET default_action`.  A filter without entries compiles to the empty
/// program, which is never installed.
pub open spec fn spec_filter_bpf(f: SeccompFilter) -> Seq<sock_filter> {
    if f.spec_rules().len() == 0 {
        Seq::empty()
    } else {
        seq![spec_stmt((BPF_LD + BPF_W + BPF_ABS) as u16, SECCOMP_DATA_NR_OFFSET as u32)]
            + spec_chains_bpf(
            f.spec_rules(),
            action_code(f.spec_default_action()),
            f.spec_rules().len() as int,
        ) + seq![spec_stmt((BPF_RET + BPF_K) as u16, action_code(f.spec_default_action()))]
    }
}

/// Chain concatenations only grow.
pub proof fn lemma_chains_bpf_len_monotone(
    entries: Seq<SyscallRuleSet>,
    default_code: u32,
    i: int,
    j: int,
)
    requires
        i <= j,
    ensures
        spec_chains_bpf(entries, default_code, i).len() <= spec_chains_bpf(
            entries,
            default_code,
            j,
        ).len(),
    decreases j - i,
{
    if i < j {
        lemma_chains_bpf_len_monotone(entries, default_code, i, j - 1);
    }
}

/// Translates one syscall's chain into BPF statements.
fn chain_bpf(syscall_number: i64, chain: &Vec<SeccompRule>, default_code: u32) -> (r: Vec<
    sock_filter,
>)
    requires
        chain_rules_wf(chain@),
    ensures
        r@ == spec_chain_bpf(syscall_number, chain@, default_code),
{
    let mut r: Vec<sock_filter> = Vec::new();
    r.push(bpf_jump(BPF_JMP + BPF_JEQ + BPF_K, #[verifier::truncate] (syscall_number as u32), 0, 1));
    let n = chain.len();
    let mut i: usize = 0;
    assert(r@ =~= seq![
        spec_jump((BPF_JMP + BPF_JEQ + BPF_K) as u16, syscall_number as u32, 0, 1),
    ] + spec_rules_bpf(chain@, 0));
    while i < n
        invariant
            chain_rules_wf(chain@),
            n == chain@.len(),
            0 <= i <= n,
            r@ == seq![
                spec_jump((BPF_JMP + BPF_JEQ + BPF_K) as u16, syscall_number as u32, 0, 1),
            ] + spec_rules_bpf(chain@, i as int),
        decreases n - i,
    {
        let mut rule_prog = chain[i].into_bpf();
        r.append(&mut rule_prog);
        i = i + 1;
    }
    r.push(bpf_stmt(BPF_RET + BPF_K, default_code));
    assert(r@ =~= spec_chain_bpf(syscall_number, chain@, default_code));
    r
}

impl SeccompFilter {
    /// Translates the filter into a BPF program.
    ///
    /// A filter without entries yields the empty program.  Otherwise the
    /// program is the one [`spec_filter_bpf`] describes, and compilation
    /// succeeds exactly when that program stays within [`BPF_MAX_LEN`]
    /// instructions; a longer program is refused with
    /// [`Error::FilterTooLarge`].
    pub fn compile(&self) -> (r: Result<BpfProgram, Error>)
        requires
            self.wf(),
        ensures
            match r {
                Ok(p) => p@ == spec_filter_bpf(*self) && p@.len() <= BPF_MAX_LEN,
                Err(e) => e == Error::FilterTooLarge && spec_filter_bpf(*self).len()
                    > BPF_MAX_LEN,
            },
    {
        let ghost entries = self.rules@;
        let ghost dc = action_code(self.spec_default_action());
        let n = self.rules.len();
        if n == 0 {
            let empty_prog: Vec<sock_filter> = Vec::new();
            return Ok(empty_prog);
        }
        let default_code = self.default_action.code();
        let mut prog: Vec<sock_filter> = Vec::new();
        prog.push(bpf_stmt(BPF_LD + BPF_W + BPF_ABS, SECCOMP_DATA_NR_OFFSET as u32));
        let ghost head = seq![
            spec_stmt((BPF_LD + BPF_W + BPF_ABS) as u16, SECCOMP_DATA_NR_OFFSET as u32),
        ];
        let mut i: usize = 0;
        assert(prog@ =~= head + spec_chains_bpf(entries, dc, 0));
        while i < n
            invariant
                self.wf(),
                entries == self.rules@,
                dc == action_code(self.spec_default_action()),
                default_code == dc,
                n == entries.len(),
                head == seq![
                    spec_stmt((BPF_LD + BPF_W + BPF_ABS) as u16, SECCOMP_DATA_NR_OFFSET as u32),
                ],
                0 <= i <= n,
                prog@ == head + spec_chains_bpf(entries, dc, i as int),
                prog@.len() < BPF_MAX_LEN,
            decreases n - i,
        {
            let entry = &self.rules[i];
            assert(chain_rules_wf(entry.1@)) by {
                assert(chain_wf(entries[i as int].1@));
            }
            let mut chain_prog = chain_bpf(entry.0, &entry.1, default_code);
            prog.append(&mut chain_prog);
            if prog.len() >= BPF_MAX_LEN {
                proof {
                    lemma_chains_bpf_len_monotone(entries, dc, i as int + 1, n as int);
                    assert(spec_filter_bpf(*self).len() == head.len() + spec_chains_bpf(
                        entries,
                        dc,
                        n as int,
                    ).len() + 1);
                }
                return Err(Error::FilterTooLarge);
            }
            i = i + 1;
        }
        prog.push(bpf_stmt(BPF_RET + BPF_K, default_code));
        assert(prog@ =~= spec_filter_bpf(*self));
        Ok(prog)
    }
}

/// The architecture whose syscall numbering a compiled filter is meant
/// for.  Only the two little-endian 64-bit architectures below are
/// supported; a program built for one is rejected by the kernel's
/// architecture gate when run on any other.
#[derive(Clone, Copy, Debug, PartialEq, Eq, Structural)]
pub enum SeccompArch {
    /// 64-bit x86.
    Amd64,
    /// 64-bit Arm.
    Aarch64,
}

/// The audit identifier the kernel reports for the architecture.
pub open spec fn spec_audit_arch(arch: SeccompArch) -> u32 {
    match arch {
        SeccompArch::Amd64 => AUDIT_ARCH_X86_64,
        SeccompArch::Aarch64 => AUDIT_ARCH_AARCH64,
    }
}

/// The three instructions of the architecture gate: load the `arch` field
/// of `seccomp_data`, compare it with the expected audit identifier, and
/// kill the process on a mismatch.
pub open spec fn spec_arch_gate(arch: SeccompArch) -> Seq<sock_filter> {
    seq![
        spec_stmt((BPF_LD + BPF_W + BPF_ABS) as u16, SECCOMP_DATA_ARCH_OFFSET as u32),
        spec_jump((BPF_JMP + BPF_JEQ + BPF_K) as u16, spec_audit_arch(arch), 1, 0),
        spec_stmt((BPF_RET + BPF_K) as u16, SECCOMP_RET_KILL),
    ]
}

/// Builds the sequence of BPF instructions that validate the underlying
/// architecture.
pub fn validate_architecture(arch: SeccompArch) -> (r: Vec<sock_filter>)
    ensures
        r@ == spec_arch_gate(arch),
{
    let audit = match arch {
        SeccompArch::Amd64 => AUDIT_ARCH_X86_64,
        SeccompArch::Aarch64 => AUDIT_ARCH_AARCH64,
    };
    let mut r: Vec<sock_filter> = Vec::new();
    r.push(bpf_stmt(BPF_LD + BPF_W + BPF_ABS, SECCOMP_DATA_ARCH_OFFSET as u32));
    r.push(bpf_jump(BPF_JMP + BPF_JEQ + BPF_K, audit, 1, 0));
    r.push(bpf_stmt(BPF_RET + BPF_K, SECCOMP_RET_KILL));
    assert(r@ =~= spec_arch_gate(arch));
    r
}

/// Prepends the architecture gate to a compiled filter program, yielding
/// the program that is handed to the kernel.
pub fn installable_program(arch: SeccompArch, filter_prog: &BpfProgram) -> (r: BpfProgram)
    ensures
        r@ == spec_arch_gate(arch) + filter_prog@,
{
    let mut r = validate_architecture(arch);
    let mut i: usize = 0;
    while i < filter_prog.len()
        invariant
            0 <= i <= filter_prog@.len(),
            r@ == spec_arch_gate(arch) + filter_prog@.subrange(0, i as int),
        decreases filter_prog@.len() - i,
    {
        r.push(filter_prog[i]);
        proof {
            assert(filter_prog@.subrange(0, i as int).push(filter_prog@[i as int])
                =~= filter_prog@.subrange(0, i + 1));
        }
        i = i + 1;
    }
    proof {
        assert(filter_prog@.subrange(0, filter_prog@.len() as int) =~= filter_prog@);
    }
    r
}

/// Compilation is deterministic: the compiled program is a function of the
/// filter alone, so any two programs that satisfy the contract of
/// [`SeccompFilter::compile`] for equal filters are byte-identical.
pub proof fn lemma_compile_deterministic(
    f1: SeccompFilter,
    f2: SeccompFilter,
    p1: Seq<sock_filter>,
    p2: Seq<sock_filter>,
)
    requires
        f1 == f2,
        p1 == spec_filter_bpf(f1),
        p2 == spec_filter_bpf(f2),
    ensures
        p1 == p2,
{
}

/// Every installable program begins with the architecture gate and ends
/// with a `RET default_action` instruction.
pub proof fn lemma_installable_program_framing(f: SeccompFilter, arch: SeccompArch)
    requires
        f.wf(),
        f.spec_rules().len() > 0,
    ensures
        ({
            let p = spec_arch_gate(arch) + spec_filter_bpf(f);
            &&& p.len() >= 5
            &&& p.subrange(0, 3) == spec_arch_gate(arch)
            &&& p.last() == spec_stmt((BPF_RET + BPF_K) as u16, action_code(f.spec_default_action()))
        }),
{
    let gate = spec_arch_gate(arch);
    let body = spec_filter_bpf(f);
    let p = gate + body;
    lemma_chains_bpf_len_monotone(
        f.spec_rules(),
        action_code(f.spec_default_action()),
        0,
        f.spec_rules().len() as int,
    );
    assert(p.subrange(0, 3) =~= gate);
    assert(body.last() == spec_stmt((BPF_RET + BPF_K) as u16, action_code(f.spec_default_action())));
    assert(p.last() == body.last());
}

/// Every chain of the entry list is a single rule without conditions, the
/// shape that [`allow_syscall`] and [`deny_syscall`] build.
pub open spec fn unconditional_chains(entries: Seq<SyscallRuleSet>) -> bool {
    forall|i: int|
        0 <= i < entries.len() ==> (#[trigger] entries[i]).1@.len() == 1 && entries[i].1@[0].spec_conditions().len()
            == 0
}

/// The action code of the first entry whose syscall number, truncated to
/// the 32 bits a BPF comparison sees, equals the loaded number.
pub open spec fn spec_match32(entries: Seq<SyscallRuleSet>, nr32: u32) -> Option<u32>
    decreases entries.len(),
{
    if entries.len() == 0 {
        None
    } else if entries[0].0 as u32 == nr32 {
        Some(action_code(entries[0].1@[0].spec_action()))
    } else {
        spec_match32(entries.drop_first(), nr32)
    }
}

/// The chain of a single unconditional rule compiles to exactly five
/// instructions: the syscall comparison, the rule's two entry jumps, its
/// `RET action`, and the chain's `RET default`.
proof fn lemma_unconditional_chain_bpf(nr: i64, chain: Seq<SeccompRule>, dc: u32)
    requires
        chain.len() == 1,
        chain[0].spec_conditions().len() == 0,
    ensures
        spec_chain_bpf(nr, chain, dc) =~= seq![
            spec_jump((BPF_JMP + BPF_JEQ + BPF_K) as u16, nr as u32, 0, 1),
            spec_stmt((BPF_JMP + BPF_JA) as u16, 1),
            spec_stmt((BPF_JMP + BPF_JA) as u16, 2),
            spec_stmt((BPF_RET + BPF_K) as u16, action_code(chain[0].spec_action())),
            spec_stmt((BPF_RET + BPF_K) as u16, dc),
        ],
{
    assert(spec_rules_bpf(chain, 1) == spec_rules_bpf(chain, 0) + spec_rule_bpf(chain[0]));
    assert(spec_rule_build(chain[0].spec_action(), chain[0].spec_conditions(), 0).0 =~= seq![
        spec_stmt((BPF_RET + BPF_K) as u16, action_code(chain[0].spec_action())),
    ]);
}

/// Chains of single unconditional rules concatenate to five instructions
/// each.
proof fn lemma_unconditional_chains_len(entries: Seq<SyscallRuleSet>, dc: u32, i: int)
    requires
        unconditional_chains(entries),
        0 <= i <= entries.len(),
    ensures
        spec_chains_bpf(entries, dc, i).len() == 5 * i,
    decreases i,
{
    if i > 0 {
        lemma_unconditional_chains_len(entries, dc, i - 1);
        lemma_unconditional_chain_bpf(entries[i - 1].0, entries[i - 1].1@, dc);
    }
}

/// The chain of entry `i` occupies positions `5 i .. 5 i + 5` of the
/// concatenated chains.
proof fn lemma_unconditional_chain_slice(entries: Seq<SyscallRuleSet>, dc: u32, i: int, n: int)
    requires
        unconditional_chains(entries),
        0 <= i < n <= entries.len(),
    ensures
        spec_chains_bpf(entries, dc, n).subrange(5 * i, 5 * i + 5) =~= spec_chain_bpf(
            entries[i].0,
            entries[i].1@,
            dc,
        ),
    decreases n,
{
    lemma_unconditional_chains_len(entries, dc, i);
    lemma_unconditional_chains_len(entries, dc, n);
    lemma_unconditional_chain_bpf(entries[i].0, entries[i].1@, dc);
    if n == i + 1 {
        assert(spec_chains_bpf(entries, dc, n) == spec_chains_bpf(entries, dc, i) + spec_chain_bpf(
            entries[i].0,
            entries[i].1@,
            dc,
        ));
    } else {
        lemma_unconditional_chain_slice(entries, dc, i, n - 1);
        lemma_unconditional_chains_len(entries, dc, n - 1);
        assert(spec_chains_bpf(entries, dc, n) == spec_chains_bpf(entries, dc, n - 1)
            + spec_chain_bpf(entries[n - 1].0, entries[n - 1].1@, dc));
    }
}

/// Evaluation of the concatenated chains from chain `i` on, with the
/// syscall number in the accumulator: the first chain whose (truncated)
/// syscall number matches returns its rule's action; when none matches,
/// the terminal instruction after the chains returns the default action.
proof fn lemma_eval_chains(
    full: Seq<sock_filter>,
    entries: Seq<SyscallRuleSet>,
    dc: u32,
    data: SeccompData,
    base: int,
    i: int,
)
    requires
        unconditional_chains(entries),
        0 <= i <= entries.len(),
        0 <= base,
        full.len() == base + 5 * entries.len() + 1,
        full.subrange(base, full.len() as int) == spec_chains_bpf(
            entries,
            dc,
            entries.len() as int,
        ) + seq![spec_stmt((BPF_RET + BPF_K) as u16, dc)],
    ensures
        spec_bpf_eval(full, data, base + 5 * i, data.nr) == Some(
            match spec_match32(entries.subrange(i, entries.len() as int), data.nr) {
                Some(c) => c,
                None => dc,
            },
        ),
    decreases entries.len() - i,
{
    let n = entries.len() as int;
    let suffix = full.subrange(base, full.len() as int);
    lemma_unconditional_chains_len(entries, dc, n);
    if i == n {
        assert(full[base + 5 * n] == suffix[5 * n]);
        assert(suffix[5 * n] == spec_stmt((BPF_RET + BPF_K) as u16, dc));
        assert(entries.subrange(n, n) =~= Seq::<SyscallRuleSet>::empty());
    } else {
        let pc = base + 5 * i;
        let ch = spec_chain_bpf(entries[i].0, entries[i].1@, dc);
        lemma_unconditional_chain_bpf(entries[i].0, entries[i].1@, dc);
        lemma_unconditional_chain_slice(entries, dc, i, n);
        assert forall|t: int| 0 <= t < 5 implies full[pc + t] == ch[t] by {
            assert(full[pc + t] == suffix[5 * i + t]);
            assert(suffix[5 * i + t] == spec_chains_bpf(entries, dc, n)[5 * i + t]);
            assert(spec_chains_bpf(entries, dc, n)[5 * i + t] == spec_chains_bpf(
                entries,
                dc,
                n,
            ).subrange(5 * i, 5 * i + 5)[t]);
        }
        assert(full[pc] == spec_jump((BPF_JMP + BPF_JEQ + BPF_K) as u16, entries[i].0 as u32, 0, 1));
        let sub = entries.subrange(i, n);
        assert(sub[0] == entries[i]);
        if data.nr == entries[i].0 as u32 {
            // The comparison matches: fall into the rule, skip its exit
            // jump, and return the rule's action.
            assert(full[pc + 1] == spec_stmt((BPF_JMP + BPF_JA) as u16, 1));
            assert(full[pc + 3] == spec_stmt(
                (BPF_RET + BPF_K) as u16,
                action_code(entries[i].1@[0].spec_action()),
            ));
            assert(spec_bpf_eval(full, data, pc, data.nr) == spec_bpf_eval(
                full,
                data,
                pc + 1,
                data.nr,
            ));
            assert(spec_bpf_eval(full, data, pc + 1, data.nr) == spec_bpf_eval(
                full,
                data,
                pc + 3,
                data.nr,
            ));
            assert(spec_bpf_eval(full, data, pc + 3, data.nr) == Some(
                action_code(entries[i].1@[0].spec_action()),
            ));
        } else {
            // The comparison fails: land on the rule's exit jump, which
            // skips the rest of this chain, and try the next one.
            assert(full[pc + 2] == spec_stmt((BPF_JMP + BPF_JA) as u16, 2));
            assert(spec_bpf_eval(full, data, pc, data.nr) == spec_bpf_eval(
                full,
                data,
                pc + 2,
                data.nr,
            ));
            assert(spec_bpf_eval(full, data, pc + 2, data.nr) == spec_bpf_eval(
                full,
                data,
                pc + 5,
                data.nr,
            ));
            lemma_eval_chains(full, entries, dc, data, base, i + 1);
            assert(sub.drop_first() =~= entries.subrange(i + 1, n));
        }
    }
}

/// What running an installable program built from single-rule,
/// condition-free chains returns, by the BPF semantics of
/// [`spec_bpf_eval`]: `RET KILL` for a foreign architecture; the action
/// of the first chain whose syscall number matches the invoked one; and
/// the default action when no chain matches.
pub proof fn lemma_installable_program_eval(
    f: SeccompFilter,
    arch: SeccompArch,
    data: SeccompData,
)
    requires
        f.wf(),
        f.spec_rules().len() > 0,
        unconditional_chains(f.spec_rules()),
    ensures
        ({
            let full = spec_arch_gate(arch) + spec_filter_bpf(f);
            &&& (data.arch != spec_audit_arch(arch) ==> spec_bpf_eval(full, data, 0, 0) == Some(
                SECCOMP_RET_KILL,
            ))
            &&& (data.arch == spec_audit_arch(arch) ==> spec_bpf_eval(full, data, 0, 0) == Some(
                match spec_match32(f.spec_rules(), data.nr) {
                    Some(c) => c,
                    None => action_code(f.spec_default_action()),
                },
            ))
        }),
{
    let entries = f.spec_rules();
    let n = entries.len() as int;
    let dc = action_code(f.spec_default_action());
    let full = spec_arch_gate(arch) + spec_filter_bpf(f);
    lemma_unconditional_chains_len(entries, dc, n);
    assert(full.len() == 5 + 5 * n);
    assert(full[0] == spec_stmt(
        (BPF_LD + BPF_W + BPF_ABS) as u16,
        SECCOMP_DATA_ARCH_OFFSET as u32,
    ));
    assert(full[1] == spec_jump((BPF_JMP + BPF_JEQ + BPF_K) as u16, spec_audit_arch(arch), 1, 0));
    assert(full[2] == spec_stmt((BPF_RET + BPF_K) as u16, SECCOMP_RET_KILL));
    assert(full[3] == spec_stmt((BPF_LD + BPF_W + BPF_ABS) as u16, SECCOMP_DATA_NR_OFFSET as u32));
    assert(spec_bpf_eval(full, data, 0, 0) == spec_bpf_eval(full, data, 1, data.arch));
    if data.arch != spec_audit_arch(arch) {
        assert(spec_bpf_eval(full, data, 1, data.arch) == spec_bpf_eval(full, data, 2, data.arch));
        assert(spec_bpf_eval(full, data, 2, data.arch) == Some(SECCOMP_RET_KILL));
    } else {
        assert(spec_bpf_eval(full, data, 1, data.arch) == spec_bpf_eval(full, data, 3, data.arch));
        assert(spec_bpf_eval(full, data, 3, data.arch) == spec_bpf_eval(full, data, 4, data.nr));
        assert(full.subrange(4, full.len() as int) =~= spec_chains_bpf(entries, dc, n) + seq![
            spec_stmt((BPF_RET + BPF_K) as u16, dc),
        ]);
        lemma_eval_chains(full, entries, dc, data, 4, 0);
        assert(entries.subrange(0, n) =~= entries);
    }
}

/// A deny-listed syscall is killed: in a filter whose every chain is the
/// single unconditional `Kill` rule that [`deny_syscall`] builds — as the
/// contract of [`SeccompFilter::new`] shows of a filter built from
/// [`deny_syscall`] entries — a syscall whose number is listed evaluates
/// to `RET KILL`, never to the default `Allow`.
pub proof fn lemma_deny_listed_syscall_killed(
    f: SeccompFilter,
    arch: SeccompArch,
    data: SeccompData,
    s: i64,
)
    requires
        f.wf(),
        forall|nr: i64|
            (#[trigger] spec_chain_of(f.spec_rules(), nr)) matches Some(c) ==> c.len() == 1
                && c[0].spec_conditions().len() == 0 && c[0].spec_action() == SeccompAction::Kill,
        spec_chain_of(f.spec_rules(), s) is Some,
        data.nr == s as u32,
        data.arch == spec_audit_arch(arch),
    ensures
        spec_bpf_eval(spec_arch_gate(arch) + spec_filter_bpf(f), data, 0, 0) == Some(
            SECCOMP_RET_KILL,
        ),
{
    let entries = f.spec_rules();
    lemma_chain_of_has_key(entries, s);
    let w = choose|w: int| 0 <= w < entries.len() && (#[trigger] entries[w]).0 == s;
    // Each chain is reachable by looking its own key up, so the
    // per-lookup hypothesis yields the per-index shape.
    assert forall|i: int|
        0 <= i < entries.len() implies (#[trigger] entries[i]).1@.len() == 1
        && entries[i].1@[0].spec_conditions().len() == 0 && entries[i].1@[0].spec_action()
        == SeccompAction::Kill by {
        lemma_chain_of_index(entries, i);
    }
    lemma_installable_program_eval(f, arch, data);
    lemma_match32_all_kill(entries, data.nr);
    assert(entries[w].0 as u32 == data.nr);
}

/// A number that matches no entry even after truncation falls through to
/// the default action.
pub proof fn lemma_match32_absent(entries: Seq<SyscallRuleSet>, nr32: u32)
    requires
        forall|i: int| 0 <= i < entries.len() ==> (#[trigger] entries[i]).0 as u32 != nr32,
    ensures
        spec_match32(entries, nr32) is None,
    decreases entries.len(),
{
    if entries.len() > 0 {
        assert forall|i: int|
            0 <= i < entries.drop_first().len() implies (#[trigger] entries.drop_first()[i]).0
            as u32 != nr32 by {
            assert(entries.drop_first()[i] == entries[i + 1]);
        }
        lemma_match32_absent(entries.drop_first(), nr32);
    }
}

/// In an all-`Kill` entry list, a matching lookup yields the `Kill` code.
proof fn lemma_match32_all_kill(entries: Seq<SyscallRuleSet>, nr32: u32)
    requires
        forall|i: int|
            0 <= i < entries.len() ==> (#[trigger] entries[i]).1@[0].spec_action()
                == SeccompAction::Kill,
    ensures
        (exists|i: int| 0 <= i < entries.len() && (#[trigger] entries[i]).0 as u32 == nr32)
            ==> spec_match32(entries, nr32) == Some(SECCOMP_RET_KILL),
    decreases entries.len(),
{
    if entries.len() > 0 && !(entries[0].0 as u32 == nr32) {
        lemma_match32_all_kill(entries.drop_first(), nr32);
        if exists|i: int| 0 <= i < entries.len() && (#[trigger] entries[i]).0 as u32 == nr32 {
            let w = choose|w: int| 0 <= w < entries.len() && (#[trigger] entries[w]).0 as u32
                == nr32;
            assert(entries.drop_first()[w - 1].0 as u32 == nr32);
        }
    }
}

/// A decimal digit.
pub open spec fn is_digit(c: char) -> bool {
    ('0' as u32) <= c as u32 <= ('9' as u32)
}

/// Every character of the sequence is a decimal digit.
pub open spec fn all_digits(s: Seq<char>) -> bool {
    forall|i: int| 0 <= i < s.len() ==> is_digit(#[trigger] s[i])
}

/// The value of a sequence of decimal digits, most significant first.
pub open spec fn dec_value(s: Seq<char>) -> int
    decreases s.len(),
{
    if s.len() == 0 {
        0
    } else {
        dec_value(s.drop_last()) * 10 + (s.last() as u32 - ('0' as u32))
    }
}

/// The digits of a decimal literal: an optional leading `+` sign is
/// dropped, as in the standard library's unsigned integer parsing.
pub open spec fn spec_digits_part(s: Seq<char>) -> Seq<char> {
    if s.len() > 0 && s[0] == '+' {
        s.drop_first()
    } else {
        s
    }
}

/// What parsing the sequence as a `u8` yields: the digits' value when the
/// sequence is an optional `+` sign followed by at least one digit and the
/// value fits, nothing otherwise.
pub open spec fn spec_parse_u8(s: Seq<char>) -> Option<u8> {
    let d = spec_digits_part(s);
    if d.len() > 0 && all_digits(d) && dec_value(d) <= 255 {
        Some(dec_value(d) as u8)
    } else {
        None
    }
}

/// Appending digits never shrinks the value of a digit sequence.
proof fn lemma_dec_value_monotone(s: Seq<char>, i: int)
    requires
        all_digits(s),
        0 <= i <= s.len(),
    ensures
        dec_value(s) >= dec_value(s.subrange(0, i)),
    decreases s.len() - i,
{
    if i < s.len() {
        lemma_dec_value_monotone(s, i + 1);
        let p = s.subrange(0, i + 1);
        assert(p.drop_last() =~= s.subrange(0, i));
        assert(dec_value(p) == dec_value(s.subrange(0, i)) * 10 + (s[i] as u32 - ('0' as u32)));
        assert(dec_value(s.subrange(0, i)) >= 0) by {
            lemma_dec_value_nonneg(s.subrange(0, i));
        }
    } else {
        assert(s.subrange(0, i) =~= s);
    }
}

/// The value of a digit sequence is never negative.
proof fn lemma_dec_value_nonneg(s: Seq<char>)
    requires
        all_digits(s),
    ensures
        dec_value(s) >= 0,
    decreases s.len(),
{
    if s.len() > 0 {
        assert(all_digits(s.drop_last())) by {
            assert(forall|i: int| 0 <= i < s.len() - 1 ==> s.drop_last()[i] == #[trigger] s[i]);
        }
        lemma_dec_value_nonneg(s.drop_last());
    }
}

/// Parses a decimal `u8` from a string, as the standard library's `u8`
/// parsing would: an optional `+` sign, then at least one digit, with the
/// value fitting in eight bits.
fn parse_u8(s: &str) -> (r: Option<u8>)
    ensures
        r == spec_parse_u8(s@),
{
    let len = s.unicode_len();
    let start: usize = if len > 0 && s.get_char(0) == '+' {
        1
    } else {
        0
    };
    let ghost digits = spec_digits_part(s@);
    proof {
        assert(digits =~= s@.subrange(start as int, len as int));
    }
    if len == start {
        return None;
    }
    let mut i = start;
    let mut acc: u32 = 0;
    proof {
        assert(digits.subrange(0, 0) =~= Seq::<char>::empty());
    }
    while i < len
        invariant
            start <= i <= len,
            len == s@.len(),
            digits == spec_digits_part(s@),
            digits == s@.subrange(start as int, len as int),
            acc <= 255,
            all_digits(digits.subrange(0, i - start)),
            acc as int == dec_value(digits.subrange(0, i - start)),
        decreases len - i,
    {
        let c = s.get_char(i);
        let cv = c as u32;
        if cv < 48 || cv > 57 {
            proof {
                assert(digits[i - start] == s@[i as int]);
                assert(!is_digit(digits[i - start]));
            }
            return None;
        }
        let d = cv - 48;
        acc = acc * 10 + d;
        proof {
            let p = digits.subrange(0, i + 1 - start);
            assert(p.drop_last() =~= digits.subrange(0, i - start));
            assert(p.last() == s@[i as int]);
        }
        i = i + 1;
        if acc > 255 {
            proof {
                if all_digits(digits) {
                    lemma_dec_value_monotone(digits, i - start);
                    assert(dec_value(digits) > 255);
                }
            }
            return None;
        }
    }
    proof {
        assert(digits.subrange(0, len - start) =~= digits);
    }
    Some(acc as u8)
}

/// Possible errors that could be encountered while processing a seccomp
/// level value or generating a BPF program based on it.
#[derive(Clone, Copy, Debug, PartialEq, Eq, Structural)]
pub enum SeccompError {
    /// Error while trying to generate a BPF program.
    SeccompFilter(Error),
    /// The level value could not be parsed as a `u8`.
    Parse,
    /// Seccomp level is a `u8` value other than 0, 1 or 2.
    Level(u8),
}

/// Possible values for the seccomp level.
#[derive(Clone, Copy, Debug, PartialEq, Eq, Structural)]
pub enum SeccompLevel {
    /// Seccomp filtering disabled.
    Disabled,
    /// Level of filtering that causes only syscall numbers to be examined.
    Basic,
    /// Level of filtering that causes syscall numbers and parameters to be
    /// examined.
    Advanced,
}

impl SeccompLevel {
    /// Converts a seccomp level value from its string form to the
    /// corresponding [`SeccompLevel`] variant, or reports why it cannot.
    pub fn from_string(seccomp_value: &str) -> (r: Result<Self, SeccompError>)
        ensures
            r == match spec_parse_u8(seccomp_value@) {
                Some(l) => if l == 0 {
                    Ok::<SeccompLevel, SeccompError>(SeccompLevel::Disabled)
                } else if l == 1 {
                    Ok(SeccompLevel::Basic)
                } else if l == 2 {
                    Ok(SeccompLevel::Advanced)
                } else {
                    Err(SeccompError::Level(l))
                },
                None => Err(SeccompError::Parse),
            },
    {
        match parse_u8(seccomp_value) {
            Some(0) => Ok(SeccompLevel::Disabled),
            Some(1) => Ok(SeccompLevel::Basic),
            Some(2) => Ok(SeccompLevel::Advanced),
            Some(level) => Err(SeccompError::Level(level)),
            None => Err(SeccompError::Parse),
        }
    }
}

/// Removing the entry at `idx` from a well-formed entry list keeps the
/// list well formed and leaves the lookup of every other key unchanged.
proof fn lemma_remove_preserves(entries: Seq<SyscallRuleSet>, idx: int)
    requires
        entries_wf(entries),
        0 <= idx < entries.len(),
    ensures
        entries_wf(
            entries.subrange(0, idx) + entries.subrange(idx + 1, entries.len() as int),
        ),
        forall|k: i64|
            k != entries[idx].0 ==> #[trigger] spec_chain_of(
                entries.subrange(0, idx) + entries.subrange(idx + 1, entries.len() as int),
                k,
            ) == spec_chain_of(entries, k),
{
    let left = entries.subrange(0, idx);
    let right = entries.subrange(idx + 1, entries.len() as int);
    let reduced = left + right;
    assert forall|a: int| 0 <= a < reduced.len() implies #[trigger] reduced[a] == (if a < idx {
        entries[a]
    } else {
        entries[a + 1]
    }) by {
        if a < idx {
            assert(reduced[a] == left[a]);
        } else {
            assert(reduced[a] == right[a - idx]);
        }
    }
    assert forall|a: int, b: int|
        0 <= a < b < reduced.len() implies (#[trigger] reduced[a]).0 < (#[trigger] reduced[b]).0 by {
        if a < idx && b < idx {
            assert(entries[a].0 < entries[b].0);
        } else if a < idx {
            assert(entries[a].0 < entries[b + 1].0);
        } else {
            assert(entries[a + 1].0 < entries[b + 1].0);
        }
    }
    assert forall|a: int| 0 <= a < reduced.len() implies chain_wf((#[trigger] reduced[a]).1@) by {
        if a < idx {
            assert(chain_wf(entries[a].1@));
        } else {
            assert(chain_wf(entries[a + 1].1@));
        }
    }
    assert forall|k: i64|
        k != entries[idx].0 implies #[trigger] spec_chain_of(reduced, k) == spec_chain_of(
        entries,
        k,
    ) by {
        assert(entries =~= left + (seq![entries[idx]] + right));
        lemma_chain_of_concat(left, seq![entries[idx]] + right, k);
        lemma_chain_of_concat(seq![entries[idx]], right, k);
        lemma_chain_of_singleton(entries[idx], k);
        lemma_chain_of_concat(left, right, k);
    }
}

} // verus!
