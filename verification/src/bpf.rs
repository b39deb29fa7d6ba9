//! Classic BPF instruction records and the small builders used by the
//! seccomp compiler.
//!
//! A BPF program is a flat vector of 8-byte records `(code, jt, jf, k)`
//! interpreted by the kernel against the `seccomp_data` block of each
//! syscall entry.

use vstd::prelude::*;

verus! {

// BPF instruction classes, as in linux's bpf_common.h.
pub const BPF_LD: u16 = 0x00;
pub const BPF_ALU: u16 = 0x04;
pub const BPF_JMP: u16 = 0x05;
pub const BPF_RET: u16 = 0x06;

// BPF ld/ldx fields.
pub const BPF_W: u16 = 0x00;
pub const BPF_ABS: u16 = 0x20;

// BPF alu fields.
pub const BPF_AND: u16 = 0x50;

// BPF jmp fields.
pub const BPF_JA: u16 = 0x00;
pub const BPF_JEQ: u16 = 0x10;
pub const BPF_JGT: u16 = 0x20;
pub const BPF_JGE: u16 = 0x30;
pub const BPF_K: u16 = 0x00;

/// One BPF instruction, laid out as the kernel's `struct sock_filter`.
#[derive(Clone, Copy, Debug, PartialEq, Eq, Structural)]
#[allow(non_camel_case_types)]
pub struct sock_filter {
    /// Operation code.
    pub code: u16,
    /// Jump offset taken when the comparison holds.
    pub jt: u8,
    /// Jump offset taken when the comparison fails.
    pub jf: u8,
    /// Operand.
    pub k: u32,
}

/// Program made up of a sequence of BPF instructions.
pub type BpfProgram = Vec<sock_filter>;

/// The instruction `bpf_stmt(code, k)`: a non-jumping statement.
pub open spec fn spec_stmt(code: u16, k: u32) -> sock_filter {
    sock_filter { code, jt: 0, jf: 0, k }
}

/// The instruction `bpf_jump(code, k, jt, jf)`.
pub open spec fn spec_jump(code: u16, k: u32, jt: u8, jf: u8) -> sock_filter {
    sock_filter { code, jt, jf, k }
}

/// Builds a "statement" BPF instruction (no jump offsets).
pub fn bpf_stmt(code: u16, k: u32) -> (r: sock_filter)
    ensures
        r == spec_stmt(code, k),
{
    sock_filter { code, jt: 0, jf: 0, k }
}

/// Builds a jump BPF instruction.
pub fn bpf_jump(code: u16, k: u32, jt: u8, jf: u8) -> (r: sock_filter)
    ensures
        r == spec_jump(code, k, jt, jf),
{
    sock_filter { code, jt, jf, k }
}

/// The `seccomp_data` block the kernel evaluates a filter against: the
/// syscall number and architecture words as 32-bit loads see them, and
/// the six 64-bit syscall arguments.
pub struct SeccompData {
    /// The syscall number word.
    pub nr: u32,
    /// The audit architecture word.
    pub arch: u32,
    /// The syscall arguments.
    pub args: Seq<u64>,
}

/// What a 32-bit absolute load at byte offset `off` of `seccomp_data`
/// reads: the syscall number at 0, the architecture at 4, and the
/// little-endian halves of the arguments from 16 on.
pub open spec fn spec_load(data: SeccompData, off: u32) -> u32 {
    if off == 0 {
        data.nr
    } else if off == 4 {
        data.arch
    } else if 16 <= off < 64 {
        let arg = data.args[((off - 16) / 8) as int];
        if (off - 16) % 8 == 0 {
            arg as u32
        } else {
            (arg >> 32) as u32
        }
    } else {
        0
    }
}

/// The remaining instructions from `pc`, clamped so it can serve as a
/// termination measure: all jumps move forward.
pub open spec fn spec_fuel(prog: Seq<sock_filter>, pc: int) -> int {
    if prog.len() - pc >= 0 {
        prog.len() - pc
    } else {
        0
    }
}

/// Evaluation of a BPF program on a `seccomp_data` block, from program
/// counter `pc` with accumulator `acc`: the value returned by the `RET`
/// the kernel reaches, or nothing if evaluation runs off the program or
/// meets an instruction outside the subset the compiler emits.
pub open spec fn spec_bpf_eval(
    prog: Seq<sock_filter>,
    data: SeccompData,
    pc: int,
    acc: u32,
) -> Option<u32>
    decreases spec_fuel(prog, pc),
{
    if pc < 0 || pc >= prog.len() {
        None
    } else {
        let ins = prog[pc];
        if ins.code == BPF_LD + BPF_W + BPF_ABS && ins.jt == 0 && ins.jf == 0 {
            spec_bpf_eval(prog, data, pc + 1, spec_load(data, ins.k))
        } else if ins.code == BPF_RET + BPF_K {
            Some(ins.k)
        } else if ins.code == BPF_JMP + BPF_JA && ins.jt == 0 && ins.jf == 0 {
            spec_bpf_eval(prog, data, pc + 1 + ins.k, acc)
        } else if ins.code == BPF_JMP + BPF_JEQ + BPF_K {
            if acc == ins.k {
                spec_bpf_eval(prog, data, pc + 1 + ins.jt, acc)
            } else {
                spec_bpf_eval(prog, data, pc + 1 + ins.jf, acc)
            }
        } else if ins.code == BPF_JMP + BPF_JGT + BPF_K {
            if acc > ins.k {
                spec_bpf_eval(prog, data, pc + 1 + ins.jt, acc)
            } else {
                spec_bpf_eval(prog, data, pc + 1 + ins.jf, acc)
            }
        } else if ins.code == BPF_JMP + BPF_JGE + BPF_K {
            if acc >= ins.k {
                spec_bpf_eval(prog, data, pc + 1 + ins.jt, acc)
            } else {
                spec_bpf_eval(prog, data, pc + 1 + ins.jf, acc)
            }
        } else if ins.code == BPF_ALU + BPF_AND + BPF_K && ins.jt == 0 && ins.jf == 0 {
            spec_bpf_eval(prog, data, pc + 1, acc & ins.k)
        } else {
            None
        }
    }
}

} // verus!
