//! Per-target calling-convention data: which register carries the syscall
//! number, which carry the arguments and in what order, which register
//! returns the result, how the kernel signals failure, and which registers
//! the trap is permitted to clobber.
//!
//! Each supported operating-system/architecture pair has exactly one plan,
//! fixed at build time; registers are named by the architecture's own
//! numbering (`7` is `rdi` on x86-64, `$7` on MIPS, `r7` on ARM, and so on).

use vstd::prelude::*;

use crate::args64::Endian;
use crate::args64::WideLayout;
use crate::args64::WordWidth;

verus! {

/// The operating systems whose syscall ABI this library describes.
#[derive(Clone, Copy, Debug, PartialEq, Eq, Structural)]
pub enum Os {
    Linux,
    Freebsd,
    Macos,
}

/// The CPU architectures whose syscall ABI this library describes.
#[derive(Clone, Copy, Debug, PartialEq, Eq, Structural)]
pub enum Arch {
    X86,
    X86_64,
    Arm,
    Aarch64,
    Mips,
    Mips64,
    Powerpc,
    Powerpc64,
    Riscv64,
    Sparc64,
}

/// The shape of the raw result a target's trap layer hands back: a single
/// packed word, or a value with a separate error flag.
#[derive(Clone, Copy, Debug, PartialEq, Eq, Structural)]
pub enum ResultShape {
    Packed,
    Flag,
}

/// How the kernel reports that a syscall failed.
#[derive(Clone, Copy, Debug, PartialEq, Eq, Structural)]
pub enum ErrorSignal {
    /// Failure is packed into the return-value register itself: the word's
    /// top range holds a negated errno.
    ReturnValue,
    /// A general-purpose register is nonzero on failure, and the value
    /// register then holds the errno unencoded.
    Register(u8),
    /// A CPU condition bit (the carry flag, or the condition register's
    /// summary-overflow bit) is set on failure.
    ConditionFlag,
}

/// The register protocol one target's trap must follow.
pub struct CallPlan {
    /// Register holding the syscall number at entry.
    pub number_reg: u8,
    /// Registers holding arguments one onward, in order.
    pub arg_regs: Vec<u8>,
    /// How many further arguments are spilled onto the stack when the call
    /// has more arguments than there are argument registers.
    pub stack_args: usize,
    /// Register the kernel overwrites with the return value.
    pub ret_reg: u8,
    /// How the kernel signals failure.
    pub error: ErrorSignal,
    /// Registers the kernel or the trap instruction may destroy, beyond the
    /// result registers; the caller must not keep live values in them.
    pub clobbered: Vec<u8>,
    /// Constant added to every syscall number before the trap.
    pub number_bias: u64,
}

/// Which raw-result shape a target uses. Flag-style kernels are the BSD
/// family and, on Linux, the architectures whose ABI reports errors through
/// a separate register or condition bit.
pub open spec fn spec_error_shape(os: Os, arch: Arch) -> ResultShape {
    match os {
        Os::Freebsd => ResultShape::Flag,
        Os::Macos => ResultShape::Flag,
        Os::Linux => match arch {
            Arch::Mips => ResultShape::Flag,
            Arch::Mips64 => ResultShape::Flag,
            Arch::Powerpc => ResultShape::Flag,
            Arch::Powerpc64 => ResultShape::Flag,
            _ => ResultShape::Packed,
        },
    }
}

/// Which raw-result shape a target uses.
pub fn error_shape(os: Os, arch: Arch) -> (r: ResultShape)
    ensures
        r == spec_error_shape(os, arch),
{
    match os {
        Os::Freebsd => ResultShape::Flag,
        Os::Macos => ResultShape::Flag,
        Os::Linux => match arch {
            Arch::Mips => ResultShape::Flag,
            Arch::Mips64 => ResultShape::Flag,
            Arch::Powerpc => ResultShape::Flag,
            Arch::Powerpc64 => ResultShape::Flag,
            _ => ResultShape::Packed,
        },
    }
}

/// Whether an architecture's 32-bit ABI requires 64-bit arguments to start
/// on an even-numbered argument register.
pub open spec fn spec_aligned_pairs(arch: Arch) -> bool {
    arch is Arm || arch is Mips || arch is Powerpc
}

/// Whether an architecture's 32-bit ABI requires 64-bit arguments to start
/// on an even-numbered argument register.
pub fn requires_aligned_pairs(arch: Arch) -> (r: bool)
    ensures
        r == spec_aligned_pairs(arch),
{
    match arch {
        Arch::Arm => true,
        Arch::Mips => true,
        Arch::Powerpc => true,
        _ => false,
    }
}

/// The wide-argument lowering rule for a target of the given word width and
/// byte order: the pair-alignment rule applies only on the 32-bit
/// architectures whose ABI demands it.
pub fn wide_layout_for(width: WordWidth, endian: Endian, arch: Arch) -> (r: WideLayout)
    ensures
        r.width == width,
        r.endian == endian,
        r.aligned_pairs == (width is W32 && spec_aligned_pairs(arch)),
{
    let aligned: bool = match width {
        WordWidth::W32 => requires_aligned_pairs(arch),
        WordWidth::W64 => false,
    };
    WideLayout { width, endian, aligned_pairs: aligned }
}

/// Well-formedness of a call plan: argument registers are pairwise distinct
/// and distinct from the number register, at most seven arguments are
/// carried in all, the clobber list is duplicate-free and never covers the
/// number, return, or error-flag registers.
pub open spec fn plan_wf(p: CallPlan) -> bool {
    &&& p.arg_regs@.len() + p.stack_args <= 7
    &&& forall|i: int, j: int|
        0 <= i < j < p.arg_regs@.len() ==> #[trigger] p.arg_regs@[i] != #[trigger] p.arg_regs@[j]
    &&& forall|i: int| 0 <= i < p.arg_regs@.len() ==> #[trigger] p.arg_regs@[i] != p.number_reg
    &&& forall|i: int, j: int|
        0 <= i < j < p.clobbered@.len() ==> #[trigger] p.clobbered@[i] != #[trigger] p.clobbered@[j]
    &&& forall|i: int|
        0 <= i < p.clobbered@.len() ==> #[trigger] p.clobbered@[i] != p.ret_reg
            && p.clobbered@[i] != p.number_reg
    &&& (p.error matches ErrorSignal::Register(r) ==> r != p.ret_reg && forall|i: int|
        0 <= i < p.clobbered@.len() ==> #[trigger] p.clobbered@[i] != r)
}

/// The exact register protocol of each supported target, as its trap layer
/// implements it.
pub open spec fn plan_matches(os: Os, arch: Arch, p: CallPlan) -> bool {
    match (os, arch) {
        (Os::Linux, Arch::X86_64) => {
            &&& p.number_reg == 0
            &&& p.arg_regs@ == seq![7u8, 6, 2, 10, 8, 9]
            &&& p.stack_args == 0
            &&& p.ret_reg == 0
            &&& p.error is ReturnValue
            &&& p.clobbered@ == seq![1u8, 11]
            &&& p.number_bias == 0
        },
        (Os::Linux, Arch::X86) => {
            &&& p.number_reg == 0
            &&& p.arg_regs@ == seq![3u8, 1, 2, 6, 7, 5]
            &&& p.stack_args == 0
            &&& p.ret_reg == 0
            &&& p.error is ReturnValue
            &&& p.clobbered@ == Seq::<u8>::empty()
            &&& p.number_bias == 0
        },
        (Os::Linux, Arch::Arm) => {
            &&& p.number_reg == 7
            &&& p.arg_regs@ == seq![0u8, 1, 2, 3, 4, 5, 6]
            &&& p.stack_args == 0
            &&& p.ret_reg == 0
            &&& p.error is ReturnValue
            &&& p.clobbered@ == seq![14u8]
            &&& p.number_bias == 0
        },
        (Os::Linux, Arch::Aarch64) => {
            &&& p.number_reg == 8
            &&& p.arg_regs@ == seq![0u8, 1, 2, 3, 4, 5]
            &&& p.stack_args == 0
            &&& p.ret_reg == 0
            &&& p.error is ReturnValue
            &&& p.clobbered@ == Seq::<u8>::empty()
            &&& p.number_bias == 0
        },
        (Os::Linux, Arch::Riscv64) => {
            &&& p.number_reg == 17
            &&& p.arg_regs@ == seq![10u8, 11, 12, 13, 14, 15]
            &&& p.stack_args == 0
            &&& p.ret_reg == 10
            &&& p.error is ReturnValue
            &&& p.clobbered@ == Seq::<u8>::empty()
            &&& p.number_bias == 0
        },
        (Os::Linux, Arch::Mips) => {
            &&& p.number_reg == 2
            &&& p.arg_regs@ == seq![4u8, 5, 6, 7]
            &&& p.stack_args == 3
            &&& p.ret_reg == 2
            &&& p.error == ErrorSignal::Register(7)
            &&& p.clobbered@ == seq![8u8, 9, 10, 11, 12, 13, 14, 15, 24, 25]
            &&& p.number_bias == 0
        },
        (Os::Linux, Arch::Mips64) => {
            &&& p.number_reg == 2
            &&& p.arg_regs@ == seq![4u8, 5, 6, 7, 8, 9]
            &&& p.stack_args == 0
            &&& p.ret_reg == 2
            &&& p.error == ErrorSignal::Register(7)
            &&& p.clobbered@ == seq![10u8, 11, 12, 13, 14, 15, 24, 25]
            &&& p.number_bias == 0
        },
        (Os::Linux, Arch::Powerpc) => {
            &&& p.number_reg == 0
            &&& p.arg_regs@ == seq![3u8, 4, 5, 6, 7, 8]
            &&& p.stack_args == 0
            &&& p.ret_reg == 3
            &&& p.error is ConditionFlag
            &&& p.clobbered@ == seq![9u8, 10, 11, 12]
            &&& p.number_bias == 0
        },
        (Os::Freebsd, Arch::X86_64) => {
            &&& p.number_reg == 0
            &&& p.arg_regs@ == seq![7u8, 6, 2, 10, 8, 9]
            &&& p.stack_args == 0
            &&& p.ret_reg == 0
            &&& p.error is ConditionFlag
            &&& p.clobbered@ == seq![1u8, 11]
            &&& p.number_bias == 0
        },
        (Os::Macos, Arch::Aarch64) => {
            &&& p.number_reg == 16
            &&& p.arg_regs@ == seq![1u8, 2, 3, 4, 5, 6, 7]
            &&& p.stack_args == 0
            &&& p.ret_reg == 0
            &&& p.error is ConditionFlag
            &&& p.clobbered@ == Seq::<u8>::empty()
            &&& p.number_bias == 33554432
        },
        _ => false,
    }
}

/// Whether this library describes a register protocol for the pair.
pub open spec fn supported(os: Os, arch: Arch) -> bool {
    match (os, arch) {
        (Os::Linux, Arch::X86_64) => true,
        (Os::Linux, Arch::X86) => true,
        (Os::Linux, Arch::Arm) => true,
        (Os::Linux, Arch::Aarch64) => true,
        (Os::Linux, Arch::Riscv64) => true,
        (Os::Linux, Arch::Mips) => true,
        (Os::Linux, Arch::Mips64) => true,
        (Os::Linux, Arch::Powerpc) => true,
        (Os::Freebsd, Arch::X86_64) => true,
        (Os::Macos, Arch::Aarch64) => true,
        _ => false,
    }
}

/// The register protocol for one target: `Some` exactly for the pairs this
/// library describes, and then a well-formed plan holding that target's
/// exact register assignments.
pub fn call_plan(os: Os, arch: Arch) -> (r: Option<CallPlan>)
    ensures
        r is Some <==> supported(os, arch),
        r matches Some(p) ==> plan_matches(os, arch, p) && plan_wf(p),
{
    match (os, arch) {
        (Os::Linux, Arch::X86_64) => {
            let p = CallPlan {
                number_reg: 0,
                arg_regs: vec![7u8, 6, 2, 10, 8, 9],
                stack_args: 0,
                ret_reg: 0,
                error: ErrorSignal::ReturnValue,
                clobbered: vec![1u8, 11],
                number_bias: 0,
            };
            assert(p.arg_regs@ =~= seq![7u8, 6, 2, 10, 8, 9]);
            assert(p.clobbered@ =~= seq![1u8, 11]);
            Some(p)
        },
        (Os::Linux, Arch::X86) => {
            let p = CallPlan {
                number_reg: 0,
                arg_regs: vec![3u8, 1, 2, 6, 7, 5],
                stack_args: 0,
                ret_reg: 0,
                error: ErrorSignal::ReturnValue,
                clobbered: Vec::new(),
                number_bias: 0,
            };
            assert(p.arg_regs@ =~= seq![3u8, 1, 2, 6, 7, 5]);
            assert(p.clobbered@ =~= Seq::<u8>::empty());
            Some(p)
        },
        (Os::Linux, Arch::Arm) => {
            let p = CallPlan {
                number_reg: 7,
                arg_regs: vec![0u8, 1, 2, 3, 4, 5, 6],
                stack_args: 0,
                ret_reg: 0,
                error: ErrorSignal::ReturnValue,
                clobbered: vec![14u8],
                number_bias: 0,
            };
            assert(p.arg_regs@ =~= seq![0u8, 1, 2, 3, 4, 5, 6]);
            assert(p.clobbered@ =~= seq![14u8]);
            Some(p)
        },
        (Os::Linux, Arch::Aarch64) => {
            let p = CallPlan {
                number_reg: 8,
                arg_regs: vec![0u8, 1, 2, 3, 4, 5],
                stack_args: 0,
                ret_reg: 0,
                error: ErrorSignal::ReturnValue,
                clobbered: Vec::new(),
                number_bias: 0,
            };
            assert(p.arg_regs@ =~= seq![0u8, 1, 2, 3, 4, 5]);
            assert(p.clobbered@ =~= Seq::<u8>::empty());
            Some(p)
        },
        (Os::Linux, Arch::Riscv64) => {
            let p = CallPlan {
                number_reg: 17,
                arg_regs: vec![10u8, 11, 12, 13, 14, 15],
                stack_args: 0,
                ret_reg: 10,
                error: ErrorSignal::ReturnValue,
                clobbered: Vec::new(),
                number_bias: 0,
            };
            assert(p.arg_regs@ =~= seq![10u8, 11, 12, 13, 14, 15]);
            assert(p.clobbered@ =~= Seq::<u8>::empty());
            Some(p)
        },
        (Os::Linux, Arch::Mips) => {
            let p = CallPlan {
                number_reg: 2,
                arg_regs: vec![4u8, 5, 6, 7],
                stack_args: 3,
                ret_reg: 2,
                error: ErrorSignal::Register(7),
                clobbered: vec![8u8, 9, 10, 11, 12, 13, 14, 15, 24, 25],
                number_bias: 0,
            };
            assert(p.arg_regs@ =~= seq![4u8, 5, 6, 7]);
            assert(p.clobbered@ =~= seq![8u8, 9, 10, 11, 12, 13, 14, 15, 24, 25]);
            Some(p)
        },
        (Os::Linux, Arch::Mips64) => {
            let p = CallPlan {
                number_reg: 2,
                arg_regs: vec![4u8, 5, 6, 7, 8, 9],
                stack_args: 0,
                ret_reg: 2,
                error: ErrorSignal::Register(7),
                clobbered: vec![10u8, 11, 12, 13, 14, 15, 24, 25],
                number_bias: 0,
            };
            assert(p.arg_regs@ =~= seq![4u8, 5, 6, 7, 8, 9]);
            assert(p.clobbered@ =~= seq![10u8, 11, 12, 13, 14, 15, 24, 25]);
            Some(p)
        },
        (Os::Linux, Arch::Powerpc) => {
            let p = CallPlan {
                number_reg: 0,
                arg_regs: vec![3u8, 4, 5, 6, 7, 8],
                stack_args: 0,
                ret_reg: 3,
                error: ErrorSignal::ConditionFlag,
                clobbered: vec![9u8, 10, 11, 12],
                number_bias: 0,
            };
            assert(p.arg_regs@ =~= seq![3u8, 4, 5, 6, 7, 8]);
            assert(p.clobbered@ =~= seq![9u8, 10, 11, 12]);
            Some(p)
        },
        (Os::Freebsd, Arch::X86_64) => {
            let p = CallPlan {
                number_reg: 0,
                arg_regs: vec![7u8, 6, 2, 10, 8, 9],
                stack_args: 0,
                ret_reg: 0,
                error: ErrorSignal::ConditionFlag,
                clobbered: vec![1u8, 11],
                number_bias: 0,
            };
            assert(p.arg_regs@ =~= seq![7u8, 6, 2, 10, 8, 9]);
            assert(p.clobbered@ =~= seq![1u8, 11]);
            Some(p)
        },
        (Os::Macos, Arch::Aarch64) => {
            let p = CallPlan {
                number_reg: 16,
                arg_regs: vec![1u8, 2, 3, 4, 5, 6, 7],
                stack_args: 0,
                ret_reg: 0,
                error: ErrorSignal::ConditionFlag,
                clobbered: Vec::new(),
                number_bias: 33554432,
            };
            assert(p.arg_regs@ =~= seq![1u8, 2, 3, 4, 5, 6, 7]);
            assert(p.clobbered@ =~= Seq::<u8>::empty());
            Some(p)
        },
        _ => None,
    }
}

/// How many of a call's arguments travel in registers under a plan: all of
/// them when they fit, else every argument register is filled and the rest
/// spill onto the stack.
pub open spec fn reg_arg_count(p: CallPlan, nargs: nat) -> int {
    if nargs <= p.arg_regs@.len() {
        nargs as int
    } else {
        p.arg_regs@.len() as int
    }
}

/// The value the number register must hold for syscall number `n`: the
/// number itself, plus the target's constant bias where one applies.
pub fn number_register_value(p: &CallPlan, n: u64) -> (r: (u8, u64))
    requires
        n + p.number_bias <= u64::MAX,
    ensures
        r.0 == p.number_reg,
        r.1 == n + p.number_bias,
{
    (p.number_reg, n + p.number_bias)
}

/// Place a call's arguments under a plan: argument `i` goes into the plan's
/// `i`-th argument register while registers last, and the excess spills
/// onto the stack in order. Every argument is placed exactly once.
pub fn place_arguments(p: &CallPlan, args: &Vec<u64>) -> (r: (Vec<(u8, u64)>, Vec<u64>))
    requires
        args@.len() <= p.arg_regs@.len() + p.stack_args,
    ensures
        r.0@.len() == reg_arg_count(*p, args@.len()),
        forall|i: int|
            0 <= i < r.0@.len() ==> (#[trigger] r.0@[i]).0 == p.arg_regs@[i] && r.0@[i].1
                == args@[i],
        r.1@ == args@.skip(reg_arg_count(*p, args@.len())),
        r.1@.len() <= p.stack_args,
{
    let mut in_regs: Vec<(u8, u64)> = Vec::new();
    let mut i: usize = 0;
    while i < args.len() && i < p.arg_regs.len()
        invariant
            i <= args@.len(),
            i <= p.arg_regs@.len(),
            in_regs@.len() == i,
            forall|k: int|
                0 <= k < i ==> (#[trigger] in_regs@[k]).0 == p.arg_regs@[k] && in_regs@[k].1
                    == args@[k],
        decreases args@.len() - i,
    {
        in_regs.push((p.arg_regs[i], args[i]));
        i = i + 1;
    }
    let mut spilled: Vec<u64> = Vec::new();
    let ghost k = i as int;
    let mut j: usize = i;
    while j < args.len()
        invariant
            0 <= k <= j <= args@.len(),
            spilled@ == args@.subrange(k, j as int),
        decreases args@.len() - j,
    {
        spilled.push(args[j]);
        assert(spilled@ =~= args@.subrange(k, j + 1));
        j = j + 1;
    }
    proof {
        assert(spilled@ =~= args@.skip(reg_arg_count(*p, args@.len())));
    }
    (in_regs, spilled)
}

/// A target's call plan signals failure through the packed return word
/// exactly when the target's raw-result shape is the packed one.
pub proof fn lemma_plan_shape_agrees(os: Os, arch: Arch, p: CallPlan)
    requires
        plan_matches(os, arch, p),
    ensures
        p.error is ReturnValue <==> spec_error_shape(os, arch) is Packed,
{
}

} // verus!
