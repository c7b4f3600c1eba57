use scall::abi::call_plan;
use scall::abi::number_register_value;
use scall::abi::place_arguments;
use scall::abi::error_shape;
use scall::abi::requires_aligned_pairs;
use scall::abi::wide_layout_for;
use scall::abi::Arch;
use scall::abi::ErrorSignal;
use scall::abi::Os;
use scall::abi::ResultShape;
use scall::args64::Endian;
use scall::args64::WordWidth;

#[test]
fn linux_mostly_packs_errors() {
    assert_eq!(error_shape(Os::Linux, Arch::X86), ResultShape::Packed);
    assert_eq!(error_shape(Os::Linux, Arch::X86_64), ResultShape::Packed);
    assert_eq!(error_shape(Os::Linux, Arch::Arm), ResultShape::Packed);
    assert_eq!(error_shape(Os::Linux, Arch::Aarch64), ResultShape::Packed);
    assert_eq!(error_shape(Os::Linux, Arch::Riscv64), ResultShape::Packed);
    assert_eq!(error_shape(Os::Linux, Arch::Sparc64), ResultShape::Packed);
}

#[test]
fn flag_targets() {
    assert_eq!(error_shape(Os::Linux, Arch::Mips), ResultShape::Flag);
    assert_eq!(error_shape(Os::Linux, Arch::Mips64), ResultShape::Flag);
    assert_eq!(error_shape(Os::Linux, Arch::Powerpc), ResultShape::Flag);
    assert_eq!(error_shape(Os::Linux, Arch::Powerpc64), ResultShape::Flag);
    assert_eq!(error_shape(Os::Freebsd, Arch::X86_64), ResultShape::Flag);
    assert_eq!(error_shape(Os::Macos, Arch::Aarch64), ResultShape::Flag);
    assert_eq!(error_shape(Os::Macos, Arch::X86_64), ResultShape::Flag);
}

#[test]
fn pair_alignment_architectures() {
    assert!(requires_aligned_pairs(Arch::Arm));
    assert!(requires_aligned_pairs(Arch::Mips));
    assert!(requires_aligned_pairs(Arch::Powerpc));
    assert!(!requires_aligned_pairs(Arch::X86));
    assert!(!requires_aligned_pairs(Arch::Mips64));
    assert!(!requires_aligned_pairs(Arch::Powerpc64));
}

#[test]
fn wide_layout_only_aligns_32_bit() {
    let arm32 = wide_layout_for(WordWidth::W32, Endian::Little, Arch::Arm);
    assert!(arm32.aligned_pairs);
    let arm64 = wide_layout_for(WordWidth::W64, Endian::Little, Arch::Arm);
    assert!(!arm64.aligned_pairs);
    let x86 = wide_layout_for(WordWidth::W32, Endian::Little, Arch::X86);
    assert!(!x86.aligned_pairs);
}

#[test]
fn plan_linux_x86_64() {
    let p = call_plan(Os::Linux, Arch::X86_64).unwrap();
    assert_eq!(p.number_reg, 0);
    assert_eq!(p.arg_regs, vec![7, 6, 2, 10, 8, 9]);
    assert_eq!(p.stack_args, 0);
    assert_eq!(p.ret_reg, 0);
    assert_eq!(p.error, ErrorSignal::ReturnValue);
    assert_eq!(p.clobbered, vec![1, 11]);
    assert_eq!(p.number_bias, 0);
}

#[test]
fn plan_linux_mips_spills_to_stack() {
    let p = call_plan(Os::Linux, Arch::Mips).unwrap();
    assert_eq!(p.arg_regs, vec![4, 5, 6, 7]);
    assert_eq!(p.stack_args, 3);
    assert_eq!(p.error, ErrorSignal::Register(7));
    assert_eq!(p.clobbered, vec![8, 9, 10, 11, 12, 13, 14, 15, 24, 25]);
}

#[test]
fn plan_macos_aarch64_biases_the_number() {
    let p = call_plan(Os::Macos, Arch::Aarch64).unwrap();
    assert_eq!(p.number_reg, 16);
    assert_eq!(p.arg_regs, vec![1, 2, 3, 4, 5, 6, 7]);
    assert_eq!(p.ret_reg, 0);
    assert_eq!(p.error, ErrorSignal::ConditionFlag);
    assert_eq!(p.number_bias, 33554432);
}

#[test]
fn plan_powerpc_condition_flag() {
    let p = call_plan(Os::Linux, Arch::Powerpc).unwrap();
    assert_eq!(p.number_reg, 0);
    assert_eq!(p.arg_regs, vec![3, 4, 5, 6, 7, 8]);
    assert_eq!(p.ret_reg, 3);
    assert_eq!(p.error, ErrorSignal::ConditionFlag);
    assert_eq!(p.clobbered, vec![9, 10, 11, 12]);
}

#[test]
fn plan_freebsd_matches_linux_registers_with_flag_errors() {
    let p = call_plan(Os::Freebsd, Arch::X86_64).unwrap();
    let q = call_plan(Os::Linux, Arch::X86_64).unwrap();
    assert_eq!(p.arg_regs, q.arg_regs);
    assert_eq!(p.number_reg, q.number_reg);
    assert_eq!(p.error, ErrorSignal::ConditionFlag);
}

#[test]
fn plan_absent_targets() {
    assert!(call_plan(Os::Linux, Arch::Powerpc64).is_none());
    assert!(call_plan(Os::Linux, Arch::Sparc64).is_none());
    assert!(call_plan(Os::Macos, Arch::X86_64).is_none());
    assert!(call_plan(Os::Freebsd, Arch::Aarch64).is_none());
}

#[test]
fn arguments_fill_registers_in_plan_order() {
    let p = call_plan(Os::Linux, Arch::X86_64).unwrap();
    let (regs, stack) = place_arguments(&p, &vec![100, 200, 300]);
    assert_eq!(regs, vec![(7, 100), (6, 200), (2, 300)]);
    assert!(stack.is_empty());
}

#[test]
fn excess_arguments_spill_to_the_stack() {
    let p = call_plan(Os::Linux, Arch::Mips).unwrap();
    let (regs, stack) = place_arguments(&p, &vec![10, 20, 30, 40, 50, 60, 70]);
    assert_eq!(regs, vec![(4, 10), (5, 20), (6, 30), (7, 40)]);
    assert_eq!(stack, vec![50, 60, 70]);
}

#[test]
fn number_register_applies_the_bias() {
    let linux = call_plan(Os::Linux, Arch::X86_64).unwrap();
    assert_eq!(number_register_value(&linux, 39), (0, 39));
    let macos = call_plan(Os::Macos, Arch::Aarch64).unwrap();
    assert_eq!(number_register_value(&macos, 20), (16, 33554432 + 20));
}

#[test]
fn plans_never_clobber_their_own_results() {
    let pairs: Vec<(Os, Arch)> = vec![
        (Os::Linux, Arch::X86),
        (Os::Linux, Arch::X86_64),
        (Os::Linux, Arch::Arm),
        (Os::Linux, Arch::Aarch64),
        (Os::Linux, Arch::Riscv64),
        (Os::Linux, Arch::Mips),
        (Os::Linux, Arch::Mips64),
        (Os::Linux, Arch::Powerpc),
        (Os::Freebsd, Arch::X86_64),
        (Os::Macos, Arch::Aarch64),
    ];
    for (os, arch) in pairs {
        let p = call_plan(os, arch).unwrap();
        assert!(p.arg_regs.len() + p.stack_args <= 7);
        assert!(!p.clobbered.contains(&p.ret_reg));
        assert!(!p.clobbered.contains(&p.number_reg));
        assert!(!p.arg_regs.contains(&p.number_reg));
        if let ErrorSignal::Register(r) = p.error {
            assert!(!p.clobbered.contains(&r));
            assert_ne!(r, p.ret_reg);
        }
    }
}
