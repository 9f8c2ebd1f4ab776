use rel::assembler::assemble;
use rel::codec::encode;
use rel::cpu::load_object;
use rel::cpu::Cpu;
use rel::cpu::Fault;
use rel::cpu::LoadError;
use rel::cpu::Status;
use rel::device::Device;
use rel::device::DeviceManager;
use rel::isa::Op;

fn build(src: &[&str]) -> Cpu {
    let lines: Vec<String> = src.iter().map(|s| s.to_string()).collect();
    let bytes = assemble(&lines).unwrap();
    let words = load_object(&bytes).unwrap();
    Cpu::new(&words)
}

fn run_source(src: &[&str]) -> Cpu {
    let mut cpu = build(src);
    cpu.run(10_000);
    cpu
}

#[test]
fn immediate_loads_by_xor() {
    let cpu = run_source(&["imm r0 5", "halt"]);
    assert_eq!(cpu.status, Status::Halted);
    assert_eq!(cpu.regs[0], 5);
}

#[test]
fn immediate_twice_is_identity() {
    let cpu = run_source(&["imm r0 5", "imm r0 5", "halt"]);
    assert_eq!(cpu.status, Status::Halted);
    assert_eq!(cpu.regs[0], 0);
}

#[test]
fn push_then_pop_restores_stack_pointer_and_register() {
    let mut cpu = build(&["push r0", "pop r0", "halt"]);
    cpu.data_mem[0xFFFE] = 0xBEEF;
    cpu.run(10_000);
    assert_eq!(cpu.status, Status::Halted);
    assert_eq!(cpu.regs[15], 0xFFFF);
    assert_eq!(cpu.regs[0], 0);
    assert_eq!(cpu.data_mem[0xFFFE], 0xBEEF);
}

#[test]
fn push_exchanges_rather_than_copies() {
    let mut cpu = build(&["push r0", "halt"]);
    cpu.regs[0] = 0x1234;
    cpu.data_mem[0xFFFE] = 0xBEEF;
    cpu.run(10_000);
    assert_eq!(cpu.regs[0], 0xBEEF);
    assert_eq!(cpu.data_mem[0xFFFE], 0x1234);
    assert_eq!(cpu.regs[15], 0xFFFE);
}

#[test]
fn toffoli_twice_restores_target_for_all_control_combinations() {
    for &(a, b) in &[(0u16, 0u16), (0, 0xFFFF), (0xFFFF, 0), (0xFFFF, 0xFFFF)] {
        let mut cpu = build(&["toff r1 r2 r3", "toff r1 r2 r3", "halt"]);
        cpu.regs[1] = a;
        cpu.regs[2] = b;
        cpu.regs[3] = 0x1234;
        cpu.run(10_000);
        assert_eq!(cpu.status, Status::Halted);
        assert_eq!(cpu.regs[3], 0x1234);
        assert_eq!(cpu.regs[1], a);
        assert_eq!(cpu.regs[2], b);
    }
}

#[test]
fn toffoli_xors_and_of_controls() {
    let mut cpu = build(&["toff r1 r2 r3", "halt"]);
    cpu.regs[1] = 0x0FF0;
    cpu.regs[2] = 0x00FF;
    cpu.regs[3] = 0x1111;
    cpu.run(10_000);
    assert_eq!(cpu.regs[3], 0x1111 ^ (0x0FF0 & 0x00FF));
}

#[test]
fn fredkin_zero_control_changes_nothing() {
    let mut cpu = build(&["fredk r1 r2 r3", "halt"]);
    cpu.regs[2] = 0xAAAA;
    cpu.regs[3] = 0x5555;
    cpu.run(10_000);
    assert_eq!(cpu.status, Status::Halted);
    assert_eq!(cpu.regs[2], 0xAAAA);
    assert_eq!(cpu.regs[3], 0x5555);
}

#[test]
fn fredkin_full_control_swaps_targets() {
    let mut cpu = build(&["fredk r1 r2 r3", "halt"]);
    cpu.regs[1] = 0xFFFF;
    cpu.regs[2] = 0xAAAA;
    cpu.regs[3] = 0x5555;
    cpu.run(10_000);
    assert_eq!(cpu.regs[2], 0x5555);
    assert_eq!(cpu.regs[3], 0xAAAA);
}

#[test]
fn end_to_end_two_steps_to_two() {
    let mut cpu = build(&["imm r0 1", "rotl r0", "halt"]);
    let n = cpu.run(10_000);
    assert_eq!(cpu.status, Status::Halted);
    assert_eq!(cpu.regs[0], 2);
    assert_eq!(n, 3);
}

#[test]
fn stack_pointer_wraps_without_fault() {
    let mut cpu = build(&["push r0", "halt"]);
    cpu.regs[15] = 0;
    cpu.run(10_000);
    assert_eq!(cpu.status, Status::Halted);
    assert_eq!(cpu.regs[15], 0xFFFF);

    let mut cpu = build(&["pop r0", "halt"]);
    assert_eq!(cpu.regs[15], 0xFFFF);
    cpu.run(10_000);
    assert_eq!(cpu.status, Status::Halted);
    assert_eq!(cpu.regs[15], 0);
}

#[test]
fn alu_effects() {
    let cpu = run_source(&["not r0", "halt"]);
    assert_eq!(cpu.regs[0], 0xFFFF);

    let cpu = run_source(&["dec r0", "halt"]);
    assert_eq!(cpu.regs[0], 0xFFFF);

    let cpu = run_source(&["imm r0 1", "rotr r0", "halt"]);
    assert_eq!(cpu.regs[0], 0x8000);

    let cpu = run_source(&["imm r1 1", "imm r2 3", "cadd r1 r2", "halt"]);
    assert_eq!(cpu.regs[2], 4);

    let cpu = run_source(&["imm r1 1", "imm r2 3", "csub r1 r2", "halt"]);
    assert_eq!(cpu.regs[2], 2);

    let cpu = run_source(&["imm r1 12", "imm r2 10", "cnot r1 r2", "halt"]);
    assert_eq!(cpu.regs[2], 12 ^ 10);

    let cpu = run_source(&["imm r1 7", "swp r1 r2", "halt"]);
    assert_eq!(cpu.regs[1], 0);
    assert_eq!(cpu.regs[2], 7);
}

#[test]
fn exchange_swaps_register_with_memory() {
    let mut cpu = build(&["exch r0 r1", "halt"]);
    cpu.regs[0] = 3;
    cpu.data_mem[1] = 7;
    cpu.run(10_000);
    assert_eq!(cpu.regs[0], 7);
    assert_eq!(cpu.data_mem[1], 3);
}

#[test]
fn load_object_rejects_odd_image() {
    assert_eq!(load_object(&vec![1, 2, 3]), Err(LoadError::OddLength));
}

#[test]
fn load_object_rejects_oversized_image() {
    assert_eq!(load_object(&vec![0u8; 2 * 65536 + 2]), Err(LoadError::TooBig));
}

#[test]
fn unassigned_word_faults() {
    let mut cpu = Cpu::new(&vec![0x0001]);
    cpu.run(10_000);
    assert_eq!(cpu.status, Status::Faulted(Fault::IllegalWord));
}

#[test]
fn aliased_gate_faults_at_runtime() {
    let mut cpu = Cpu::new(&vec![encode(&Op::CCNot(0, 1, 0)), 0]);
    cpu.run(10_000);
    assert_eq!(cpu.status, Status::Faulted(Fault::AliasedGate));

    let mut cpu = Cpu::new(&vec![encode(&Op::CSwap(0, 1, 0)), 0]);
    cpu.run(10_000);
    assert_eq!(cpu.status, Status::Faulted(Fault::AliasedGate));
}

#[test]
fn branch_register_accumulates_and_steps_pc() {
    let mut cpu = Cpu::new(&vec![encode(&Op::Branch(2)), encode(&Op::Halt)]);
    cpu.run(10_000);
    assert_eq!(cpu.status, Status::Halted);
    assert_eq!(cpu.br, 2);
    assert_eq!(cpu.pc, 3);
}

#[test]
fn swap_br_exchanges_branch_register() {
    let mut cpu = Cpu::new(&vec![encode(&Op::SwapBr(1)), encode(&Op::Halt)]);
    cpu.regs[1] = 3;
    cpu.step();
    assert_eq!(cpu.br, 3);
    assert_eq!(cpu.regs[1], 0);
    assert_eq!(cpu.pc, 1);
}

#[test]
fn reverse_swap_br_flips_direction() {
    let mut cpu = Cpu::new(&vec![encode(&Op::RevSwapBr(1)), encode(&Op::Halt)]);
    cpu.regs[1] = 1;
    cpu.run(10_000);
    assert_eq!(cpu.status, Status::Halted);
    assert!(!cpu.fwd);
    assert_eq!(cpu.pc, 0);
}

#[test]
fn conditional_branches_test_sign_and_parity() {
    let mut cpu = Cpu::new(&vec![encode(&Op::BrGEZ(1, 5)), encode(&Op::Halt)]);
    cpu.step();
    assert_eq!(cpu.br, 5);

    let mut cpu = Cpu::new(&vec![encode(&Op::BrLZ(1, 5)), encode(&Op::Halt)]);
    cpu.step();
    assert_eq!(cpu.br, 0);

    let mut cpu = Cpu::new(&vec![encode(&Op::BrOdd(1, 5)), encode(&Op::Halt)]);
    cpu.regs[1] = 3;
    cpu.step();
    assert_eq!(cpu.br, 5);

    let mut cpu = Cpu::new(&vec![encode(&Op::BrEven(1, 5)), encode(&Op::Halt)]);
    cpu.regs[1] = 3;
    cpu.step();
    assert_eq!(cpu.br, 0);

    let mut cpu = Cpu::new(&vec![encode(&Op::BrGEZ(1, 5)), encode(&Op::Halt)]);
    cpu.regs[1] = 0x8000;
    cpu.step();
    assert_eq!(cpu.br, 0);

    let mut cpu = Cpu::new(&vec![encode(&Op::BrLZ(1, 5)), encode(&Op::Halt)]);
    cpu.regs[1] = 0x8000;
    cpu.step();
    assert_eq!(cpu.br, 5);
}

#[test]
fn pc_wraps_backward_past_zero() {
    let mut cpu = Cpu::new(&vec![encode(&Op::Not(0))]);
    cpu.fwd = false;
    cpu.step();
    assert_eq!(cpu.pc, 0xFFFF);
    assert_eq!(cpu.regs[0], 0xFFFF);
    cpu.step();
    assert_eq!(cpu.status, Status::Halted);
}

#[test]
fn pc_wraps_forward_past_top() {
    let mut cpu = Cpu::new(&vec![]);
    cpu.pc = 0xFFFF;
    cpu.step();
    assert_eq!(cpu.pc, 0);
    assert_eq!(cpu.status, Status::Halted);
}

#[test]
fn reserved_transfers_are_no_ops() {
    let cpu = run_source(&["goto 7", "cmfr 9", "halt"]);
    assert_eq!(cpu.status, Status::Halted);
    assert_eq!(cpu.pc, 3);
    assert_eq!(cpu.br, 0);
}

#[test]
fn vm_runs_an_object_image() {
    let lines: Vec<String> = ["imm r0 5", "halt"].iter().map(|s| s.to_string()).collect();
    let bytes = assemble(&lines).unwrap();
    let cpu = rel::cpu::vm(&bytes, 10_000).unwrap();
    assert_eq!(cpu.status, Status::Halted);
    assert_eq!(cpu.regs[0], 5);
    assert!(matches!(rel::cpu::vm(&vec![1u8], 10), Err(LoadError::OddLength)));
    assert!(matches!(rel::cpu::vm(&vec![0u8; 2 * 65537], 10), Err(LoadError::TooBig)));
}

#[test]
fn device_manager_dumps_registered_devices() {
    let mut dm = DeviceManager::new();
    assert_eq!(dm.debug_dump().len(), 0);
    dm.add(Device::Stack(vec![1u16, 2, 3]));
    let dump = dm.debug_dump();
    assert_eq!(dump, vec![vec![1u16, 2, 3]]);
}
