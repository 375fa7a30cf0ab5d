use sim8086::cpu::{
    calculate_address, read_mem, simulate_instruction, write_mem, CpuState, ExecError, Registers,
};
use sim8086::decode::DecodeError;
use sim8086::flag_registers::Flags;
use sim8086::memory::{Memory, MEMORY_SIZE};
use sim8086::ops::{EffectiveAddress, EffectiveAddressBase, Instruction, OpWidth, Register, RegisterAccess};
use sim8086::sim::{simulate, SimError, Simulator};

fn byte(reg: Register, offset: u8) -> RegisterAccess {
    RegisterAccess::new(reg, OpWidth::Byte, offset)
}

#[test]
fn byte_writes_keep_the_other_half() {
    let mut regs = Registers::new();
    regs.ax = 0x1234;
    regs.write_reg(0x7F, byte(Register::A, 0));
    assert_eq!(regs.ax, 0x127F);
    regs.write_reg(0x80, byte(Register::C, 0));
    assert_eq!(regs.read_reg(byte(Register::C, 0)), 0x80);
    assert_eq!(regs.read_reg(byte(Register::A, 1)), 0x12);
    regs.write_reg(-1, byte(Register::A, 1));
    assert_eq!(regs.ax as u16, 0xFF7F);
    assert_eq!(regs.read_reg(byte(Register::A, 0)), 0x7F);
    assert_eq!(regs.read_reg(byte(Register::A, 1)), 0xFF);
    assert_eq!(regs.bx, 0);
}

#[test]
fn segment_registers_are_stored() {
    let mut regs = Registers::new();
    regs.write_seg_reg(sim8086::ops::SegmentRegister::Ss, 0x0100);
    assert_eq!(regs.ss, 0x0100);
    assert_eq!(regs.read_seg_reg(sim8086::ops::SegmentRegister::Ss), 0x0100);
}

#[test]
fn loop_with_cx_one_falls_through() {
    let mut state = CpuState::new();
    let mut memory = Memory::new();
    state.registers.cx = 1;
    state.registers.ip = 10;
    simulate_instruction(&mut state, &mut memory, Instruction::Loop(-4)).unwrap();
    assert_eq!(state.registers.cx, 0);
    assert_eq!(state.registers.ip, 10);
}

#[test]
fn loop_with_cx_two_branches() {
    let mut state = CpuState::new();
    let mut memory = Memory::new();
    state.registers.cx = 2;
    state.registers.ip = 10;
    simulate_instruction(&mut state, &mut memory, Instruction::Loop(-4)).unwrap();
    assert_eq!(state.registers.cx, 1);
    assert_eq!(state.registers.ip, 6);
}

#[test]
fn jcxz_branches_only_on_zero() {
    let mut state = CpuState::new();
    let mut memory = Memory::new();
    state.registers.ip = 10;
    simulate_instruction(&mut state, &mut memory, Instruction::JumpOnCxZero(5)).unwrap();
    assert_eq!(state.registers.ip, 15);
    assert_eq!(state.registers.cx, 0);

    state.registers.cx = 3;
    simulate_instruction(&mut state, &mut memory, Instruction::JumpOnCxZero(5)).unwrap();
    assert_eq!(state.registers.ip, 15);
    assert_eq!(state.registers.cx, 3);
}

#[test]
fn conditional_jumps_follow_flags() {
    let mut state = CpuState::new();
    let mut memory = Memory::new();
    state.registers.ip = 20;
    simulate_instruction(&mut state, &mut memory, Instruction::JumpOnEqual(3)).unwrap();
    assert_eq!(state.registers.ip, 20);
    simulate_instruction(&mut state, &mut memory, Instruction::JumpOnNotEqual(3)).unwrap();
    assert_eq!(state.registers.ip, 23);
    state.registers.flags = Flags { sign: true, ..Flags::empty() };
    simulate_instruction(&mut state, &mut memory, Instruction::JumpOnLess(-3)).unwrap();
    assert_eq!(state.registers.ip, 20);
    simulate_instruction(&mut state, &mut memory, Instruction::JumpOnGreater(-3)).unwrap();
    assert_eq!(state.registers.ip, 20);
}

#[test]
fn jump_before_start_is_an_error() {
    let mut state = CpuState::new();
    let mut memory = Memory::new();
    state.registers.ip = 2;
    let before = state;
    assert_eq!(
        simulate_instruction(&mut state, &mut memory, Instruction::JumpOnNotEqual(-3)),
        Err(ExecError::JumpOutOfRange)
    );
    assert_eq!(state, before);
}

#[test]
fn addresses_wrap_and_negative_ones_fail() {
    let mut state = CpuState::new();
    state.registers.bx = 0x7FFF;
    state.registers.si = 2;
    let ea = EffectiveAddress { base: EffectiveAddressBase::BxPlusSi, displacement: 0 };
    assert_eq!(calculate_address(ea, &state), i16::MIN + 1);
    let mut memory = Memory::new();
    let mov = Instruction::ImmediateMovRegMem {
        width: OpWidth::Word,
        reg_or_mem: sim8086::ops::RegOrMem::Mem(ea),
        data: 7,
    };
    assert_eq!(
        simulate_instruction(&mut state, &mut memory, mov),
        Err(ExecError::NegativeAddress(i16::MIN + 1))
    );
    let direct = EffectiveAddress { base: EffectiveAddressBase::Direct, displacement: 300 };
    assert_eq!(calculate_address(direct, &state), 300);
}

#[test]
fn cmp_does_not_write_back() {
    // mov ax, 5; cmp ax, 5
    let sim = simulate(&[0xB8, 0x05, 0x00, 0x3D, 0x05, 0x00], 10).unwrap();
    assert_eq!(sim.state.registers.ax, 5);
    assert!(sim.state.registers.flags.zero);
}

#[test]
fn byte_arithmetic_on_al() {
    // mov al, 0x7F; add al, 1
    let sim = simulate(&[0xB0, 0x7F, 0x04, 0x01], 10).unwrap();
    let regs = sim.state.registers;
    assert_eq!(regs.ax as u16, 0x0080);
    assert!(regs.flags.overflow && regs.flags.sign && regs.flags.auxiliary_carry);
    assert!(!regs.flags.carry);
}

#[test]
fn accumulator_store_and_load() {
    // mov ax, 0x0102; mov [16], ax; mov bx, 0; mov ax, 0; mov ax, [16]
    let program = [
        0xB8, 0x02, 0x01, 0xA3, 0x10, 0x00, 0xB8, 0x00, 0x00, 0xA1, 0x10, 0x00,
    ];
    let sim = simulate(&program, 10).unwrap();
    assert_eq!(sim.state.registers.ax, 0x0102);
    assert_eq!(sim.memory.get(16), Some(0x02));
    assert_eq!(sim.memory.get(17), Some(0x01));
}

#[test]
fn byte_memory_reads_are_unsigned() {
    let state = CpuState::new();
    let mut memory = Memory::new();
    let ea = EffectiveAddress { base: EffectiveAddressBase::Direct, displacement: 40 };
    write_mem(128, &mut memory, &state, ea, OpWidth::Byte).unwrap();
    assert_eq!(read_mem(&memory, &state, ea, OpWidth::Byte), Ok(128));
    write_mem(-2, &mut memory, &state, ea, OpWidth::Word).unwrap();
    assert_eq!(read_mem(&memory, &state, ea, OpWidth::Word), Ok(-2));
    assert_eq!(read_mem(&memory, &state, ea, OpWidth::Byte), Ok(0xFE));
}

#[test]
fn loop_program_counts_down() {
    // mov cx, 3; mov bx, 0; label: add bx, 2; loop label
    let program = [0xB9, 0x03, 0x00, 0xBB, 0x00, 0x00, 0x83, 0xC3, 0x02, 0xE2, 0xFB];
    let sim = simulate(&program, 100).unwrap();
    assert_eq!(sim.state.registers.bx, 6);
    assert_eq!(sim.state.registers.cx, 0);
    assert_eq!(sim.state.registers.ip, 11);
}

#[test]
fn step_limit_stops_the_run() {
    let program = [0xB9, 0x03, 0x00, 0xBB, 0x00, 0x00, 0x83, 0xC3, 0x02, 0xE2, 0xFB];
    let sim = simulate(&program, 3).unwrap();
    assert_eq!(sim.state.registers.bx, 2);
}

#[test]
fn step_reports_each_instruction_then_the_end() {
    let mut sim = Simulator::load(&[0xB8, 0x01, 0x00]).unwrap();
    assert_eq!(sim.program_len, 3);
    let first = sim.step().unwrap();
    assert!(matches!(first, Some(Instruction::ImmediateMovReg { data: 1, .. })));
    assert_eq!(sim.step(), Ok(None));
}

#[test]
fn simulation_errors() {
    assert_eq!(simulate(&[0x90], 10).err(), Some(SimError::Decode(DecodeError::UnknownOpcode(0x90))));
    assert_eq!(simulate(&[0xB8, 0x01], 10).err(), Some(SimError::Decode(DecodeError::Truncated)));
    let too_large = vec![0u8; MEMORY_SIZE + 1];
    assert_eq!(simulate(&too_large, 1).err(), Some(SimError::ProgramTooLarge));
    // jne -5 right at the start: target before offset 0.
    assert_eq!(simulate(&[0x75, 0xFB], 10).err(), Some(SimError::Exec(ExecError::JumpOutOfRange)));
}

#[test]
fn memory_basics() {
    let mut memory = Memory::new();
    assert_eq!(memory.get(0), Some(0));
    assert_eq!(memory.get(MEMORY_SIZE - 1), Some(0));
    assert_eq!(memory.get(MEMORY_SIZE), None);
    memory.copy_from_slice(&[1, 2, 3], 5);
    assert_eq!(memory.iter(4, 9), &[0, 1, 2, 3, 0]);
    memory.set(9, 6);
    assert_eq!(memory.get(6), Some(9));
}
