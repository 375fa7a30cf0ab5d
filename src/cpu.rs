//! The simulated CPU: registers, flags, instruction pointer, and the effect
//! of each instruction on them and on memory.
use vstd::prelude::*;
use crate::arithmetic::{
    arithmetic_result, evaluate_op_at, lemma_update_gives_result_flags, store_result, stores_result,
    update_flags,
};
use crate::decode::le_word;
use crate::flag_registers::Flags;
use crate::memory::{Memory, MEMORY_SIZE};
use crate::ops::{
    Direction, EffectiveAddress, EffectiveAddressBase, Instruction, OpWidth, RegOrMem, Register,
    RegisterAccess, SegmentRegister,
};

verus! {

/// Why an instruction could not be executed.
#[derive(Debug, Clone, Copy, PartialEq, Eq, Structural)]
pub enum ExecError {
    /// A memory operand's computed address is negative.
    NegativeAddress(i16),
    /// A jump's target lies outside the addressable range.
    JumpOutOfRange,
}

/// General registers, segment registers, instruction pointer and flags.
#[derive(Debug, Clone, Copy, PartialEq, Eq, Structural)]
pub struct Registers {
    pub ax: i16,
    pub bx: i16,
    pub cx: i16,
    pub dx: i16,
    pub sp: i16,
    pub bp: i16,
    pub si: i16,
    pub di: i16,
    pub es: i16,
    pub cs: i16,
    pub ss: i16,
    pub ds: i16,
    pub ip: usize,
    pub flags: Flags,
}

/// The state of the simulated CPU.
#[derive(Debug, Clone, Copy, PartialEq, Eq, Structural)]
pub struct CpuState {
    pub registers: Registers,
}

/// The signed word of an unsigned 16-bit value.
pub open spec fn to_i16(u: int) -> i16 {
    if u < 32768 {
        u as i16
    } else {
        (u - 65536) as i16
    }
}

/// A signed sum wrapped to 16 bits.
pub open spec fn wrap16(x: int) -> i16 {
    to_i16(x % 65536)
}

pub open spec fn word_of(r: Registers, reg: Register) -> i16 {
    match reg {
        Register::A => r.ax,
        Register::B => r.bx,
        Register::C => r.cx,
        Register::D => r.dx,
        Register::Sp => r.sp,
        Register::Bp => r.bp,
        Register::Si => r.si,
        Register::Di => r.di,
    }
}

pub open spec fn with_word(r: Registers, reg: Register, v: i16) -> Registers {
    match reg {
        Register::A => Registers { ax: v, ..r },
        Register::B => Registers { bx: v, ..r },
        Register::C => Registers { cx: v, ..r },
        Register::D => Registers { dx: v, ..r },
        Register::Sp => Registers { sp: v, ..r },
        Register::Bp => Registers { bp: v, ..r },
        Register::Si => Registers { si: v, ..r },
        Register::Di => Registers { di: v, ..r },
    }
}

/// The value of a register access: the whole word, or the low or high byte
/// as an unsigned value 0..=255.
pub open spec fn register_value(r: Registers, ra: RegisterAccess) -> i16 {
    let u = (word_of(r, ra.reg) as int) % 65536;
    match ra.width {
        OpWidth::Word => word_of(r, ra.reg),
        OpWidth::Byte => (if ra.offset == 0 {
            u % 256
        } else {
            u / 256
        }) as i16,
    }
}

/// The registers after writing `v` through a register access. A byte write
/// replaces one half with the low byte of `v` and keeps the other half.
pub open spec fn register_written(r: Registers, v: i16, ra: RegisterAccess) -> Registers {
    let o = (word_of(r, ra.reg) as int) % 65536;
    let b = (v as int) % 256;
    match ra.width {
        OpWidth::Word => with_word(r, ra.reg, v),
        OpWidth::Byte => with_word(
            r,
            ra.reg,
            to_i16(
                if ra.offset == 0 {
                    (o / 256) * 256 + b
                } else {
                    o % 256 + b * 256
                },
            ),
        ),
    }
}

pub open spec fn segment_value(r: Registers, s: SegmentRegister) -> i16 {
    match s {
        SegmentRegister::Es => r.es,
        SegmentRegister::Cs => r.cs,
        SegmentRegister::Ss => r.ss,
        SegmentRegister::Ds => r.ds,
    }
}

pub open spec fn segment_written(r: Registers, s: SegmentRegister, v: i16) -> Registers {
    match s {
        SegmentRegister::Es => Registers { es: v, ..r },
        SegmentRegister::Cs => Registers { cs: v, ..r },
        SegmentRegister::Ss => Registers { ss: v, ..r },
        SegmentRegister::Ds => Registers { ds: v, ..r },
    }
}

/// The sum of the base registers of an effective address.
pub open spec fn base_sum(r: Registers, b: EffectiveAddressBase) -> int {
    match b {
        EffectiveAddressBase::Direct => 0,
        EffectiveAddressBase::BxPlusSi => r.bx + r.si,
        EffectiveAddressBase::BxPlusDi => r.bx + r.di,
        EffectiveAddressBase::BpPlusSi => r.bp + r.si,
        EffectiveAddressBase::BpPlusDi => r.bp + r.di,
        EffectiveAddressBase::Si => r.si as int,
        EffectiveAddressBase::Di => r.di as int,
        EffectiveAddressBase::Bp => r.bp as int,
        EffectiveAddressBase::Bx => r.bx as int,
    }
}

/// The address of a memory operand: the displacement itself for `Direct`,
/// else base registers plus displacement, wrapped to a signed word.
pub open spec fn effective_address(r: Registers, ea: EffectiveAddress) -> i16 {
    if ea.base == EffectiveAddressBase::Direct {
        ea.displacement
    } else {
        wrap16(base_sum(r, ea.base) + ea.displacement)
    }
}

/// A byte or a little-endian word read from memory at a memory operand.
pub open spec fn memory_value(m: Seq<u8>, r: Registers, ea: EffectiveAddress, w: OpWidth) -> Result<
    i16,
    ExecError,
> {
    let a = effective_address(r, ea);
    if a < 0 {
        Err(ExecError::NegativeAddress(a))
    } else {
        match w {
            OpWidth::Byte => Ok(m[a as int] as i16),
            OpWidth::Word => Ok(le_word(m[a as int], m[a + 1])),
        }
    }
}

/// Memory after writing the low byte, or the word little-endian, of `v`.
pub open spec fn memory_written(
    m: Seq<u8>,
    r: Registers,
    ea: EffectiveAddress,
    w: OpWidth,
    v: i16,
) -> Result<Seq<u8>, ExecError> {
    let a = effective_address(r, ea);
    let u = (v as int) % 65536;
    if a < 0 {
        Err(ExecError::NegativeAddress(a))
    } else {
        match w {
            OpWidth::Byte => Ok(m.update(a as int, (u % 256) as u8)),
            OpWidth::Word => Ok(m.update(a as int, (u % 256) as u8).update(a + 1, (u / 256) as u8)),
        }
    }
}

pub open spec fn operand_value(m: Seq<u8>, r: Registers, rm: RegOrMem, w: OpWidth) -> Result<
    i16,
    ExecError,
> {
    match rm {
        RegOrMem::Reg(ra) => Ok(register_value(r, ra)),
        RegOrMem::Mem(ea) => memory_value(m, r, ea, w),
    }
}

pub open spec fn operand_written(m: Seq<u8>, r: Registers, rm: RegOrMem, w: OpWidth, v: i16) -> Result<
    (Registers, Seq<u8>),
    ExecError,
> {
    match rm {
        RegOrMem::Reg(ra) => Ok((register_written(r, v, ra), m)),
        RegOrMem::Mem(ea) => match memory_written(m, r, ea, w, v) {
            Ok(m2) => Ok((r, m2)),
            Err(e) => Err(e),
        },
    }
}

pub open spec fn accumulator(w: OpWidth) -> RegisterAccess {
    RegisterAccess { reg: Register::A, width: w, offset: 0 }
}

/// Whether a jump or loop branches, given the flags and CX before it.
pub open spec fn branch_taken(i: Instruction, f: Flags, cx: i16) -> bool {
    let next_cx = wrap16(cx - 1);
    match i {
        Instruction::JumpOnEqual(_) => f.zero,
        Instruction::JumpOnLess(_) => f.sign != f.overflow,
        Instruction::JumpOnNotGreater(_) => f.zero || f.sign != f.overflow,
        Instruction::JumpOnBelow(_) => f.carry,
        Instruction::JumpOnNotAbove(_) => f.carry || f.zero,
        Instruction::JumpOnParity(_) => f.parity,
        Instruction::JumpOnOverflow(_) => f.overflow,
        Instruction::JumpOnSign(_) => f.sign,
        Instruction::JumpOnNotEqual(_) => !f.zero,
        Instruction::JumpOnNotLess(_) => f.sign == f.overflow,
        Instruction::JumpOnGreater(_) => !f.zero && f.sign == f.overflow,
        Instruction::JumpOnNotBelow(_) => !f.carry,
        Instruction::JumpOnAbove(_) => !f.carry && !f.zero,
        Instruction::JumpOnNoParity(_) => !f.parity,
        Instruction::JumpOnNoOverflow(_) => !f.overflow,
        Instruction::JumpOnNotSign(_) => !f.sign,
        Instruction::Loop(_) => next_cx != 0,
        Instruction::LoopWhileEqual(_) => next_cx != 0 && f.zero,
        Instruction::LoopWhileNotEqual(_) => next_cx != 0 && !f.zero,
        Instruction::JumpOnCxZero(_) => cx == 0,
        _ => false,
    }
}

/// Whether the instruction is one of the loops, which decrement CX.
pub open spec fn is_loop(i: Instruction) -> bool {
    match i {
        Instruction::Loop(_) | Instruction::LoopWhileEqual(_) | Instruction::LoopWhileNotEqual(_) => true,
        _ => false,
    }
}

/// The effect of an arithmetic instruction with destination `dest` and
/// operands `a` and `b`: the result is written back unless the operation is
/// `cmp`, and all six flags are replaced.
pub open spec fn arithmetic_effect(
    m: Seq<u8>,
    r: Registers,
    op: crate::ops::ArithmeticOp,
    w: OpWidth,
    dest: RegOrMem,
    a: i16,
    b: i16,
) -> Result<(Registers, Seq<u8>), ExecError> {
    let (res, f) = arithmetic_result(op, w, a, b);
    if stores_result(op) {
        match operand_written(m, r, dest, w, res) {
            Ok((r2, m2)) => Ok((Registers { flags: f, ..r2 }, m2)),
            Err(e) => Err(e),
        }
    } else {
        Ok((Registers { flags: f, ..r }, m))
    }
}

/// Registers and memory after executing `i`, with IP already past it.
pub open spec fn execute(r: Registers, m: Seq<u8>, i: Instruction) -> Result<
    (Registers, Seq<u8>),
    ExecError,
> {
    match i {
        Instruction::ImmediateMovReg { reg, data } => Ok((register_written(r, data, reg), m)),
        Instruction::ImmediateMovRegMem { width, reg_or_mem, data } => operand_written(
            m,
            r,
            reg_or_mem,
            width,
            data,
        ),
        Instruction::MovToFromRegMem { dir, reg, reg_or_mem } => match dir {
            Direction::FromRegister => operand_written(
                m,
                r,
                reg_or_mem,
                reg.width,
                register_value(r, reg),
            ),
            Direction::ToRegister => match operand_value(m, r, reg_or_mem, reg.width) {
                Ok(v) => Ok((register_written(r, v, reg), m)),
                Err(e) => Err(e),
            },
        },
        Instruction::AccumulatorMove { dir, addr } => {
            let ea = EffectiveAddress { base: EffectiveAddressBase::Direct, displacement: addr };
            match dir {
                Direction::FromRegister => match memory_written(m, r, ea, OpWidth::Word, r.ax) {
                    Ok(m2) => Ok((r, m2)),
                    Err(e) => Err(e),
                },
                Direction::ToRegister => match memory_value(m, r, ea, OpWidth::Word) {
                    Ok(v) => Ok((Registers { ax: v, ..r }, m)),
                    Err(e) => Err(e),
                },
            }
        },
        Instruction::SegmentRegisterMove { dir, seg_reg, reg_or_mem } => match dir {
            Direction::FromRegister => operand_written(
                m,
                r,
                reg_or_mem,
                OpWidth::Word,
                segment_value(r, seg_reg),
            ),
            Direction::ToRegister => match operand_value(m, r, reg_or_mem, OpWidth::Word) {
                Ok(v) => Ok((segment_written(r, seg_reg, v), m)),
                Err(e) => Err(e),
            },
        },
        Instruction::ArithmeticFromToRegMem { op, dir, width, reg, reg_or_mem } => match operand_value(
            m,
            r,
            reg_or_mem,
            width,
        ) {
            Err(e) => Err(e),
            Ok(v) => match dir {
                Direction::ToRegister => arithmetic_effect(
                    m,
                    r,
                    op,
                    width,
                    RegOrMem::Reg(reg),
                    register_value(r, reg),
                    v,
                ),
                Direction::FromRegister => arithmetic_effect(
                    m,
                    r,
                    op,
                    width,
                    reg_or_mem,
                    v,
                    register_value(r, reg),
                ),
            },
        },
        Instruction::ArithmeticImmediateToRegMem { op, width, data, reg_or_mem } => match operand_value(
            m,
            r,
            reg_or_mem,
            width,
        ) {
            Err(e) => Err(e),
            Ok(v) => arithmetic_effect(m, r, op, width, reg_or_mem, v, data),
        },
        Instruction::ArithmeticImmediateToAccumulator { op, width, data } => arithmetic_effect(
            m,
            r,
            op,
            width,
            RegOrMem::Reg(accumulator(width)),
            register_value(r, accumulator(width)),
            data,
        ),
        _ => {
            let d = match crate::ops::jump_displacement(i) {
                Some(d) => d as int,
                None => 0,
            };
            let r1 = if is_loop(i) {
                Registers { cx: wrap16(r.cx - 1), ..r }
            } else {
                r
            };
            if branch_taken(i, r.flags, r.cx) {
                if 0 <= r.ip + d <= usize::MAX {
                    Ok((Registers { ip: (r.ip + d) as usize, ..r1 }, m))
                } else {
                    Err(ExecError::JumpOutOfRange)
                }
            } else {
                Ok((r1, m))
            }
        },
    }
}

/// `x - 1` wrapped to a signed word.
fn decrement(x: i16) -> (r: i16)
    ensures
        r == wrap16(x - 1),
{
    if x == i16::MIN {
        i16::MAX
    } else {
        x - 1
    }
}

/// The signed word of an unsigned 16-bit value held in an `i32`.
fn word_from(u: i32) -> (r: i16)
    requires
        0 <= u < 65536,
    ensures
        r == to_i16(u as int),
{
    if u < 32768 {
        u as i16
    } else {
        (u - 65536) as i16
    }
}

/// The unsigned 16-bit value of a signed word.
fn unsigned_word(w: i16) -> (r: i32)
    ensures
        r == (w as int) % 65536,
        0 <= r < 65536,
{
    if w < 0 {
        w as i32 + 65536
    } else {
        w as i32
    }
}

impl Registers {
    pub open spec fn new_spec() -> Registers {
        Registers {
            ax: 0,
            bx: 0,
            cx: 0,
            dx: 0,
            sp: 0,
            bp: 0,
            si: 0,
            di: 0,
            es: 0,
            cs: 0,
            ss: 0,
            ds: 0,
            ip: 0,
            flags: Flags::empty_spec(),
        }
    }

    /// All registers, IP and flags zero.
    pub fn new() -> (r: Registers)
        ensures
            r == Registers::new_spec(),
    {
        Registers {
            ax: 0,
            bx: 0,
            cx: 0,
            dx: 0,
            sp: 0,
            bp: 0,
            si: 0,
            di: 0,
            es: 0,
            cs: 0,
            ss: 0,
            ds: 0,
            ip: 0,
            flags: Flags::empty(),
        }
    }

    fn word(&self, reg: Register) -> (r: i16)
        ensures
            r == word_of(*self, reg),
    {
        match reg {
            Register::A => self.ax,
            Register::B => self.bx,
            Register::C => self.cx,
            Register::D => self.dx,
            Register::Sp => self.sp,
            Register::Bp => self.bp,
            Register::Si => self.si,
            Register::Di => self.di,
        }
    }

    fn set_word(&mut self, reg: Register, v: i16)
        ensures
            *final(self) == with_word(*old(self), reg, v),
    {
        match reg {
            Register::A => self.ax = v,
            Register::B => self.bx = v,
            Register::C => self.cx = v,
            Register::D => self.dx = v,
            Register::Sp => self.sp = v,
            Register::Bp => self.bp = v,
            Register::Si => self.si = v,
            Register::Di => self.di = v,
        }
    }

    /// Reads a register access; a byte is returned as 0..=255.
    pub fn read_reg(&self, reg: RegisterAccess) -> (r: i16)
        ensures
            r == register_value(*self, reg),
    {
        let w = self.word(reg.reg);
        match reg.width {
            OpWidth::Word => w,
            OpWidth::Byte => {
                let u = unsigned_word(w);
                let b: i32 = if reg.offset == 0 {
                    u % 256
                } else {
                    u / 256
                };
                b as i16
            },
        }
    }

    /// Writes through a register access; a byte write keeps the other half.
    pub fn write_reg(&mut self, value: i16, reg: RegisterAccess)
        ensures
            *final(self) == register_written(*old(self), value, reg),
    {
        match reg.width {
            OpWidth::Word => self.set_word(reg.reg, value),
            OpWidth::Byte => {
                let o = unsigned_word(self.word(reg.reg));
                let b: i32 = unsigned_word(value) % 256;
                let n: i32 = if reg.offset == 0 {
                    (o / 256) * 256 + b
                } else {
                    o % 256 + b * 256
                };
                let v = word_from(n);
                self.set_word(reg.reg, v);
            },
        }
    }

    pub fn read_seg_reg(&self, reg: SegmentRegister) -> (r: i16)
        ensures
            r == segment_value(*self, reg),
    {
        match reg {
            SegmentRegister::Es => self.es,
            SegmentRegister::Cs => self.cs,
            SegmentRegister::Ss => self.ss,
            SegmentRegister::Ds => self.ds,
        }
    }

    pub fn write_seg_reg(&mut self, reg: SegmentRegister, value: i16)
        ensures
            *final(self) == segment_written(*old(self), reg, value),
    {
        match reg {
            SegmentRegister::Es => self.es = value,
            SegmentRegister::Cs => self.cs = value,
            SegmentRegister::Ss => self.ss = value,
            SegmentRegister::Ds => self.ds = value,
        }
    }
}

impl CpuState {
    /// All registers zero.
    pub fn new() -> (r: CpuState)
        ensures
            r.registers == Registers::new_spec(),
    {
        CpuState { registers: Registers::new() }
    }
}

/// The address of a memory operand.
pub fn calculate_address(ea: EffectiveAddress, state: &CpuState) -> (r: i16)
    ensures
        r == effective_address(state.registers, ea),
{
    let regs = &state.registers;
    let base: i32 = match ea.base {
        EffectiveAddressBase::Direct => {
            return ea.displacement;
        },
        EffectiveAddressBase::BxPlusSi => regs.bx as i32 + regs.si as i32,
        EffectiveAddressBase::BxPlusDi => regs.bx as i32 + regs.di as i32,
        EffectiveAddressBase::BpPlusSi => regs.bp as i32 + regs.si as i32,
        EffectiveAddressBase::BpPlusDi => regs.bp as i32 + regs.di as i32,
        EffectiveAddressBase::Si => regs.si as i32,
        EffectiveAddressBase::Di => regs.di as i32,
        EffectiveAddressBase::Bp => regs.bp as i32,
        EffectiveAddressBase::Bx => regs.bx as i32,
    };
    let sum = base + ea.displacement as i32;
    word_from((sum + 131072) % 65536)
}

/// Reads a byte (as 0..=255) or a little-endian word at a memory operand.
pub fn read_mem(mem: &Memory, state: &CpuState, effective_address: EffectiveAddress, width: OpWidth) -> (r:
    Result<i16, ExecError>)
    requires
        mem.wf(),
    ensures
        r == memory_value(mem@, state.registers, effective_address, width),
{
    let address = calculate_address(effective_address, state);
    if address < 0 {
        return Err(ExecError::NegativeAddress(address));
    }
    let a = address as usize;
    let lo = match mem.get(a) {
        Some(b) => b,
        None => 0,
    };
    match width {
        OpWidth::Byte => Ok(lo as i16),
        OpWidth::Word => {
            let hi = match mem.get(a + 1) {
                Some(b) => b,
                None => 0,
            };
            Ok(word_from(lo as i32 + 256 * hi as i32))
        },
    }
}

/// Writes the low byte, or the word little-endian, of `value` at a memory operand.
pub fn write_mem(
    value: i16,
    mem: &mut Memory,
    state: &CpuState,
    effective_address: EffectiveAddress,
    width: OpWidth,
) -> (r: Result<(), ExecError>)
    requires
        old(mem).wf(),
    ensures
        final(mem).wf(),
        match memory_written(old(mem)@, state.registers, effective_address, width, value) {
            Ok(m) => r is Ok && final(mem)@ == m,
            Err(e) => r == Err::<(), ExecError>(e) && final(mem)@ == old(mem)@,
        },
{
    let address = calculate_address(effective_address, state);
    if address < 0 {
        return Err(ExecError::NegativeAddress(address));
    }
    let a = address as usize;
    let u = unsigned_word(value);
    match width {
        OpWidth::Byte => {
            mem.set((u % 256) as u8, a);
        },
        OpWidth::Word => {
            mem.set((u % 256) as u8, a);
            mem.set((u / 256) as u8, a + 1);
        },
    }
    Ok(())
}

fn read_operand(mem: &Memory, state: &CpuState, rm: RegOrMem, width: OpWidth) -> (r: Result<i16, ExecError>)
    requires
        mem.wf(),
    ensures
        r == operand_value(mem@, state.registers, rm, width),
{
    match rm {
        RegOrMem::Reg(ra) => Ok(state.registers.read_reg(ra)),
        RegOrMem::Mem(ea) => read_mem(mem, state, ea, width),
    }
}

fn write_operand(
    state: &mut CpuState,
    mem: &mut Memory,
    rm: RegOrMem,
    width: OpWidth,
    value: i16,
) -> (r: Result<(), ExecError>)
    requires
        old(mem).wf(),
    ensures
        final(mem).wf(),
        match operand_written(old(mem)@, old(state).registers, rm, width, value) {
            Ok((regs, m)) => r is Ok && final(state).registers == regs && final(mem)@ == m,
            Err(e) => r == Err::<(), ExecError>(e) && *final(state) == *old(state) && final(mem)@ == old(
                mem,
            )@,
        },
{
    match rm {
        RegOrMem::Reg(ra) => {
            state.registers.write_reg(value, ra);
            Ok(())
        },
        RegOrMem::Mem(ea) => write_mem(value, mem, state, ea, width),
    }
}

fn arithmetic(
    state: &mut CpuState,
    mem: &mut Memory,
    op: crate::ops::ArithmeticOp,
    width: OpWidth,
    dest: RegOrMem,
    one: i16,
    two: i16,
) -> (r: Result<(), ExecError>)
    requires
        old(mem).wf(),
    ensures
        final(mem).wf(),
        match arithmetic_effect(old(mem)@, old(state).registers, op, width, dest, one, two) {
            Ok((regs, m)) => r is Ok && final(state).registers == regs && final(mem)@ == m,
            Err(e) => r == Err::<(), ExecError>(e) && *final(state) == *old(state) && final(mem)@ == old(
                mem,
            )@,
        },
{
    let (result, op_flags) = evaluate_op_at(op, width, one, two);
    if store_result(op) {
        match write_operand(state, mem, dest, width, result) {
            Ok(()) => {},
            Err(e) => return Err(e),
        }
    }
    let old_flags = state.registers.flags;
    state.registers.flags = update_flags(old_flags, result, op_flags, Flags::arithmetic_flags());
    proof {
        lemma_update_gives_result_flags(op, width, one, two, old_flags);
    }
    Ok(())
}

fn branch_condition(i: &Instruction, f: Flags, cx: i16) -> (r: bool)
    ensures
        r == branch_taken(*i, f, cx),
{
    let next_cx = decrement(cx);
    match *i {
        Instruction::JumpOnEqual(_) => f.zero,
        Instruction::JumpOnLess(_) => f.sign != f.overflow,
        Instruction::JumpOnNotGreater(_) => f.zero || f.sign != f.overflow,
        Instruction::JumpOnBelow(_) => f.carry,
        Instruction::JumpOnNotAbove(_) => f.carry || f.zero,
        Instruction::JumpOnParity(_) => f.parity,
        Instruction::JumpOnOverflow(_) => f.overflow,
        Instruction::JumpOnSign(_) => f.sign,
        Instruction::JumpOnNotEqual(_) => !f.zero,
        Instruction::JumpOnNotLess(_) => f.sign == f.overflow,
        Instruction::JumpOnGreater(_) => !f.zero && f.sign == f.overflow,
        Instruction::JumpOnNotBelow(_) => !f.carry,
        Instruction::JumpOnAbove(_) => !f.carry && !f.zero,
        Instruction::JumpOnNoParity(_) => !f.parity,
        Instruction::JumpOnNoOverflow(_) => !f.overflow,
        Instruction::JumpOnNotSign(_) => !f.sign,
        Instruction::Loop(_) => next_cx != 0,
        Instruction::LoopWhileEqual(_) => next_cx != 0 && f.zero,
        Instruction::LoopWhileNotEqual(_) => next_cx != 0 && !f.zero,
        Instruction::JumpOnCxZero(_) => cx == 0,
        _ => false,
    }
}

fn loop_instruction(i: &Instruction) -> (r: bool)
    ensures
        r == is_loop(*i),
{
    match *i {
        Instruction::Loop(_) | Instruction::LoopWhileEqual(_) | Instruction::LoopWhileNotEqual(_) => true,
        _ => false,
    }
}

/// Executes one instruction whose bytes IP has already passed. On an error
/// nothing is changed.
pub fn simulate_instruction(state: &mut CpuState, memory: &mut Memory, instruction: Instruction) -> (r:
    Result<(), ExecError>)
    requires
        old(memory).wf(),
    ensures
        final(memory).wf(),
        match execute(old(state).registers, old(memory)@, instruction) {
            Ok((regs, m)) => r is Ok && final(state).registers == regs && final(memory)@ == m,
            Err(e) => r == Err::<(), ExecError>(e) && *final(state) == *old(state) && final(memory)@
                == old(memory)@,
        },
{
    match instruction {
        Instruction::ImmediateMovReg { reg, data } => {
            state.registers.write_reg(data, reg);
            Ok(())
        },
        Instruction::ImmediateMovRegMem { width, reg_or_mem, data } => write_operand(
            state,
            memory,
            reg_or_mem,
            width,
            data,
        ),
        Instruction::MovToFromRegMem { dir, reg, reg_or_mem } => match dir {
            Direction::FromRegister => {
                let v = state.registers.read_reg(reg);
                write_operand(state, memory, reg_or_mem, reg.width, v)
            },
            Direction::ToRegister => match read_operand(memory, state, reg_or_mem, reg.width) {
                Ok(v) => {
                    state.registers.write_reg(v, reg);
                    Ok(())
                },
                Err(e) => Err(e),
            },
        },
        Instruction::AccumulatorMove { dir, addr } => {
            let ea = EffectiveAddress { base: EffectiveAddressBase::Direct, displacement: addr };
            match dir {
                Direction::FromRegister => {
                    let v = state.registers.ax;
                    write_mem(v, memory, state, ea, OpWidth::Word)
                },
                Direction::ToRegister => match read_mem(memory, state, ea, OpWidth::Word) {
                    Ok(v) => {
                        state.registers.ax = v;
                        Ok(())
                    },
                    Err(e) => Err(e),
                },
            }
        },
        Instruction::SegmentRegisterMove { dir, seg_reg, reg_or_mem } => match dir {
            Direction::FromRegister => {
                let v = state.registers.read_seg_reg(seg_reg);
                write_operand(state, memory, reg_or_mem, OpWidth::Word, v)
            },
            Direction::ToRegister => match read_operand(memory, state, reg_or_mem, OpWidth::Word) {
                Ok(v) => {
                    state.registers.write_seg_reg(seg_reg, v);
                    Ok(())
                },
                Err(e) => Err(e),
            },
        },
        Instruction::ArithmeticFromToRegMem { op, dir, width, reg, reg_or_mem } => {
            let v = match read_operand(memory, state, reg_or_mem, width) {
                Ok(v) => v,
                Err(e) => return Err(e),
            };
            let r = state.registers.read_reg(reg);
            match dir {
                Direction::ToRegister => arithmetic(state, memory, op, width, RegOrMem::Reg(reg), r, v),
                Direction::FromRegister => arithmetic(state, memory, op, width, reg_or_mem, v, r),
            }
        },
        Instruction::ArithmeticImmediateToRegMem { op, width, data, reg_or_mem } => {
            let v = match read_operand(memory, state, reg_or_mem, width) {
                Ok(v) => v,
                Err(e) => return Err(e),
            };
            arithmetic(state, memory, op, width, reg_or_mem, v, data)
        },
        Instruction::ArithmeticImmediateToAccumulator { op, width, data } => {
            let acc = RegisterAccess::new(Register::A, width, 0);
            let v = state.registers.read_reg(acc);
            arithmetic(state, memory, op, width, RegOrMem::Reg(acc), v, data)
        },
        _ => {
            let d = match crate::ops::relative_jump(&instruction) {
                Some(d) => d,
                None => 0,
            };
            let cx = state.registers.cx;
            let looping = loop_instruction(&instruction);
            if branch_condition(&instruction, state.registers.flags, cx) {
                let ip = state.registers.ip;
                let target = if d < 0 {
                    let back = (0 - (d as i16)) as usize;
                    if back <= ip {
                        ip - back
                    } else {
                        return Err(ExecError::JumpOutOfRange);
                    }
                } else {
                    if (d as usize) <= usize::MAX - ip {
                        ip + d as usize
                    } else {
                        return Err(ExecError::JumpOutOfRange);
                    }
                };
                state.registers.ip = target;
            }
            if looping {
                state.registers.cx = decrement(cx);
            }
            Ok(())
        },
    }
}

/// Writing a byte to one half of A, B, C or D leaves the other half and
/// every other register as they were, and the written half then reads back
/// as that byte.
pub proof fn lemma_byte_write_keeps_other_half(r: Registers, v: i16, reg: Register, offset: u8)
    requires
        reg == Register::A || reg == Register::B || reg == Register::C || reg == Register::D,
        offset <= 1,
    ensures
        ({
            let written = RegisterAccess { reg, width: OpWidth::Byte, offset };
            let other = RegisterAccess { reg, width: OpWidth::Byte, offset: (1 - offset) as u8 };
            let r2 = register_written(r, v, written);
            &&& register_value(r2, other) == register_value(r, other)
            &&& register_value(r2, written) == (v as int) % 256
            &&& forall|x: Register| x != reg ==> word_of(r2, x) == word_of(r, x)
            &&& r2.flags == r.flags && r2.ip == r.ip
        }),
{
    let o = (word_of(r, reg) as int) % 65536;
    let b = (v as int) % 256;
    let n = if offset == 0 {
        (o / 256) * 256 + b
    } else {
        o % 256 + b * 256
    };
    assert(0 <= n < 65536);
    assert((to_i16(n) as int) % 65536 == n);
    if offset == 0 {
        assert(n / 256 == o / 256);
        assert(n % 256 == b);
    } else {
        assert(n / 256 == b);
        assert(n % 256 == o % 256);
    }
}

/// LOOP with CX = 1 decrements CX to 0 and does not branch.
pub proof fn lemma_loop_falls_through_at_one(r: Registers, m: Seq<u8>, d: i8)
    requires
        r.cx == 1,
    ensures
        execute(r, m, Instruction::Loop(d)) == Ok::<(Registers, Seq<u8>), ExecError>(
            (Registers { cx: 0, ..r }, m),
        ),
{
}

/// JCXZ branches when CX = 0 and falls through otherwise; CX is unchanged
/// either way.
pub proof fn lemma_jcxz(r: Registers, m: Seq<u8>, d: i8)
    ensures
        r.cx == 0 && 0 <= r.ip + d <= usize::MAX ==> execute(r, m, Instruction::JumpOnCxZero(d))
            == Ok::<(Registers, Seq<u8>), ExecError>((Registers { ip: (r.ip + d) as usize, ..r }, m)),
        r.cx != 0 ==> execute(r, m, Instruction::JumpOnCxZero(d)) == Ok::<
            (Registers, Seq<u8>),
            ExecError,
        >((r, m)),
        execute(r, m, Instruction::JumpOnCxZero(d)) matches Ok((r2, _)) ==> r2.cx == r.cx,
{
}

} // verus!
