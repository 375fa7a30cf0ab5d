//! Decoders for each instruction family. Each reads from a byte slice at a
//! position and returns the instruction with the position after it.
use vstd::prelude::*;
use crate::ops::{
    ArithmeticOp, Direction, EffectiveAddress, EffectiveAddressBase, Instruction, OpWidth,
    RegOrMem, Register, RegisterAccess, SegmentRegister,
};

verus! {

/// Why decoding stopped.
#[derive(Debug, Clone, Copy, PartialEq, Eq, Structural)]
pub enum DecodeError {
    /// The bytes ended inside an instruction.
    Truncated,
    /// No decoder is registered for this leading byte.
    UnknownOpcode(u8),
    /// The operation field selects an arithmetic operation that is not supported.
    UnsupportedOperation(u8),
}

/// A result of decoding something of type `T`, with the position after it.
pub type Decoded<T> = Result<(T, usize), DecodeError>;

/// Whether the bit selected by `mask` (a power of two) is set in `code`.
pub open spec fn has_bit(code: u8, mask: u8) -> bool {
    (code / mask) % 2 == 1
}

/// A byte read as a signed value and widened to 16 bits.
pub open spec fn sign_extend(b: u8) -> i16 {
    if b < 128 {
        b as i16
    } else {
        (b as int - 256) as i16
    }
}

/// The signed 16-bit value of two bytes, little-endian.
pub open spec fn le_word(lo: u8, hi: u8) -> i16 {
    let u = lo as int + 256 * hi as int;
    if u < 32768 {
        u as i16
    } else {
        (u - 65536) as i16
    }
}

/// One byte at `p`, sign-extended.
pub open spec fn spec_i8(s: Seq<u8>, p: usize) -> Decoded<i16> {
    if p < s.len() {
        Ok((sign_extend(s[p as int]), (p + 1) as usize))
    } else {
        Err(DecodeError::Truncated)
    }
}

/// Two bytes at `p`, little-endian.
pub open spec fn spec_i16(s: Seq<u8>, p: usize) -> Decoded<i16> {
    if p + 2 <= s.len() {
        Ok((le_word(s[p as int], s[p + 1]), (p + 2) as usize))
    } else {
        Err(DecodeError::Truncated)
    }
}

/// An immediate of the given width.
pub open spec fn spec_immediate(s: Seq<u8>, p: usize, width: OpWidth) -> Decoded<i16> {
    match width {
        OpWidth::Byte => spec_i8(s, p),
        OpWidth::Word => spec_i16(s, p),
    }
}

pub open spec fn direction_of(code: u8, mask: u8) -> Direction {
    if has_bit(code, mask) {
        Direction::ToRegister
    } else {
        Direction::FromRegister
    }
}

pub open spec fn width_of(code: u8, mask: u8) -> OpWidth {
    if has_bit(code, mask) {
        OpWidth::Word
    } else {
        OpWidth::Byte
    }
}

/// The arithmetic operation of a 3-bit operation field.
pub open spec fn arithmetic_op_of(field: u8) -> Option<ArithmeticOp> {
    if field == 0 {
        Some(ArithmeticOp::Add)
    } else if field == 2 {
        Some(ArithmeticOp::Adc)
    } else if field == 3 {
        Some(ArithmeticOp::Sbb)
    } else if field == 5 {
        Some(ArithmeticOp::Sub)
    } else if field == 7 {
        Some(ArithmeticOp::Cmp)
    } else {
        None
    }
}

/// The register that a 3-bit register field names at the given width.
pub open spec fn register_of(field: u8, width: OpWidth) -> RegisterAccess {
    let reg = if field % 4 == 0 {
        Register::A
    } else if field % 4 == 1 {
        Register::C
    } else if field % 4 == 2 {
        Register::D
    } else {
        Register::B
    };
    match width {
        OpWidth::Byte => RegisterAccess {
            reg,
            width,
            offset: if field < 4 {
                0
            } else {
                1
            },
        },
        OpWidth::Word => RegisterAccess {
            reg: if field < 4 {
                reg
            } else if field == 4 {
                Register::Sp
            } else if field == 5 {
                Register::Bp
            } else if field == 6 {
                Register::Si
            } else {
                Register::Di
            },
            width,
            offset: 0,
        },
    }
}

/// The base registers that a 3-bit r/m field names in a memory mode.
pub open spec fn base_of(field: u8) -> EffectiveAddressBase {
    if field == 0 {
        EffectiveAddressBase::BxPlusSi
    } else if field == 1 {
        EffectiveAddressBase::BxPlusDi
    } else if field == 2 {
        EffectiveAddressBase::BpPlusSi
    } else if field == 3 {
        EffectiveAddressBase::BpPlusDi
    } else if field == 4 {
        EffectiveAddressBase::Si
    } else if field == 5 {
        EffectiveAddressBase::Di
    } else if field == 6 {
        EffectiveAddressBase::Bp
    } else {
        EffectiveAddressBase::Bx
    }
}

pub open spec fn segment_of(field: u8) -> SegmentRegister {
    if field == 0 {
        SegmentRegister::Es
    } else if field == 1 {
        SegmentRegister::Cs
    } else if field == 2 {
        SegmentRegister::Ss
    } else {
        SegmentRegister::Ds
    }
}

pub open spec fn memory_operand(base: EffectiveAddressBase, d: Decoded<i16>) -> Decoded<RegOrMem> {
    match d {
        Ok((displacement, q)) => Ok((RegOrMem::Mem(EffectiveAddress { base, displacement }), q)),
        Err(e) => Err(e),
    }
}

/// The r/m operand for a 2-bit mode and 3-bit r/m field, with the
/// displacement bytes that follow at `p`.
pub open spec fn spec_reg_or_mem(rm: u8, mode: u8, width: OpWidth, s: Seq<u8>, p: usize) -> Decoded<
    RegOrMem,
> {
    if mode == 3 {
        Ok((RegOrMem::Reg(register_of(rm, width)), p))
    } else if mode == 0 && rm == 6 {
        memory_operand(EffectiveAddressBase::Direct, spec_i16(s, p))
    } else if mode == 0 {
        Ok((RegOrMem::Mem(EffectiveAddress { base: base_of(rm), displacement: 0 }), p))
    } else if mode == 1 {
        memory_operand(base_of(rm), spec_i8(s, p))
    } else {
        memory_operand(base_of(rm), spec_i16(s, p))
    }
}

/// Number of displacement bytes that follow a ModR/M byte.
pub open spec fn displacement_len(mode: u8, rm: u8) -> nat {
    if mode == 3 {
        0
    } else if mode == 0 && rm == 6 {
        2
    } else if mode == 0 {
        0
    } else if mode == 1 {
        1
    } else {
        2
    }
}

#[derive(Debug, Clone, Copy)]
enum Mode {
    MemoryNoDisplacement,
    MemoryEightBitDisplacement,
    MemorySixteenBitDisplacement,
    Register,
}

spec fn mode_code(m: Mode) -> u8 {
    match m {
        Mode::MemoryNoDisplacement => 0,
        Mode::MemoryEightBitDisplacement => 1,
        Mode::MemorySixteenBitDisplacement => 2,
        Mode::Register => 3,
    }
}

fn decode_mode(mode: u8) -> (r: Mode)
    requires
        mode < 4,
    ensures
        mode_code(r) == mode,
{
    match mode {
        0 => Mode::MemoryNoDisplacement,
        1 => Mode::MemoryEightBitDisplacement,
        2 => Mode::MemorySixteenBitDisplacement,
        _ => Mode::Register,
    }
}

fn decode_arithmetic_op(field: u8) -> (r: Result<ArithmeticOp, DecodeError>)
    ensures
        match arithmetic_op_of(field) {
            Some(op) => r == Ok::<ArithmeticOp, DecodeError>(op),
            None => r == Err::<ArithmeticOp, DecodeError>(DecodeError::UnsupportedOperation(field)),
        },
{
    match field {
        0 => Ok(ArithmeticOp::Add),
        2 => Ok(ArithmeticOp::Adc),
        3 => Ok(ArithmeticOp::Sbb),
        5 => Ok(ArithmeticOp::Sub),
        7 => Ok(ArithmeticOp::Cmp),
        _ => Err(DecodeError::UnsupportedOperation(field)),
    }
}

fn effective_address_base2(field: u8) -> (r: EffectiveAddressBase)
    requires
        field < 8,
    ensures
        r == base_of(field),
{
    match field {
        0 => EffectiveAddressBase::BxPlusSi,
        1 => EffectiveAddressBase::BxPlusDi,
        2 => EffectiveAddressBase::BpPlusSi,
        3 => EffectiveAddressBase::BpPlusDi,
        4 => EffectiveAddressBase::Si,
        5 => EffectiveAddressBase::Di,
        6 => EffectiveAddressBase::Bp,
        _ => EffectiveAddressBase::Bx,
    }
}

fn decode_i8(bytes: &[u8], pos: usize) -> (r: Decoded<i16>)
    ensures
        r == spec_i8(bytes@, pos),
{
    if pos < bytes.len() {
        let b = bytes[pos];
        let v: i16 = if b < 128 {
            b as i16
        } else {
            b as i16 - 256
        };
        Ok((v, pos + 1))
    } else {
        Err(DecodeError::Truncated)
    }
}

fn decode_i16(bytes: &[u8], pos: usize) -> (r: Decoded<i16>)
    ensures
        r == spec_i16(bytes@, pos),
{
    if pos < bytes.len() && 2 <= bytes.len() - pos {
        let lo = bytes[pos];
        let hi = bytes[pos + 1];
        let u: u32 = lo as u32 + 256 * (hi as u32);
        let v: i16 = if u < 32768 {
            u as i16
        } else {
            (u as i32 - 65536) as i16
        };
        Ok((v, pos + 2))
    } else {
        Err(DecodeError::Truncated)
    }
}

fn decode_immediate(bytes: &[u8], pos: usize, width: OpWidth) -> (r: Decoded<i16>)
    ensures
        r == spec_immediate(bytes@, pos, width),
{
    match width {
        OpWidth::Byte => decode_i8(bytes, pos),
        OpWidth::Word => decode_i16(bytes, pos),
    }
}

fn decode_dir(code: u8, dir_mask: u8) -> (r: Direction)
    requires
        dir_mask > 0,
    ensures
        r == direction_of(code, dir_mask),
{
    if (code / dir_mask) % 2 == 1 {
        Direction::ToRegister
    } else {
        Direction::FromRegister
    }
}

fn decode_width(code: u8, width_mask: u8) -> (r: OpWidth)
    requires
        width_mask > 0,
    ensures
        r == width_of(code, width_mask),
{
    if (code / width_mask) % 2 == 1 {
        OpWidth::Word
    } else {
        OpWidth::Byte
    }
}

fn decode_seg_reg(field: u8) -> (r: SegmentRegister)
    requires
        field < 4,
    ensures
        r == segment_of(field),
{
    match field {
        0 => SegmentRegister::Es,
        1 => SegmentRegister::Cs,
        2 => SegmentRegister::Ss,
        _ => SegmentRegister::Ds,
    }
}

/// The absolute address of an accumulator move: always a 16-bit word.
fn decode_address(bytes: &[u8], pos: usize) -> (r: Decoded<i16>)
    ensures
        r == spec_i16(bytes@, pos),
{
    decode_i16(bytes, pos)
}

fn decode_reg(field: u8, width: OpWidth) -> (r: RegisterAccess)
    requires
        field < 8,
    ensures
        r == register_of(field, width),
        r.wf(),
{
    match width {
        OpWidth::Byte => match field {
            0 => RegisterAccess::new(Register::A, width, 0),
            1 => RegisterAccess::new(Register::C, width, 0),
            2 => RegisterAccess::new(Register::D, width, 0),
            3 => RegisterAccess::new(Register::B, width, 0),
            4 => RegisterAccess::new(Register::A, width, 1),
            5 => RegisterAccess::new(Register::C, width, 1),
            6 => RegisterAccess::new(Register::D, width, 1),
            _ => RegisterAccess::new(Register::B, width, 1),
        },
        OpWidth::Word => match field {
            0 => RegisterAccess::new(Register::A, width, 0),
            1 => RegisterAccess::new(Register::C, width, 0),
            2 => RegisterAccess::new(Register::D, width, 0),
            3 => RegisterAccess::new(Register::B, width, 0),
            4 => RegisterAccess::new(Register::Sp, width, 0),
            5 => RegisterAccess::new(Register::Bp, width, 0),
            6 => RegisterAccess::new(Register::Si, width, 0),
            _ => RegisterAccess::new(Register::Di, width, 0),
        },
    }
}

fn decode_reg_or_mem(rm: u8, mode: Mode, width: OpWidth, bytes: &[u8], pos: usize) -> (r: Decoded<
    RegOrMem,
>)
    requires
        rm < 8,
    ensures
        r == spec_reg_or_mem(rm, mode_code(mode), width, bytes@, pos),
{
    match mode {
        Mode::Register => Ok((RegOrMem::Reg(decode_reg(rm, width)), pos)),
        Mode::MemoryNoDisplacement => {
            if rm == 6 {
                match decode_i16(bytes, pos) {
                    Ok((displacement, q)) => Ok(
                        (
                            RegOrMem::Mem(
                                EffectiveAddress { base: EffectiveAddressBase::Direct, displacement },
                            ),
                            q,
                        ),
                    ),
                    Err(e) => Err(e),
                }
            } else {
                Ok(
                    (
                        RegOrMem::Mem(
                            EffectiveAddress {
                                base: effective_address_base2(rm),
                                displacement: 0,
                            },
                        ),
                        pos,
                    ),
                )
            }
        },
        Mode::MemoryEightBitDisplacement => match decode_i8(bytes, pos) {
            Ok((displacement, q)) => Ok(
                (
                    RegOrMem::Mem(
                        EffectiveAddress { base: effective_address_base2(rm), displacement },
                    ),
                    q,
                ),
            ),
            Err(e) => Err(e),
        },
        Mode::MemorySixteenBitDisplacement => match decode_i16(bytes, pos) {
            Ok((displacement, q)) => Ok(
                (
                    RegOrMem::Mem(
                        EffectiveAddress { base: effective_address_base2(rm), displacement },
                    ),
                    q,
                ),
            ),
            Err(e) => Err(e),
        },
    }
}

/// A decoding strategy for the instructions of one family. `op_code` is the
/// leading byte, already consumed; the rest is read from `bytes` at `pos`.
pub trait OpCodeDecoder {
    /// What `decode` returns on these bytes.
    spec fn decodes(&self, op_code: u8, s: Seq<u8>, pos: usize) -> Decoded<Instruction>;

    fn decode(&self, op_code: u8, bytes: &[u8], pos: usize) -> (r: Decoded<Instruction>)
        ensures
            r == self.decodes(op_code, bytes@, pos),
    ;
}

/// The instruction built from a decoded part, or the error that stopped it.
pub open spec fn build<T>(d: Decoded<T>, f: spec_fn(T) -> Instruction) -> Decoded<Instruction> {
    match d {
        Ok((v, q)) => Ok((f(v), q)),
        Err(e) => Err(e),
    }
}

/// `1000 10dw`: MOV between a register and a register or memory.
#[derive(Debug, Clone, Copy)]
pub struct MovToFromRegMemDecoder {}

pub open spec fn spec_mov_to_from_reg_mem(op_code: u8, s: Seq<u8>, pos: usize) -> Decoded<Instruction> {
    if pos < s.len() {
        let m = s[pos as int];
        let width = width_of(op_code, 1);
        build(
            spec_reg_or_mem(m % 8, m / 64, width, s, (pos + 1) as usize),
            |rm: RegOrMem|
                Instruction::MovToFromRegMem {
                    dir: direction_of(op_code, 2),
                    reg: register_of((m / 8) % 8, width),
                    reg_or_mem: rm,
                },
        )
    } else {
        Err(DecodeError::Truncated)
    }
}

impl OpCodeDecoder for MovToFromRegMemDecoder {
    open spec fn decodes(&self, op_code: u8, s: Seq<u8>, pos: usize) -> Decoded<Instruction> {
        spec_mov_to_from_reg_mem(op_code, s, pos)
    }

    fn decode(&self, op_code: u8, bytes: &[u8], pos: usize) -> (r: Decoded<Instruction>) {
        let dir = decode_dir(op_code, 2);
        let width = decode_width(op_code, 1);
        if pos >= bytes.len() {
            return Err(DecodeError::Truncated);
        }
        let next = bytes[pos];
        let mode = decode_mode(next / 64);
        let reg = decode_reg((next / 8) % 8, width);
        match decode_reg_or_mem(next % 8, mode, width, bytes, pos + 1) {
            Ok((reg_or_mem, q)) => Ok((Instruction::MovToFromRegMem { dir, reg, reg_or_mem }, q)),
            Err(e) => Err(e),
        }
    }
}

/// `1100 011w`: MOV of an immediate to a register or memory.
#[derive(Debug, Clone, Copy)]
pub struct ImmediateMovToRegMemDecoder {}

pub open spec fn spec_immediate_mov_to_reg_mem(op_code: u8, s: Seq<u8>, pos: usize) -> Decoded<
    Instruction,
> {
    if pos < s.len() {
        let m = s[pos as int];
        let width = width_of(op_code, 1);
        match spec_reg_or_mem(m % 8, m / 64, width, s, (pos + 1) as usize) {
            Ok((reg_or_mem, q)) => build(
                spec_immediate(s, q, width),
                |data: i16| Instruction::ImmediateMovRegMem { width, reg_or_mem, data },
            ),
            Err(e) => Err(e),
        }
    } else {
        Err(DecodeError::Truncated)
    }
}

impl OpCodeDecoder for ImmediateMovToRegMemDecoder {
    open spec fn decodes(&self, op_code: u8, s: Seq<u8>, pos: usize) -> Decoded<Instruction> {
        spec_immediate_mov_to_reg_mem(op_code, s, pos)
    }

    fn decode(&self, op_code: u8, bytes: &[u8], pos: usize) -> (r: Decoded<Instruction>) {
        let width = decode_width(op_code, 1);
        if pos >= bytes.len() {
            return Err(DecodeError::Truncated);
        }
        let next = bytes[pos];
        let mode = decode_mode(next / 64);
        match decode_reg_or_mem(next % 8, mode, width, bytes, pos + 1) {
            Ok((reg_or_mem, q)) => match decode_immediate(bytes, q, width) {
                Ok((data, q2)) => Ok((Instruction::ImmediateMovRegMem { width, reg_or_mem, data }, q2)),
                Err(e) => Err(e),
            },
            Err(e) => Err(e),
        }
    }
}

/// `1011 wreg`: MOV of an immediate to the register in the low three bits.
#[derive(Debug, Clone, Copy)]
pub struct ImmediateMovToRegDecoder {}

pub open spec fn spec_immediate_mov_to_reg(op_code: u8, s: Seq<u8>, pos: usize) -> Decoded<Instruction> {
    let width = width_of(op_code, 8);
    build(
        spec_immediate(s, pos, width),
        |data: i16| Instruction::ImmediateMovReg { reg: register_of(op_code % 8, width), data },
    )
}

impl OpCodeDecoder for ImmediateMovToRegDecoder {
    open spec fn decodes(&self, op_code: u8, s: Seq<u8>, pos: usize) -> Decoded<Instruction> {
        spec_immediate_mov_to_reg(op_code, s, pos)
    }

    fn decode(&self, op_code: u8, bytes: &[u8], pos: usize) -> (r: Decoded<Instruction>) {
        let width = decode_width(op_code, 8);
        let reg = decode_reg(op_code % 8, width);
        match decode_immediate(bytes, pos, width) {
            Ok((data, q)) => Ok((Instruction::ImmediateMovReg { reg, data }, q)),
            Err(e) => Err(e),
        }
    }
}

/// `1010 00dw`: MOV between the accumulator and a direct address. Here the
/// `d` bit clear loads the accumulator and set stores it.
#[derive(Debug, Clone, Copy)]
pub struct MovAccumulatorDecoder {}

pub open spec fn spec_mov_accumulator(op_code: u8, s: Seq<u8>, pos: usize) -> Decoded<Instruction> {
    let dir = if has_bit(op_code, 2) {
        Direction::FromRegister
    } else {
        Direction::ToRegister
    };
    build(spec_i16(s, pos), |addr: i16| Instruction::AccumulatorMove { dir, addr })
}

impl OpCodeDecoder for MovAccumulatorDecoder {
    open spec fn decodes(&self, op_code: u8, s: Seq<u8>, pos: usize) -> Decoded<Instruction> {
        spec_mov_accumulator(op_code, s, pos)
    }

    fn decode(&self, op_code: u8, bytes: &[u8], pos: usize) -> (r: Decoded<Instruction>) {
        let dir = match decode_dir(op_code, 2) {
            Direction::ToRegister => Direction::FromRegister,
            Direction::FromRegister => Direction::ToRegister,
        };
        match decode_address(bytes, pos) {
            Ok((addr, q)) => Ok((Instruction::AccumulatorMove { dir, addr }, q)),
            Err(e) => Err(e),
        }
    }
}

/// `1000 11d0`: MOV between a segment register and a register or memory.
#[derive(Debug, Clone, Copy)]
pub struct MovSegmentDecoder {}

pub open spec fn spec_mov_segment(op_code: u8, s: Seq<u8>, pos: usize) -> Decoded<Instruction> {
    if pos < s.len() {
        let m = s[pos as int];
        build(
            spec_reg_or_mem(m % 8, m / 64, OpWidth::Word, s, (pos + 1) as usize),
            |rm: RegOrMem|
                Instruction::SegmentRegisterMove {
                    dir: direction_of(op_code, 2),
                    seg_reg: segment_of((m / 8) % 4),
                    reg_or_mem: rm,
                },
        )
    } else {
        Err(DecodeError::Truncated)
    }
}

impl OpCodeDecoder for MovSegmentDecoder {
    open spec fn decodes(&self, op_code: u8, s: Seq<u8>, pos: usize) -> Decoded<Instruction> {
        spec_mov_segment(op_code, s, pos)
    }

    fn decode(&self, op_code: u8, bytes: &[u8], pos: usize) -> (r: Decoded<Instruction>) {
        if pos >= bytes.len() {
            return Err(DecodeError::Truncated);
        }
        let next = bytes[pos];
        let mode = decode_mode(next / 64);
        let dir = decode_dir(op_code, 2);
        let seg_reg = decode_seg_reg((next / 8) % 4);
        match decode_reg_or_mem(next % 8, mode, OpWidth::Word, bytes, pos + 1) {
            Ok((reg_or_mem, q)) => Ok((Instruction::SegmentRegisterMove { dir, seg_reg, reg_or_mem }, q)),
            Err(e) => Err(e),
        }
    }
}


/// Which jump or loop instruction a `JumpDecoder` builds.
#[derive(Debug, Clone, Copy, PartialEq, Eq, Structural)]
pub enum JumpOp {
    JumpOnEqual,
    JumpOnLess,
    JumpOnNotGreater,
    JumpOnBelow,
    JumpOnNotAbove,
    JumpOnParity,
    JumpOnOverflow,
    JumpOnSign,
    JumpOnNotEqual,
    JumpOnNotLess,
    JumpOnGreater,
    JumpOnNotBelow,
    JumpOnAbove,
    JumpOnNoParity,
    JumpOnNoOverflow,
    JumpOnNotSign,
    Loop,
    LoopWhileEqual,
    LoopWhileNotEqual,
    JumpOnCxZero,
}

/// The instruction of a jump kind with its displacement.
pub open spec fn jump_instruction(op: JumpOp, disp: i8) -> Instruction {
    match op {
        JumpOp::JumpOnEqual => Instruction::JumpOnEqual(disp),
        JumpOp::JumpOnLess => Instruction::JumpOnLess(disp),
        JumpOp::JumpOnNotGreater => Instruction::JumpOnNotGreater(disp),
        JumpOp::JumpOnBelow => Instruction::JumpOnBelow(disp),
        JumpOp::JumpOnNotAbove => Instruction::JumpOnNotAbove(disp),
        JumpOp::JumpOnParity => Instruction::JumpOnParity(disp),
        JumpOp::JumpOnOverflow => Instruction::JumpOnOverflow(disp),
        JumpOp::JumpOnSign => Instruction::JumpOnSign(disp),
        JumpOp::JumpOnNotEqual => Instruction::JumpOnNotEqual(disp),
        JumpOp::JumpOnNotLess => Instruction::JumpOnNotLess(disp),
        JumpOp::JumpOnGreater => Instruction::JumpOnGreater(disp),
        JumpOp::JumpOnNotBelow => Instruction::JumpOnNotBelow(disp),
        JumpOp::JumpOnAbove => Instruction::JumpOnAbove(disp),
        JumpOp::JumpOnNoParity => Instruction::JumpOnNoParity(disp),
        JumpOp::JumpOnNoOverflow => Instruction::JumpOnNoOverflow(disp),
        JumpOp::JumpOnNotSign => Instruction::JumpOnNotSign(disp),
        JumpOp::Loop => Instruction::Loop(disp),
        JumpOp::LoopWhileEqual => Instruction::LoopWhileEqual(disp),
        JumpOp::LoopWhileNotEqual => Instruction::LoopWhileNotEqual(disp),
        JumpOp::JumpOnCxZero => Instruction::JumpOnCxZero(disp),
    }
}

impl JumpOp {
    pub fn with_displacement(self, disp: i8) -> (r: Instruction)
        ensures
            r == jump_instruction(self, disp),
    {
        match self {
            JumpOp::JumpOnEqual => Instruction::JumpOnEqual(disp),
            JumpOp::JumpOnLess => Instruction::JumpOnLess(disp),
            JumpOp::JumpOnNotGreater => Instruction::JumpOnNotGreater(disp),
            JumpOp::JumpOnBelow => Instruction::JumpOnBelow(disp),
            JumpOp::JumpOnNotAbove => Instruction::JumpOnNotAbove(disp),
            JumpOp::JumpOnParity => Instruction::JumpOnParity(disp),
            JumpOp::JumpOnOverflow => Instruction::JumpOnOverflow(disp),
            JumpOp::JumpOnSign => Instruction::JumpOnSign(disp),
            JumpOp::JumpOnNotEqual => Instruction::JumpOnNotEqual(disp),
            JumpOp::JumpOnNotLess => Instruction::JumpOnNotLess(disp),
            JumpOp::JumpOnGreater => Instruction::JumpOnGreater(disp),
            JumpOp::JumpOnNotBelow => Instruction::JumpOnNotBelow(disp),
            JumpOp::JumpOnAbove => Instruction::JumpOnAbove(disp),
            JumpOp::JumpOnNoParity => Instruction::JumpOnNoParity(disp),
            JumpOp::JumpOnNoOverflow => Instruction::JumpOnNoOverflow(disp),
            JumpOp::JumpOnNotSign => Instruction::JumpOnNotSign(disp),
            JumpOp::Loop => Instruction::Loop(disp),
            JumpOp::LoopWhileEqual => Instruction::LoopWhileEqual(disp),
            JumpOp::LoopWhileNotEqual => Instruction::LoopWhileNotEqual(disp),
            JumpOp::JumpOnCxZero => Instruction::JumpOnCxZero(disp),
        }
    }
}


/// The fixed-byte jumps and loops: one signed displacement byte follows.
#[derive(Debug, Clone, Copy)]
pub struct JumpDecoder {
    pub jump_op: JumpOp,
}

impl JumpDecoder {
    pub fn new(op: JumpOp) -> (r: JumpDecoder)
        ensures
            r.jump_op == op,
    {
        JumpDecoder { jump_op: op }
    }
}

/// A byte read as a signed 8-bit value.
pub open spec fn as_signed_byte(b: u8) -> i8 {
    if b < 128 {
        b as i8
    } else {
        (b as int - 256) as i8
    }
}

pub open spec fn spec_jump(op: JumpOp, s: Seq<u8>, pos: usize) -> Decoded<Instruction> {
    if pos < s.len() {
        Ok((jump_instruction(op, as_signed_byte(s[pos as int])), (pos + 1) as usize))
    } else {
        Err(DecodeError::Truncated)
    }
}

impl OpCodeDecoder for JumpDecoder {
    open spec fn decodes(&self, op_code: u8, s: Seq<u8>, pos: usize) -> Decoded<Instruction> {
        spec_jump(self.jump_op, s, pos)
    }

    fn decode(&self, op_code: u8, bytes: &[u8], pos: usize) -> (r: Decoded<Instruction>) {
        if pos >= bytes.len() {
            return Err(DecodeError::Truncated);
        }
        let b = bytes[pos];
        let disp: i8 = if b < 128 {
            b as i8
        } else {
            (b as i16 - 256) as i8
        };
        Ok((self.jump_op.with_displacement(disp), pos + 1))
    }
}

/// `00oo o0dw`: arithmetic between a register and a register or memory.
#[derive(Debug, Clone, Copy)]
pub struct ArithmeticFromToRegMemDecoder {}

pub open spec fn spec_arithmetic_from_to_reg_mem(op_code: u8, s: Seq<u8>, pos: usize) -> Decoded<
    Instruction,
> {
    match arithmetic_op_of((op_code / 8) % 8) {
        None => Err(DecodeError::UnsupportedOperation((op_code / 8) % 8)),
        Some(op) => if pos < s.len() {
            let m = s[pos as int];
            let width = width_of(op_code, 1);
            build(
                spec_reg_or_mem(m % 8, m / 64, width, s, (pos + 1) as usize),
                |rm: RegOrMem|
                    Instruction::ArithmeticFromToRegMem {
                        op,
                        dir: direction_of(op_code, 2),
                        width,
                        reg: register_of((m / 8) % 8, width),
                        reg_or_mem: rm,
                    },
            )
        } else {
            Err(DecodeError::Truncated)
        },
    }
}

impl OpCodeDecoder for ArithmeticFromToRegMemDecoder {
    open spec fn decodes(&self, op_code: u8, s: Seq<u8>, pos: usize) -> Decoded<Instruction> {
        spec_arithmetic_from_to_reg_mem(op_code, s, pos)
    }

    fn decode(&self, op_code: u8, bytes: &[u8], pos: usize) -> (r: Decoded<Instruction>) {
        let dir = decode_dir(op_code, 2);
        let width = decode_width(op_code, 1);
        let op = match decode_arithmetic_op((op_code / 8) % 8) {
            Ok(op) => op,
            Err(e) => return Err(e),
        };
        if pos >= bytes.len() {
            return Err(DecodeError::Truncated);
        }
        let next = bytes[pos];
        let mode = decode_mode(next / 64);
        let reg = decode_reg((next / 8) % 8, width);
        match decode_reg_or_mem(next % 8, mode, width, bytes, pos + 1) {
            Ok((reg_or_mem, q)) => Ok(
                (Instruction::ArithmeticFromToRegMem { op, dir, width, reg, reg_or_mem }, q),
            ),
            Err(e) => Err(e),
        }
    }
}

/// `1000 00sw`: arithmetic with an immediate on a register or memory; the
/// operation is in the ModR/M byte. With `s` set the immediate is one byte,
/// sign-extended, whatever the width.
#[derive(Debug, Clone, Copy)]
pub struct ArithmeticImmediateToRegMemDecoder {}

pub open spec fn spec_arithmetic_immediate_to_reg_mem(op_code: u8, s: Seq<u8>, pos: usize) -> Decoded<
    Instruction,
> {
    if pos < s.len() {
        let m = s[pos as int];
        let width = width_of(op_code, 1);
        let data_width = if has_bit(op_code, 2) {
            OpWidth::Byte
        } else {
            width
        };
        match arithmetic_op_of((m / 8) % 8) {
            None => Err(DecodeError::UnsupportedOperation((m / 8) % 8)),
            Some(op) => match spec_reg_or_mem(m % 8, m / 64, width, s, (pos + 1) as usize) {
                Ok((reg_or_mem, q)) => build(
                    spec_immediate(s, q, data_width),
                    |data: i16| Instruction::ArithmeticImmediateToRegMem { op, width, data, reg_or_mem },
                ),
                Err(e) => Err(e),
            },
        }
    } else {
        Err(DecodeError::Truncated)
    }
}

impl OpCodeDecoder for ArithmeticImmediateToRegMemDecoder {
    open spec fn decodes(&self, op_code: u8, s: Seq<u8>, pos: usize) -> Decoded<Instruction> {
        spec_arithmetic_immediate_to_reg_mem(op_code, s, pos)
    }

    fn decode(&self, op_code: u8, bytes: &[u8], pos: usize) -> (r: Decoded<Instruction>) {
        let sign_extend = (op_code / 2) % 2 == 1;
        let width = decode_width(op_code, 1);
        if pos >= bytes.len() {
            return Err(DecodeError::Truncated);
        }
        let next = bytes[pos];
        let mode = decode_mode(next / 64);
        let op = match decode_arithmetic_op((next / 8) % 8) {
            Ok(op) => op,
            Err(e) => return Err(e),
        };
        match decode_reg_or_mem(next % 8, mode, width, bytes, pos + 1) {
            Ok((reg_or_mem, q)) => {
                let data = if !sign_extend {
                    decode_immediate(bytes, q, width)
                } else {
                    decode_immediate(bytes, q, OpWidth::Byte)
                };
                match data {
                    Ok((data, q2)) => Ok(
                        (Instruction::ArithmeticImmediateToRegMem { op, width, data, reg_or_mem }, q2),
                    ),
                    Err(e) => Err(e),
                }
            },
            Err(e) => Err(e),
        }
    }
}

/// `00oo o10w`: arithmetic with an immediate on AL or AX.
#[derive(Debug, Clone, Copy)]
pub struct ArithmeticImmediateToAccumulatorDecoder {}

pub open spec fn spec_arithmetic_immediate_to_accumulator(op_code: u8, s: Seq<u8>, pos: usize) -> Decoded<
    Instruction,
> {
    match arithmetic_op_of((op_code / 8) % 8) {
        None => Err(DecodeError::UnsupportedOperation((op_code / 8) % 8)),
        Some(op) => {
            let width = width_of(op_code, 1);
            build(
                spec_immediate(s, pos, width),
                |data: i16| Instruction::ArithmeticImmediateToAccumulator { op, width, data },
            )
        },
    }
}

impl OpCodeDecoder for ArithmeticImmediateToAccumulatorDecoder {
    open spec fn decodes(&self, op_code: u8, s: Seq<u8>, pos: usize) -> Decoded<Instruction> {
        spec_arithmetic_immediate_to_accumulator(op_code, s, pos)
    }

    fn decode(&self, op_code: u8, bytes: &[u8], pos: usize) -> (r: Decoded<Instruction>) {
        let op = match decode_arithmetic_op((op_code / 8) % 8) {
            Ok(op) => op,
            Err(e) => return Err(e),
        };
        let width = decode_width(op_code, 1);
        match decode_immediate(bytes, pos, width) {
            Ok((data, q)) => Ok((Instruction::ArithmeticImmediateToAccumulator { op, width, data }, q)),
            Err(e) => Err(e),
        }
    }
}

} // verus!
