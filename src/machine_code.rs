//! The machine code of an instruction, as a specification: decoding the
//! bytes of any encodable instruction gives that instruction back.
use vstd::prelude::*;
use crate::decode::{
    DecodeError, as_signed_byte, base_of, le_word, register_of, segment_of, sign_extend, spec_i16, spec_i8,
    spec_reg_or_mem,
};
use crate::decoder::{
    lemma_registered_arithmetic, lemma_registered_families, lemma_registered_jumps,
    lemma_registered_mov_forms, spec_decode_next,
};
use crate::ops::{
    ArithmeticOp, Direction, EffectiveAddress, EffectiveAddressBase, Instruction, OpWidth, RegOrMem,
    Register, RegisterAccess, SegmentRegister,
};

verus! {

/// The low byte of a signed value.
pub open spec fn low_byte(d: int) -> u8 {
    (d % 256) as u8
}

/// A signed word as two bytes, little-endian.
pub open spec fn word_bytes(d: int) -> Seq<u8> {
    seq![((d % 65536) % 256) as u8, ((d % 65536) / 256) as u8]
}

/// Whether a value fits an immediate of the given width (bytes are
/// sign-extended when decoded).
pub open spec fn fits(w: OpWidth, d: i16) -> bool {
    match w {
        OpWidth::Byte => -128 <= d <= 127,
        OpWidth::Word => true,
    }
}

pub open spec fn immediate_bytes(w: OpWidth, d: i16) -> Seq<u8> {
    match w {
        OpWidth::Byte => seq![low_byte(d as int)],
        OpWidth::Word => word_bytes(d as int),
    }
}

pub open spec fn width_bit(w: OpWidth) -> u8 {
    match w {
        OpWidth::Byte => 0,
        OpWidth::Word => 1,
    }
}

pub open spec fn direction_bit(d: Direction) -> u8 {
    match d {
        Direction::ToRegister => 1,
        Direction::FromRegister => 0,
    }
}

/// The 3-bit register field of a register access.
pub open spec fn register_field(ra: RegisterAccess) -> u8 {
    match ra.reg {
        Register::A => (4 * ra.offset) as u8,
        Register::C => (1 + 4 * ra.offset) as u8,
        Register::D => (2 + 4 * ra.offset) as u8,
        Register::B => (3 + 4 * ra.offset) as u8,
        Register::Sp => 4,
        Register::Bp => 5,
        Register::Si => 6,
        Register::Di => 7,
    }
}

pub open spec fn base_field(b: EffectiveAddressBase) -> u8 {
    match b {
        EffectiveAddressBase::BxPlusSi => 0,
        EffectiveAddressBase::BxPlusDi => 1,
        EffectiveAddressBase::BpPlusSi => 2,
        EffectiveAddressBase::BpPlusDi => 3,
        EffectiveAddressBase::Si => 4,
        EffectiveAddressBase::Di => 5,
        EffectiveAddressBase::Bp => 6,
        EffectiveAddressBase::Bx => 7,
        EffectiveAddressBase::Direct => 6,
    }
}

pub open spec fn segment_field(s: SegmentRegister) -> u8 {
    match s {
        SegmentRegister::Es => 0,
        SegmentRegister::Cs => 1,
        SegmentRegister::Ss => 2,
        SegmentRegister::Ds => 3,
    }
}

pub open spec fn op_field(op: ArithmeticOp) -> u8 {
    match op {
        ArithmeticOp::Add => 0,
        ArithmeticOp::Adc => 2,
        ArithmeticOp::Sbb => 3,
        ArithmeticOp::Sub => 5,
        ArithmeticOp::Cmp => 7,
    }
}

/// The mode of an r/m operand: register, no displacement, 8-bit or 16-bit
/// displacement. The shortest form is chosen; `[bp]` needs a displacement
/// byte because mode 0 with r/m 110 is the direct address.
pub open spec fn mode_of(rm: RegOrMem) -> u8 {
    match rm {
        RegOrMem::Reg(_) => 3,
        RegOrMem::Mem(ea) => if ea.base == EffectiveAddressBase::Direct {
            0
        } else if ea.displacement == 0 && ea.base != EffectiveAddressBase::Bp {
            0
        } else if -128 <= ea.displacement <= 127 {
            1
        } else {
            2
        },
    }
}

pub open spec fn rm_field(rm: RegOrMem) -> u8 {
    match rm {
        RegOrMem::Reg(ra) => register_field(ra),
        RegOrMem::Mem(ea) => base_field(ea.base),
    }
}

pub open spec fn displacement_bytes(rm: RegOrMem) -> Seq<u8> {
    match rm {
        RegOrMem::Reg(_) => Seq::empty(),
        RegOrMem::Mem(ea) => if mode_of(rm) == 0 && ea.base != EffectiveAddressBase::Direct {
            Seq::empty()
        } else if mode_of(rm) == 1 {
            seq![low_byte(ea.displacement as int)]
        } else {
            word_bytes(ea.displacement as int)
        },
    }
}

pub open spec fn modrm(mode: u8, reg: u8, rm: u8) -> u8 {
    (mode * 64 + reg * 8 + rm) as u8
}

/// The ModR/M byte with `reg` in the middle field, then the displacement.
pub open spec fn operand_bytes(reg: u8, rm: RegOrMem) -> Seq<u8> {
    seq![modrm(mode_of(rm), reg, rm_field(rm))] + displacement_bytes(rm)
}

/// A register access that the decoder produces.
pub open spec fn encodable_register(ra: RegisterAccess) -> bool {
    ra.wf()
}

/// An r/m operand that can stand in an instruction of width `w`.
pub open spec fn encodable_operand(rm: RegOrMem, w: OpWidth) -> bool {
    match rm {
        RegOrMem::Reg(ra) => ra.wf() && ra.width == w,
        RegOrMem::Mem(_) => true,
    }
}

proof fn lemma_register_field(ra: RegisterAccess)
    requires
        ra.wf(),
    ensures
        register_field(ra) < 8,
        register_of(register_field(ra), ra.width) == ra,
{
}

proof fn lemma_modrm_fields(mode: u8, reg: u8, rm: u8)
    requires
        mode < 4,
        reg < 8,
        rm < 8,
    ensures
        modrm(mode, reg, rm) / 64 == mode,
        (modrm(mode, reg, rm) / 8) % 8 == reg,
        (modrm(mode, reg, rm) / 8) % 4 == reg % 4,
        modrm(mode, reg, rm) % 8 == rm,
{
    let m = mode * 64 + reg * 8 + rm;
    assert(m < 256);
    assert(m / 64 == mode);
    assert(m / 8 == mode * 8 + reg);
    assert((mode * 8 + reg) % 8 == reg);
    assert((mode * 8 + reg) % 4 == reg % 4);
}

proof fn lemma_byte_round_trip(d: int)
    requires
        -128 <= d <= 127,
    ensures
        sign_extend(low_byte(d)) == d,
        as_signed_byte(low_byte(d)) == d,
{
}

proof fn lemma_word_round_trip(d: i16)
    ensures
        le_word(word_bytes(d as int)[0], word_bytes(d as int)[1]) == d,
{
}

/// An r/m operand's bytes, wherever they stand, decode to that operand and
/// are consumed exactly.
proof fn lemma_operand_round_trip(reg: u8, rm: RegOrMem, w: OpWidth, pre: Seq<u8>, rest: Seq<u8>)
    requires
        reg < 8,
        encodable_operand(rm, w),
        pre.len() + operand_bytes(reg, rm).len() + rest.len() <= usize::MAX,
    ensures
        ({
            let s = pre + operand_bytes(reg, rm) + rest;
            let p = pre.len();
            let m = s[p as int];
            &&& m == modrm(mode_of(rm), reg, rm_field(rm))
            &&& m / 64 == mode_of(rm)
            &&& (m / 8) % 8 == reg
            &&& (m / 8) % 4 == reg % 4
            &&& m % 8 == rm_field(rm)
            &&& spec_reg_or_mem(m % 8, m / 64, w, s, (p + 1) as usize) == Ok::<
                (RegOrMem, usize),
                crate::decode::DecodeError,
            >((rm, (p + operand_bytes(reg, rm).len()) as usize))
        }),
{
    let s = pre + operand_bytes(reg, rm) + rest;
    let p = pre.len();
    let mode = mode_of(rm);
    let f = rm_field(rm);
    match rm {
        RegOrMem::Reg(ra) => {
            lemma_register_field(ra);
        },
        RegOrMem::Mem(ea) => {
            if mode == 1 {
                lemma_byte_round_trip(ea.displacement as int);
            }
            lemma_word_round_trip(ea.displacement);
        },
    }
    lemma_modrm_fields(mode, reg, f);
    assert(s[p as int] == modrm(mode, reg, f));
    let d = displacement_bytes(rm);
    assert forall|k: int| 0 <= k < d.len() implies s[p + 1 + k] == d[k] by {
        assert(s[p + 1 + k] == operand_bytes(reg, rm)[1 + k]);
    }
}

/// The machine code of an instruction. Where the 8086 offers a choice the
/// shortest r/m form is taken, and immediates to r/m are never
/// sign-extended.
pub open spec fn encode_bytes(i: Instruction) -> Seq<u8> {
    match i {
        Instruction::MovToFromRegMem { dir, reg, reg_or_mem } => seq![
            (0x88 + 2 * direction_bit(dir) + width_bit(reg.width)) as u8,
        ] + operand_bytes(register_field(reg), reg_or_mem),
        Instruction::ImmediateMovRegMem { width, reg_or_mem, data } => seq![
            (0xC6 + width_bit(width)) as u8,
        ] + operand_bytes(0, reg_or_mem) + immediate_bytes(width, data),
        Instruction::ImmediateMovReg { reg, data } => seq![
            (0xB0 + 8 * width_bit(reg.width) + register_field(reg)) as u8,
        ] + immediate_bytes(reg.width, data),
        Instruction::AccumulatorMove { dir, addr } => seq![
            if dir == Direction::FromRegister {
                0xA3u8
            } else {
                0xA1u8
            },
        ] + word_bytes(addr as int),
        Instruction::SegmentRegisterMove { dir, seg_reg, reg_or_mem } => seq![
            (0x8C + 2 * direction_bit(dir)) as u8,
        ] + operand_bytes(segment_field(seg_reg), reg_or_mem),
        Instruction::ArithmeticFromToRegMem { op, dir, width, reg, reg_or_mem } => seq![
            (8 * op_field(op) + 2 * direction_bit(dir) + width_bit(width)) as u8,
        ] + operand_bytes(register_field(reg), reg_or_mem),
        Instruction::ArithmeticImmediateToRegMem { op, width, data, reg_or_mem } => seq![
            (0x80 + width_bit(width)) as u8,
        ] + operand_bytes(op_field(op), reg_or_mem) + immediate_bytes(width, data),
        Instruction::ArithmeticImmediateToAccumulator { op, width, data } => seq![
            (8 * op_field(op) + 4 + width_bit(width)) as u8,
        ] + immediate_bytes(width, data),
        Instruction::JumpOnEqual(d) => seq![0x74, low_byte(d as int)],
        Instruction::JumpOnLess(d) => seq![0x7c, low_byte(d as int)],
        Instruction::JumpOnNotGreater(d) => seq![0x7e, low_byte(d as int)],
        Instruction::JumpOnBelow(d) => seq![0x72, low_byte(d as int)],
        Instruction::JumpOnNotAbove(d) => seq![0x76, low_byte(d as int)],
        Instruction::JumpOnParity(d) => seq![0x7a, low_byte(d as int)],
        Instruction::JumpOnOverflow(d) => seq![0x70, low_byte(d as int)],
        Instruction::JumpOnSign(d) => seq![0x78, low_byte(d as int)],
        Instruction::JumpOnNotEqual(d) => seq![0x75, low_byte(d as int)],
        Instruction::JumpOnNotLess(d) => seq![0x7d, low_byte(d as int)],
        Instruction::JumpOnGreater(d) => seq![0x7f, low_byte(d as int)],
        Instruction::JumpOnNotBelow(d) => seq![0x73, low_byte(d as int)],
        Instruction::JumpOnAbove(d) => seq![0x77, low_byte(d as int)],
        Instruction::JumpOnNoParity(d) => seq![0x7b, low_byte(d as int)],
        Instruction::JumpOnNoOverflow(d) => seq![0x71, low_byte(d as int)],
        Instruction::JumpOnNotSign(d) => seq![0x79, low_byte(d as int)],
        Instruction::Loop(d) => seq![0xe2, low_byte(d as int)],
        Instruction::LoopWhileEqual(d) => seq![0xe1, low_byte(d as int)],
        Instruction::LoopWhileNotEqual(d) => seq![0xe0, low_byte(d as int)],
        Instruction::JumpOnCxZero(d) => seq![0xe3, low_byte(d as int)],
    }
}

/// An instruction that the decoder can produce: register accesses as the
/// decoder builds them, r/m registers of the instruction's width, and byte
/// immediates within a signed byte.
pub open spec fn encodable(i: Instruction) -> bool {
    match i {
        Instruction::MovToFromRegMem { dir, reg, reg_or_mem } => reg.wf() && encodable_operand(
            reg_or_mem,
            reg.width,
        ),
        Instruction::ImmediateMovRegMem { width, reg_or_mem, data } => encodable_operand(
            reg_or_mem,
            width,
        ) && fits(width, data),
        Instruction::ImmediateMovReg { reg, data } => reg.wf() && fits(reg.width, data),
        Instruction::SegmentRegisterMove { dir, seg_reg, reg_or_mem } => encodable_operand(
            reg_or_mem,
            OpWidth::Word,
        ),
        Instruction::ArithmeticFromToRegMem { op, dir, width, reg, reg_or_mem } => reg.wf()
            && reg.width == width && encodable_operand(reg_or_mem, width),
        Instruction::ArithmeticImmediateToRegMem { op, width, data, reg_or_mem } => encodable_operand(
            reg_or_mem,
            width,
        ) && fits(width, data),
        Instruction::ArithmeticImmediateToAccumulator { op, width, data } => fits(width, data),
        _ => true,
    }
}

proof fn lemma_immediate_round_trip(w: OpWidth, d: i16, s: Seq<u8>, p: usize)
    requires
        fits(w, d),
        p + immediate_bytes(w, d).len() <= s.len(),
        s.len() <= usize::MAX,
        s.subrange(p as int, p + immediate_bytes(w, d).len()) == immediate_bytes(w, d),
    ensures
        crate::decode::spec_immediate(s, p, w) == Ok::<(i16, usize), crate::decode::DecodeError>(
            (d, (p + immediate_bytes(w, d).len()) as usize),
        ),
{
    assert(s[p as int] == s.subrange(p as int, p + immediate_bytes(w, d).len())[0]);
    match w {
        OpWidth::Byte => {
            lemma_byte_round_trip(d as int);
        },
        OpWidth::Word => {
            assert(s[p + 1] == s.subrange(p as int, p + immediate_bytes(w, d).len())[1]);
            lemma_word_round_trip(d);
        },
    }
}

proof fn lemma_op_field(op: ArithmeticOp)
    ensures
        op_field(op) < 8,
        crate::decode::arithmetic_op_of(op_field(op)) == Some(op),
{
}

proof fn lemma_round_trip_mov(dir: Direction, reg: RegisterAccess, rm: RegOrMem, rest: Seq<u8>)
    requires
        rest.len() + 8 <= usize::MAX,
        encodable(Instruction::MovToFromRegMem { dir, reg, reg_or_mem: rm }),
    ensures
        ({
            let i = Instruction::MovToFromRegMem { dir, reg, reg_or_mem: rm };
            spec_decode_next(encode_bytes(i) + rest, 0) == Ok::<
                Option<(Instruction, usize)>,
                DecodeError,
            >(Some((i, encode_bytes(i).len() as usize)))
        }),
{
    let i = Instruction::MovToFromRegMem { dir, reg, reg_or_mem: rm };
    let s = encode_bytes(i) + rest;
    let op = (0x88 + 2 * direction_bit(dir) + width_bit(reg.width)) as u8;
    lemma_registered_families(op);
    lemma_register_field(reg);
    lemma_operand_round_trip(register_field(reg), rm, reg.width, seq![op], rest);
    assert(s =~= seq![op] + operand_bytes(register_field(reg), rm) + rest);
}

proof fn lemma_round_trip_immediate_mov_reg_mem(width: OpWidth, rm: RegOrMem, data: i16, rest: Seq<u8>)
    requires
        rest.len() + 8 <= usize::MAX,
        encodable(Instruction::ImmediateMovRegMem { width, reg_or_mem: rm, data }),
    ensures
        ({
            let i = Instruction::ImmediateMovRegMem { width, reg_or_mem: rm, data };
            spec_decode_next(encode_bytes(i) + rest, 0) == Ok::<
                Option<(Instruction, usize)>,
                DecodeError,
            >(Some((i, encode_bytes(i).len() as usize)))
        }),
{
    let i = Instruction::ImmediateMovRegMem { width, reg_or_mem: rm, data };
    let s = encode_bytes(i) + rest;
    let op = (0xC6 + width_bit(width)) as u8;
    let imm = immediate_bytes(width, data);
    lemma_registered_families(op);
    lemma_operand_round_trip(0, rm, width, seq![op], imm + rest);
    assert(s =~= seq![op] + operand_bytes(0, rm) + (imm + rest));
    let q = 1 + operand_bytes(0, rm).len();
    assert(s.subrange(q as int, (q + imm.len()) as int) =~= imm);
    lemma_immediate_round_trip(width, data, s, q as usize);
}

proof fn lemma_round_trip_immediate_mov_reg(reg: RegisterAccess, data: i16, rest: Seq<u8>)
    requires
        rest.len() + 8 <= usize::MAX,
        encodable(Instruction::ImmediateMovReg { reg, data }),
    ensures
        ({
            let i = Instruction::ImmediateMovReg { reg, data };
            spec_decode_next(encode_bytes(i) + rest, 0) == Ok::<
                Option<(Instruction, usize)>,
                DecodeError,
            >(Some((i, encode_bytes(i).len() as usize)))
        }),
{
    let i = Instruction::ImmediateMovReg { reg, data };
    let s = encode_bytes(i) + rest;
    let op = (0xB0 + 8 * width_bit(reg.width) + register_field(reg)) as u8;
    lemma_register_field(reg);
    lemma_registered_mov_forms(op);
    assert(op % 8 == register_field(reg));
    let imm = immediate_bytes(reg.width, data);
    assert(s =~= seq![op] + imm + rest);
    assert(s.subrange(1, (1 + imm.len()) as int) =~= imm);
    lemma_immediate_round_trip(reg.width, data, s, 1);
}

proof fn lemma_round_trip_accumulator(dir: Direction, addr: i16, rest: Seq<u8>)
    requires
        rest.len() + 8 <= usize::MAX,
    ensures
        ({
            let i = Instruction::AccumulatorMove { dir, addr };
            spec_decode_next(encode_bytes(i) + rest, 0) == Ok::<
                Option<(Instruction, usize)>,
                DecodeError,
            >(Some((i, encode_bytes(i).len() as usize)))
        }),
{
    let i = Instruction::AccumulatorMove { dir, addr };
    let s = encode_bytes(i) + rest;
    let e = encode_bytes(i);
    assert(s[0] == e[0] && s[1] == e[1] && s[2] == e[2]);
    lemma_registered_families(s[0]);
    lemma_word_round_trip(addr);
}

#[verifier::rlimit(60)]
proof fn lemma_round_trip_segment(dir: Direction, seg_reg: SegmentRegister, rm: RegOrMem, rest: Seq<u8>)
    requires
        rest.len() + 8 <= usize::MAX,
        encodable(Instruction::SegmentRegisterMove { dir, seg_reg, reg_or_mem: rm }),
    ensures
        ({
            let i = Instruction::SegmentRegisterMove { dir, seg_reg, reg_or_mem: rm };
            spec_decode_next(encode_bytes(i) + rest, 0) == Ok::<
                Option<(Instruction, usize)>,
                DecodeError,
            >(Some((i, encode_bytes(i).len() as usize)))
        }),
{
    let i = Instruction::SegmentRegisterMove { dir, seg_reg, reg_or_mem: rm };
    let s = encode_bytes(i) + rest;
    let op = (0x8C + 2 * direction_bit(dir)) as u8;
    let f = segment_field(seg_reg);
    assert(segment_of(f % 4) == seg_reg);
    assert(crate::decode::direction_of(op, 2) == dir);
    lemma_registered_mov_forms(op);
    lemma_operand_round_trip(f, rm, OpWidth::Word, seq![op], rest);
    assert(s =~= seq![op] + operand_bytes(f, rm) + rest);
    assert(s[0] == op);
    let m = s[1];
    assert((m / 8) % 4 == f % 4);
    assert(crate::decoder::registered(op) == Some(
        crate::lookup::DecoderKind::MovSegment(crate::decode::MovSegmentDecoder {}),
    ));
}

#[verifier::rlimit(60)]
proof fn lemma_round_trip_arithmetic(
    op: ArithmeticOp,
    dir: Direction,
    width: OpWidth,
    reg: RegisterAccess,
    rm: RegOrMem,
    rest: Seq<u8>,
)
    requires
        rest.len() + 8 <= usize::MAX,
        encodable(Instruction::ArithmeticFromToRegMem { op, dir, width, reg, reg_or_mem: rm }),
    ensures
        ({
            let i = Instruction::ArithmeticFromToRegMem { op, dir, width, reg, reg_or_mem: rm };
            spec_decode_next(encode_bytes(i) + rest, 0) == Ok::<
                Option<(Instruction, usize)>,
                DecodeError,
            >(Some((i, encode_bytes(i).len() as usize)))
        }),
{
    let i = Instruction::ArithmeticFromToRegMem { op, dir, width, reg, reg_or_mem: rm };
    let s = encode_bytes(i) + rest;
    let code = (8 * op_field(op) + 2 * direction_bit(dir) + width_bit(width)) as u8;
    lemma_op_field(op);
    lemma_registered_arithmetic(code);
    assert((code / 8) % 8 == op_field(op));
    lemma_register_field(reg);
    lemma_operand_round_trip(register_field(reg), rm, width, seq![code], rest);
    assert(s =~= seq![code] + operand_bytes(register_field(reg), rm) + rest);
    assert(s[0] == code);
}

#[verifier::rlimit(60)]
proof fn lemma_round_trip_arithmetic_immediate(
    op: ArithmeticOp,
    width: OpWidth,
    data: i16,
    rm: RegOrMem,
    rest: Seq<u8>,
)
    requires
        rest.len() + 8 <= usize::MAX,
        encodable(Instruction::ArithmeticImmediateToRegMem { op, width, data, reg_or_mem: rm }),
    ensures
        ({
            let i = Instruction::ArithmeticImmediateToRegMem { op, width, data, reg_or_mem: rm };
            spec_decode_next(encode_bytes(i) + rest, 0) == Ok::<
                Option<(Instruction, usize)>,
                DecodeError,
            >(Some((i, encode_bytes(i).len() as usize)))
        }),
{
    let i = Instruction::ArithmeticImmediateToRegMem { op, width, data, reg_or_mem: rm };
    let s = encode_bytes(i) + rest;
    let code = (0x80 + width_bit(width)) as u8;
    let imm = immediate_bytes(width, data);
    lemma_op_field(op);
    lemma_registered_families(code);
    lemma_operand_round_trip(op_field(op), rm, width, seq![code], imm + rest);
    assert(s =~= seq![code] + operand_bytes(op_field(op), rm) + (imm + rest));
    assert(s[0] == code);
    let q = 1 + operand_bytes(op_field(op), rm).len();
    assert(s.subrange(q as int, (q + imm.len()) as int) =~= imm);
    lemma_immediate_round_trip(width, data, s, q as usize);
}

proof fn lemma_round_trip_accumulator_arithmetic(op: ArithmeticOp, width: OpWidth, data: i16, rest: Seq<u8>)
    requires
        rest.len() + 8 <= usize::MAX,
        encodable(Instruction::ArithmeticImmediateToAccumulator { op, width, data }),
    ensures
        ({
            let i = Instruction::ArithmeticImmediateToAccumulator { op, width, data };
            spec_decode_next(encode_bytes(i) + rest, 0) == Ok::<
                Option<(Instruction, usize)>,
                DecodeError,
            >(Some((i, encode_bytes(i).len() as usize)))
        }),
{
    let i = Instruction::ArithmeticImmediateToAccumulator { op, width, data };
    let s = encode_bytes(i) + rest;
    let code = (8 * op_field(op) + 4 + width_bit(width)) as u8;
    lemma_op_field(op);
    lemma_registered_arithmetic(code);
    assert((code / 8) % 8 == op_field(op));
    let imm = immediate_bytes(width, data);
    assert(s =~= seq![code] + imm + rest);
    assert(s.subrange(1, (1 + imm.len()) as int) =~= imm);
    lemma_immediate_round_trip(width, data, s, 1);
}

proof fn lemma_round_trip_jump(i: Instruction, rest: Seq<u8>)
    requires
        rest.len() + 8 <= usize::MAX,
        crate::ops::jump_displacement(i) is Some,
    ensures
        spec_decode_next(encode_bytes(i) + rest, 0) == Ok::<Option<(Instruction, usize)>, DecodeError>(
            Some((i, encode_bytes(i).len() as usize)),
        ),
{
    let s = encode_bytes(i) + rest;
    let d = crate::ops::jump_displacement(i)->Some_0;
    let e = encode_bytes(i);
    assert(s[0] == e[0] && s[1] == e[1]);
    lemma_registered_jumps(s[0]);
    lemma_byte_round_trip(d as int);
}

/// Decoding the machine code of any instruction that the decoder can
/// produce, followed by any bytes, gives back that instruction and stops
/// exactly where the following bytes begin.
pub proof fn lemma_decode_encoded(i: Instruction, rest: Seq<u8>)
    requires
        rest.len() + 8 <= usize::MAX,
        encodable(i),
    ensures
        spec_decode_next(encode_bytes(i) + rest, 0) == Ok::<Option<(Instruction, usize)>, DecodeError>(
            Some((i, encode_bytes(i).len() as usize)),
        ),
{
    match i {
        Instruction::MovToFromRegMem { dir, reg, reg_or_mem } => lemma_round_trip_mov(
            dir,
            reg,
            reg_or_mem,
            rest,
        ),
        Instruction::ImmediateMovRegMem { width, reg_or_mem, data } => lemma_round_trip_immediate_mov_reg_mem(
            width,
            reg_or_mem,
            data,
            rest,
        ),
        Instruction::ImmediateMovReg { reg, data } => lemma_round_trip_immediate_mov_reg(reg, data, rest),
        Instruction::AccumulatorMove { dir, addr } => lemma_round_trip_accumulator(dir, addr, rest),
        Instruction::SegmentRegisterMove { dir, seg_reg, reg_or_mem } => lemma_round_trip_segment(
            dir,
            seg_reg,
            reg_or_mem,
            rest,
        ),
        Instruction::ArithmeticFromToRegMem { op, dir, width, reg, reg_or_mem } => lemma_round_trip_arithmetic(
            op,
            dir,
            width,
            reg,
            reg_or_mem,
            rest,
        ),
        Instruction::ArithmeticImmediateToRegMem { op, width, data, reg_or_mem } => lemma_round_trip_arithmetic_immediate(
            op,
            width,
            data,
            reg_or_mem,
            rest,
        ),
        Instruction::ArithmeticImmediateToAccumulator { op, width, data } => lemma_round_trip_accumulator_arithmetic(
            op,
            width,
            data,
            rest,
        ),
        _ => lemma_round_trip_jump(i, rest),
    }
}

} // verus!
