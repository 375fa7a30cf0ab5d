//! Operands and the instruction IR, with their assembler text.
use vstd::prelude::*;
use vstd::string::*;
use crate::text::{int_text, push_int, push_str};

verus! {

/// A general-purpose register, in ModR/M encoding order.
#[derive(Debug, Clone, Copy, PartialEq, Eq, Structural)]
pub enum Register {
    A,
    C,
    D,
    B,
    Sp,
    Bp,
    Si,
    Di,
}

/// A segment register, in ModR/M encoding order.
#[derive(Debug, Clone, Copy, PartialEq, Eq, Structural)]
pub enum SegmentRegister {
    Es,
    Cs,
    Ss,
    Ds,
}

/// Width of a data transfer.
#[derive(Debug, Clone, Copy, PartialEq, Eq, Structural)]
pub enum OpWidth {
    Byte,
    Word,
}

/// A register, the width accessed and, for a byte of A/B/C/D, which half
/// (0 low, 1 high).
#[derive(Debug, Clone, Copy, PartialEq, Eq, Structural)]
pub struct RegisterAccess {
    pub reg: Register,
    pub width: OpWidth,
    pub offset: u8,
}

impl RegisterAccess {
    /// A register access that the decoder may produce: pointer and index
    /// registers only as whole words, and word accesses at offset 0.
    pub open spec fn wf(self) -> bool {
        &&& self.offset <= 1
        &&& (self.width == OpWidth::Word ==> self.offset == 0)
        &&& (match self.reg {
            Register::Sp | Register::Bp | Register::Si | Register::Di => self.width
                == OpWidth::Word,
            _ => true,
        })
    }

    pub fn new(reg: Register, width: OpWidth, offset: u8) -> (r: RegisterAccess)
        ensures
            r == (RegisterAccess { reg, width, offset }),
    {
        RegisterAccess { reg, width, offset }
    }

    /// Appends the register's name (`al`, `ah`, `ax`, `sp`, ...).
    pub fn encode(&self, s: &mut String)
        ensures
            final(s)@ == old(s)@ + register_text(*self),
    {
        match self.reg {
            Register::Sp => push_str(s, "sp"),
            Register::Bp => push_str(s, "bp"),
            Register::Si => push_str(s, "si"),
            Register::Di => push_str(s, "di"),
            _ => {
                match self.reg {
                    Register::A => push_str(s, "a"),
                    Register::C => push_str(s, "c"),
                    Register::D => push_str(s, "d"),
                    _ => push_str(s, "b"),
                }
                match self.width {
                    OpWidth::Word => push_str(s, "x"),
                    OpWidth::Byte => if self.offset == 0 {
                        push_str(s, "l")
                    } else {
                        push_str(s, "h")
                    },
                }
                proof {
                    assert(final(s)@ =~= old(s)@ + register_text(*self));
                }
            },
        }
    }
}

/// The base registers of an effective address; `Direct` has none.
#[derive(Debug, Clone, Copy, PartialEq, Eq, Structural)]
pub enum EffectiveAddressBase {
    Direct,
    BxPlusSi,
    BxPlusDi,
    BpPlusSi,
    BpPlusDi,
    Si,
    Di,
    Bp,
    Bx,
}

/// A memory operand: base registers plus a signed displacement. For
/// `Direct` the displacement is the absolute offset.
#[derive(Debug, Clone, Copy, PartialEq, Eq, Structural)]
pub struct EffectiveAddress {
    pub base: EffectiveAddressBase,
    pub displacement: i16,
}

/// A register or memory operand.
#[derive(Debug, Clone, Copy, PartialEq, Eq, Structural)]
pub enum RegOrMem {
    Reg(RegisterAccess),
    Mem(EffectiveAddress),
}

/// Which side of a (reg, r/m) pair is the destination.
#[derive(Debug, Clone, Copy, PartialEq, Eq, Structural)]
pub enum Direction {
    ToRegister,
    FromRegister,
}

/// The arithmetic operations.
#[derive(Debug, Clone, Copy, PartialEq, Eq, Structural)]
pub enum ArithmeticOp {
    Add,
    Adc,
    Sub,
    Sbb,
    Cmp,
}

/// A decoded instruction.
#[derive(Debug, Clone, Copy, PartialEq, Eq, Structural)]
pub enum Instruction {
    MovToFromRegMem { dir: Direction, reg: RegisterAccess, reg_or_mem: RegOrMem },
    ImmediateMovRegMem { width: OpWidth, reg_or_mem: RegOrMem, data: i16 },
    ImmediateMovReg { reg: RegisterAccess, data: i16 },
    AccumulatorMove { dir: Direction, addr: i16 },
    SegmentRegisterMove { dir: Direction, seg_reg: SegmentRegister, reg_or_mem: RegOrMem },
    ArithmeticFromToRegMem {
        op: ArithmeticOp,
        dir: Direction,
        width: OpWidth,
        reg: RegisterAccess,
        reg_or_mem: RegOrMem,
    },
    ArithmeticImmediateToRegMem { op: ArithmeticOp, width: OpWidth, data: i16, reg_or_mem: RegOrMem },
    ArithmeticImmediateToAccumulator { op: ArithmeticOp, width: OpWidth, data: i16 },
    JumpOnEqual(i8),
    JumpOnLess(i8),
    JumpOnNotGreater(i8),
    JumpOnBelow(i8),
    JumpOnNotAbove(i8),
    JumpOnParity(i8),
    JumpOnOverflow(i8),
    JumpOnSign(i8),
    JumpOnNotEqual(i8),
    JumpOnNotLess(i8),
    JumpOnGreater(i8),
    JumpOnNotBelow(i8),
    JumpOnAbove(i8),
    JumpOnNoParity(i8),
    JumpOnNoOverflow(i8),
    JumpOnNotSign(i8),
    Loop(i8),
    LoopWhileEqual(i8),
    LoopWhileNotEqual(i8),
    JumpOnCxZero(i8),
}

pub open spec fn register_text(ra: RegisterAccess) -> Seq<char> {
    match ra.reg {
        Register::Sp => "sp"@,
        Register::Bp => "bp"@,
        Register::Si => "si"@,
        Register::Di => "di"@,
        _ => {
            let letter = match ra.reg {
                Register::A => "a"@,
                Register::C => "c"@,
                Register::D => "d"@,
                _ => "b"@,
            };
            let suffix = match ra.width {
                OpWidth::Word => "x"@,
                OpWidth::Byte => if ra.offset == 0 {
                    "l"@
                } else {
                    "h"@
                },
            };
            letter + suffix
        },
    }
}

pub open spec fn segment_text(s: SegmentRegister) -> Seq<char> {
    match s {
        SegmentRegister::Es => "es"@,
        SegmentRegister::Cs => "cs"@,
        SegmentRegister::Ss => "ss"@,
        SegmentRegister::Ds => "ds"@,
    }
}

pub open spec fn base_text(b: EffectiveAddressBase) -> Seq<char> {
    match b {
        EffectiveAddressBase::Direct => Seq::empty(),
        EffectiveAddressBase::BxPlusSi => "bx + si"@,
        EffectiveAddressBase::BxPlusDi => "bx + di"@,
        EffectiveAddressBase::BpPlusSi => "bp + si"@,
        EffectiveAddressBase::BpPlusDi => "bp + di"@,
        EffectiveAddressBase::Si => "si"@,
        EffectiveAddressBase::Di => "di"@,
        EffectiveAddressBase::Bp => "bp"@,
        EffectiveAddressBase::Bx => "bx"@,
    }
}

/// `[disp]` for a direct address, else `[base]`, `[base + n]` or `[base - n]`.
pub open spec fn address_text(ea: EffectiveAddress) -> Seq<char> {
    let d = ea.displacement as int;
    if ea.base == EffectiveAddressBase::Direct {
        "["@ + int_text(d) + "]"@
    } else if d == 0 {
        "["@ + base_text(ea.base) + "]"@
    } else if d > 0 {
        "["@ + base_text(ea.base) + " + "@ + int_text(d) + "]"@
    } else {
        "["@ + base_text(ea.base) + " - "@ + int_text(-d) + "]"@
    }
}

pub open spec fn reg_or_mem_text(rm: RegOrMem) -> Seq<char> {
    match rm {
        RegOrMem::Reg(ra) => register_text(ra),
        RegOrMem::Mem(ea) => address_text(ea),
    }
}

pub open spec fn width_text(w: OpWidth) -> Seq<char> {
    match w {
        OpWidth::Byte => "byte"@,
        OpWidth::Word => "word"@,
    }
}

pub open spec fn op_text(op: ArithmeticOp) -> Seq<char> {
    match op {
        ArithmeticOp::Add => "add"@,
        ArithmeticOp::Adc => "adc"@,
        ArithmeticOp::Sub => "sub"@,
        ArithmeticOp::Sbb => "sbb"@,
        ArithmeticOp::Cmp => "cmp"@,
    }
}

impl EffectiveAddressBase {
    /// Appends the base registers' text; nothing for `Direct`.
    pub fn encode(&self, s: &mut String)
        ensures
            final(s)@ == old(s)@ + base_text(*self),
    {
        match self {
            EffectiveAddressBase::Direct => {
                proof {
                    assert(final(s)@ =~= old(s)@ + base_text(*self));
                }
            },
            EffectiveAddressBase::BxPlusSi => push_str(s, "bx + si"),
            EffectiveAddressBase::BxPlusDi => push_str(s, "bx + di"),
            EffectiveAddressBase::BpPlusSi => push_str(s, "bp + si"),
            EffectiveAddressBase::BpPlusDi => push_str(s, "bp + di"),
            EffectiveAddressBase::Si => push_str(s, "si"),
            EffectiveAddressBase::Di => push_str(s, "di"),
            EffectiveAddressBase::Bp => push_str(s, "bp"),
            EffectiveAddressBase::Bx => push_str(s, "bx"),
        }
    }
}

impl SegmentRegister {
    pub fn encode(&self, s: &mut String)
        ensures
            final(s)@ == old(s)@ + segment_text(*self),
    {
        match self {
            SegmentRegister::Es => push_str(s, "es"),
            SegmentRegister::Cs => push_str(s, "cs"),
            SegmentRegister::Ss => push_str(s, "ss"),
            SegmentRegister::Ds => push_str(s, "ds"),
        }
    }
}

impl OpWidth {
    pub fn encode(&self, s: &mut String)
        ensures
            final(s)@ == old(s)@ + width_text(*self),
    {
        match self {
            OpWidth::Byte => push_str(s, "byte"),
            OpWidth::Word => push_str(s, "word"),
        }
    }
}

impl ArithmeticOp {
    pub fn encode(&self, s: &mut String)
        ensures
            final(s)@ == old(s)@ + op_text(*self),
    {
        match self {
            ArithmeticOp::Add => push_str(s, "add"),
            ArithmeticOp::Adc => push_str(s, "adc"),
            ArithmeticOp::Sub => push_str(s, "sub"),
            ArithmeticOp::Sbb => push_str(s, "sbb"),
            ArithmeticOp::Cmp => push_str(s, "cmp"),
        }
    }
}

impl EffectiveAddress {
    /// Appends the memory operand in assembler syntax.
    pub fn encode(&self, s: &mut String)
        ensures
            final(s)@ == old(s)@ + address_text(*self),
    {
        let ghost s0 = old(s)@;
        let d = self.displacement;
        push_str(s, "[");
        if self.base == EffectiveAddressBase::Direct {
            push_int(s, d as i64);
        } else if d == 0 {
            self.base.encode(s);
        } else if d > 0 {
            self.base.encode(s);
            push_str(s, " + ");
            push_int(s, d as i64);
        } else {
            self.base.encode(s);
            push_str(s, " - ");
            push_int(s, 0 - (d as i64));
        }
        push_str(s, "]");
        proof {
            assert(final(s)@ =~= s0 + address_text(*self));
        }
    }
}

impl RegOrMem {
    pub fn encode(&self, s: &mut String)
        ensures
            final(s)@ == old(s)@ + reg_or_mem_text(*self),
    {
        match self {
            RegOrMem::Reg(ra) => ra.encode(s),
            RegOrMem::Mem(ea) => ea.encode(s),
        }
    }
}

/// The signed displacement of a jump or loop; `None` for other instructions.
pub open spec fn jump_displacement(i: Instruction) -> Option<i8> {
    match i {
        Instruction::JumpOnEqual(d) => Some(d),
        Instruction::JumpOnLess(d) => Some(d),
        Instruction::JumpOnNotGreater(d) => Some(d),
        Instruction::JumpOnBelow(d) => Some(d),
        Instruction::JumpOnNotAbove(d) => Some(d),
        Instruction::JumpOnParity(d) => Some(d),
        Instruction::JumpOnOverflow(d) => Some(d),
        Instruction::JumpOnSign(d) => Some(d),
        Instruction::JumpOnNotEqual(d) => Some(d),
        Instruction::JumpOnNotLess(d) => Some(d),
        Instruction::JumpOnGreater(d) => Some(d),
        Instruction::JumpOnNotBelow(d) => Some(d),
        Instruction::JumpOnAbove(d) => Some(d),
        Instruction::JumpOnNoParity(d) => Some(d),
        Instruction::JumpOnNoOverflow(d) => Some(d),
        Instruction::JumpOnNotSign(d) => Some(d),
        Instruction::Loop(d) => Some(d),
        Instruction::LoopWhileEqual(d) => Some(d),
        Instruction::LoopWhileNotEqual(d) => Some(d),
        Instruction::JumpOnCxZero(d) => Some(d),
        _ => None,
    }
}

/// The mnemonic of a jump or loop.
pub open spec fn jump_mnemonic(i: Instruction) -> Seq<char> {
    match i {
        Instruction::JumpOnEqual(_) => "je"@,
        Instruction::JumpOnLess(_) => "jl"@,
        Instruction::JumpOnNotGreater(_) => "jle"@,
        Instruction::JumpOnBelow(_) => "jb"@,
        Instruction::JumpOnNotAbove(_) => "jbe"@,
        Instruction::JumpOnParity(_) => "jp"@,
        Instruction::JumpOnOverflow(_) => "jo"@,
        Instruction::JumpOnSign(_) => "js"@,
        Instruction::JumpOnNotEqual(_) => "jne"@,
        Instruction::JumpOnNotLess(_) => "jnl"@,
        Instruction::JumpOnGreater(_) => "jg"@,
        Instruction::JumpOnNotBelow(_) => "jnb"@,
        Instruction::JumpOnAbove(_) => "jnbe"@,
        Instruction::JumpOnNoParity(_) => "jnp"@,
        Instruction::JumpOnNoOverflow(_) => "jno"@,
        Instruction::JumpOnNotSign(_) => "jns"@,
        Instruction::Loop(_) => "loop"@,
        Instruction::LoopWhileEqual(_) => "loope"@,
        Instruction::LoopWhileNotEqual(_) => "loopne"@,
        Instruction::JumpOnCxZero(_) => "jcxz"@,
        _ => ""@,
    }
}

/// The assembler line of an instruction; `label` stands for a jump's target.
pub open spec fn instruction_text(i: Instruction, label: Seq<char>) -> Seq<char> {
    match i {
        Instruction::MovToFromRegMem { dir, reg, reg_or_mem } => match dir {
            Direction::FromRegister => "mov "@ + reg_or_mem_text(reg_or_mem) + ", "@ + register_text(reg),
            Direction::ToRegister => "mov "@ + register_text(reg) + ", "@ + reg_or_mem_text(reg_or_mem),
        },
        Instruction::ImmediateMovRegMem { width, reg_or_mem, data } => "mov "@ + reg_or_mem_text(
            reg_or_mem,
        ) + ", "@ + width_text(width) + " "@ + int_text(data as int),
        Instruction::ImmediateMovReg { reg, data } => "mov "@ + register_text(reg) + ", "@ + int_text(
            data as int,
        ),
        Instruction::AccumulatorMove { dir, addr } => match dir {
            Direction::FromRegister => "mov ["@ + int_text(addr as int) + "], ax"@,
            Direction::ToRegister => "mov ax, ["@ + int_text(addr as int) + "]"@,
        },
        Instruction::SegmentRegisterMove { dir, seg_reg, reg_or_mem } => match dir {
            Direction::FromRegister => "mov "@ + reg_or_mem_text(reg_or_mem) + ", "@ + segment_text(seg_reg),
            Direction::ToRegister => "mov "@ + segment_text(seg_reg) + ", "@ + reg_or_mem_text(reg_or_mem),
        },
        Instruction::ArithmeticFromToRegMem { op, dir, width, reg, reg_or_mem } => match dir {
            Direction::FromRegister => op_text(op) + " "@ + reg_or_mem_text(reg_or_mem) + ", "@
                + register_text(reg),
            Direction::ToRegister => op_text(op) + " "@ + register_text(reg) + ", "@ + reg_or_mem_text(
                reg_or_mem,
            ),
        },
        Instruction::ArithmeticImmediateToRegMem { op, width, data, reg_or_mem } => op_text(op) + " "@
            + reg_or_mem_text(reg_or_mem) + ", "@ + width_text(width) + " "@ + int_text(data as int),
        Instruction::ArithmeticImmediateToAccumulator { op, width, data } => op_text(op) + " "@ + (
        match width {
            OpWidth::Byte => "al"@,
            OpWidth::Word => "ax"@,
        }) + ", "@ + int_text(data as int),
        _ => jump_mnemonic(i) + " "@ + label,
    }
}

/// The displacement of a jump or loop, `None` for any other instruction.
pub fn relative_jump(instruction: &Instruction) -> (r: Option<i8>)
    ensures
        r == jump_displacement(*instruction),
{
    match *instruction {
        Instruction::JumpOnEqual(d) => Some(d),
        Instruction::JumpOnLess(d) => Some(d),
        Instruction::JumpOnNotGreater(d) => Some(d),
        Instruction::JumpOnBelow(d) => Some(d),
        Instruction::JumpOnNotAbove(d) => Some(d),
        Instruction::JumpOnParity(d) => Some(d),
        Instruction::JumpOnOverflow(d) => Some(d),
        Instruction::JumpOnSign(d) => Some(d),
        Instruction::JumpOnNotEqual(d) => Some(d),
        Instruction::JumpOnNotLess(d) => Some(d),
        Instruction::JumpOnGreater(d) => Some(d),
        Instruction::JumpOnNotBelow(d) => Some(d),
        Instruction::JumpOnAbove(d) => Some(d),
        Instruction::JumpOnNoParity(d) => Some(d),
        Instruction::JumpOnNoOverflow(d) => Some(d),
        Instruction::JumpOnNotSign(d) => Some(d),
        Instruction::Loop(d) => Some(d),
        Instruction::LoopWhileEqual(d) => Some(d),
        Instruction::LoopWhileNotEqual(d) => Some(d),
        Instruction::JumpOnCxZero(d) => Some(d),
        _ => None,
    }
}

fn jump_mnemonic_str(instruction: &Instruction) -> (r: &'static str)
    ensures
        r@ == jump_mnemonic(*instruction),
{
    match *instruction {
        Instruction::JumpOnEqual(_) => "je",
        Instruction::JumpOnLess(_) => "jl",
        Instruction::JumpOnNotGreater(_) => "jle",
        Instruction::JumpOnBelow(_) => "jb",
        Instruction::JumpOnNotAbove(_) => "jbe",
        Instruction::JumpOnParity(_) => "jp",
        Instruction::JumpOnOverflow(_) => "jo",
        Instruction::JumpOnSign(_) => "js",
        Instruction::JumpOnNotEqual(_) => "jne",
        Instruction::JumpOnNotLess(_) => "jnl",
        Instruction::JumpOnGreater(_) => "jg",
        Instruction::JumpOnNotBelow(_) => "jnb",
        Instruction::JumpOnAbove(_) => "jnbe",
        Instruction::JumpOnNoParity(_) => "jnp",
        Instruction::JumpOnNoOverflow(_) => "jno",
        Instruction::JumpOnNotSign(_) => "jns",
        Instruction::Loop(_) => "loop",
        Instruction::LoopWhileEqual(_) => "loope",
        Instruction::LoopWhileNotEqual(_) => "loopne",
        Instruction::JumpOnCxZero(_) => "jcxz",
        _ => "",
    }
}

impl Instruction {
    /// The assembler line of this instruction. A jump's displacement is
    /// rendered by `format_jump`.
    pub fn encode<F>(&self, format_jump: F) -> (r: String) where F: Fn(i8) -> String
        requires
            forall|d: i8| format_jump.requires((d,)),
        ensures
            match jump_displacement(*self) {
                Some(d) => exists|label: String|
                    format_jump.ensures((d,), label) && r@ == instruction_text(*self, label@),
                None => r@ == instruction_text(*self, Seq::empty()),
            },
    {
        let mut s = String::new();
        match *self {
            Instruction::MovToFromRegMem { dir, reg, reg_or_mem } => {
                push_str(&mut s, "mov ");
                match dir {
                    Direction::FromRegister => {
                        reg_or_mem.encode(&mut s);
                        push_str(&mut s, ", ");
                        reg.encode(&mut s);
                    },
                    Direction::ToRegister => {
                        reg.encode(&mut s);
                        push_str(&mut s, ", ");
                        reg_or_mem.encode(&mut s);
                    },
                }
            },
            Instruction::ImmediateMovRegMem { width, reg_or_mem, data } => {
                push_str(&mut s, "mov ");
                reg_or_mem.encode(&mut s);
                push_str(&mut s, ", ");
                width.encode(&mut s);
                push_str(&mut s, " ");
                push_int(&mut s, data as i64);
            },
            Instruction::ImmediateMovReg { reg, data } => {
                push_str(&mut s, "mov ");
                reg.encode(&mut s);
                push_str(&mut s, ", ");
                push_int(&mut s, data as i64);
            },
            Instruction::AccumulatorMove { dir, addr } => match dir {
                Direction::FromRegister => {
                    push_str(&mut s, "mov [");
                    push_int(&mut s, addr as i64);
                    push_str(&mut s, "], ax");
                },
                Direction::ToRegister => {
                    push_str(&mut s, "mov ax, [");
                    push_int(&mut s, addr as i64);
                    push_str(&mut s, "]");
                },
            },
            Instruction::SegmentRegisterMove { dir, seg_reg, reg_or_mem } => {
                push_str(&mut s, "mov ");
                match dir {
                    Direction::FromRegister => {
                        reg_or_mem.encode(&mut s);
                        push_str(&mut s, ", ");
                        seg_reg.encode(&mut s);
                    },
                    Direction::ToRegister => {
                        seg_reg.encode(&mut s);
                        push_str(&mut s, ", ");
                        reg_or_mem.encode(&mut s);
                    },
                }
            },
            Instruction::ArithmeticFromToRegMem { op, dir, width: _, reg, reg_or_mem } => {
                op.encode(&mut s);
                push_str(&mut s, " ");
                match dir {
                    Direction::FromRegister => {
                        reg_or_mem.encode(&mut s);
                        push_str(&mut s, ", ");
                        reg.encode(&mut s);
                    },
                    Direction::ToRegister => {
                        reg.encode(&mut s);
                        push_str(&mut s, ", ");
                        reg_or_mem.encode(&mut s);
                    },
                }
            },
            Instruction::ArithmeticImmediateToRegMem { op, width, data, reg_or_mem } => {
                op.encode(&mut s);
                push_str(&mut s, " ");
                reg_or_mem.encode(&mut s);
                push_str(&mut s, ", ");
                width.encode(&mut s);
                push_str(&mut s, " ");
                push_int(&mut s, data as i64);
            },
            Instruction::ArithmeticImmediateToAccumulator { op, width, data } => {
                op.encode(&mut s);
                push_str(&mut s, " ");
                match width {
                    OpWidth::Byte => push_str(&mut s, "al"),
                    OpWidth::Word => push_str(&mut s, "ax"),
                }
                push_str(&mut s, ", ");
                push_int(&mut s, data as i64);
            },
            _ => {
                let d = match relative_jump(self) {
                    Some(d) => d,
                    None => 0,
                };
                push_str(&mut s, jump_mnemonic_str(self));
                push_str(&mut s, " ");
                let label = format_jump(d);
                push_str(&mut s, label.as_str());
                proof {
                    assert(s@ =~= instruction_text(*self, label@));
                }
                return s;
            },
        }
        proof {
            assert(s@ =~= instruction_text(*self, Seq::empty()));
        }
        s
    }
}

/// The text of an instruction depends on the instruction alone, and for a
/// jump on its label: encoding the same value again gives the same text.
pub proof fn lemma_encoding_is_stable(i: Instruction, l1: Seq<char>, l2: Seq<char>)
    ensures
        (jump_displacement(i) is None || l1 == l2) ==> instruction_text(i, l1) == instruction_text(
            i,
            l2,
        ),
{
}

} // verus!
