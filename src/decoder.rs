//! Instruction decoding by leading byte.
use vstd::prelude::*;
use crate::decode::{
    arithmetic_op_of, displacement_len, has_bit, le_word, sign_extend, spec_reg_or_mem, width_of,
    ArithmeticFromToRegMemDecoder, ArithmeticImmediateToAccumulatorDecoder,
    ArithmeticImmediateToRegMemDecoder, DecodeError, ImmediateMovToRegDecoder,
    ImmediateMovToRegMemDecoder, JumpDecoder, JumpOp, MovAccumulatorDecoder, MovSegmentDecoder,
    MovToFromRegMemDecoder, OpCodeDecoder,
};
use crate::lookup::{pattern_matches, DecoderKind, OpDecoderLookup};
use crate::ops::{Direction, Instruction, OpWidth};

verus! {

/// The decoder of each leading byte, as the table of patterns registers it:
/// the pattern registered last wins (no two of them overlap).
pub open spec fn registered(b: u8) -> Option<DecoderKind> {
    if pattern_matches("0b1110_0011"@, b) {
        Some(DecoderKind::Jump(JumpDecoder { jump_op: JumpOp::JumpOnCxZero }))
    } else if pattern_matches("0b1110_0000"@, b) {
        Some(DecoderKind::Jump(JumpDecoder { jump_op: JumpOp::LoopWhileNotEqual }))
    } else if pattern_matches("0b1110_0001"@, b) {
        Some(DecoderKind::Jump(JumpDecoder { jump_op: JumpOp::LoopWhileEqual }))
    } else if pattern_matches("0b1110_0010"@, b) {
        Some(DecoderKind::Jump(JumpDecoder { jump_op: JumpOp::Loop }))
    } else if pattern_matches("0b0111_1001"@, b) {
        Some(DecoderKind::Jump(JumpDecoder { jump_op: JumpOp::JumpOnNotSign }))
    } else if pattern_matches("0b0111_0001"@, b) {
        Some(DecoderKind::Jump(JumpDecoder { jump_op: JumpOp::JumpOnNoOverflow }))
    } else if pattern_matches("0b0111_1011"@, b) {
        Some(DecoderKind::Jump(JumpDecoder { jump_op: JumpOp::JumpOnNoParity }))
    } else if pattern_matches("0b0111_0111"@, b) {
        Some(DecoderKind::Jump(JumpDecoder { jump_op: JumpOp::JumpOnAbove }))
    } else if pattern_matches("0b0111_0011"@, b) {
        Some(DecoderKind::Jump(JumpDecoder { jump_op: JumpOp::JumpOnNotBelow }))
    } else if pattern_matches("0b0111_1111"@, b) {
        Some(DecoderKind::Jump(JumpDecoder { jump_op: JumpOp::JumpOnGreater }))
    } else if pattern_matches("0b0111_1101"@, b) {
        Some(DecoderKind::Jump(JumpDecoder { jump_op: JumpOp::JumpOnNotLess }))
    } else if pattern_matches("0b0111_0101"@, b) {
        Some(DecoderKind::Jump(JumpDecoder { jump_op: JumpOp::JumpOnNotEqual }))
    } else if pattern_matches("0b0111_1000"@, b) {
        Some(DecoderKind::Jump(JumpDecoder { jump_op: JumpOp::JumpOnSign }))
    } else if pattern_matches("0b0111_0000"@, b) {
        Some(DecoderKind::Jump(JumpDecoder { jump_op: JumpOp::JumpOnOverflow }))
    } else if pattern_matches("0b0111_1010"@, b) {
        Some(DecoderKind::Jump(JumpDecoder { jump_op: JumpOp::JumpOnParity }))
    } else if pattern_matches("0b0111_0110"@, b) {
        Some(DecoderKind::Jump(JumpDecoder { jump_op: JumpOp::JumpOnNotAbove }))
    } else if pattern_matches("0b0111_0010"@, b) {
        Some(DecoderKind::Jump(JumpDecoder { jump_op: JumpOp::JumpOnBelow }))
    } else if pattern_matches("0b0111_1110"@, b) {
        Some(DecoderKind::Jump(JumpDecoder { jump_op: JumpOp::JumpOnNotGreater }))
    } else if pattern_matches("0b0111_1100"@, b) {
        Some(DecoderKind::Jump(JumpDecoder { jump_op: JumpOp::JumpOnLess }))
    } else if pattern_matches("0b0111_0100"@, b) {
        Some(DecoderKind::Jump(JumpDecoder { jump_op: JumpOp::JumpOnEqual }))
    } else if pattern_matches("0b00xx_x1dw"@, b) {
        Some(DecoderKind::ArithmeticImmediateToAccumulator(ArithmeticImmediateToAccumulatorDecoder {}))
    } else if pattern_matches("0b1000_00sw"@, b) {
        Some(DecoderKind::ArithmeticImmediateToRegMem(ArithmeticImmediateToRegMemDecoder {}))
    } else if pattern_matches("0b00xx_x0dw"@, b) {
        Some(DecoderKind::ArithmeticFromToRegMem(ArithmeticFromToRegMemDecoder {}))
    } else if pattern_matches("0b1000_11d0"@, b) {
        Some(DecoderKind::MovSegment(MovSegmentDecoder {}))
    } else if pattern_matches("0b1010_00dw"@, b) {
        Some(DecoderKind::MovAccumulator(MovAccumulatorDecoder {}))
    } else if pattern_matches("0b1011_wreg"@, b) {
        Some(DecoderKind::ImmediateMovToReg(ImmediateMovToRegDecoder {}))
    } else if pattern_matches("0b1100_011w"@, b) {
        Some(DecoderKind::ImmediateMovToRegMem(ImmediateMovToRegMemDecoder {}))
    } else if pattern_matches("0b1000_10dw"@, b) {
        Some(DecoderKind::MovToFromRegMem(MovToFromRegMemDecoder {}))
    } else {
        None
    }
}

/// What decoding at `pos` gives: `None` at the end of the bytes, else the
/// instruction and the position after it, or why it could not be decoded.
pub open spec fn spec_decode_next(s: Seq<u8>, pos: usize) -> Result<Option<(Instruction, usize)>, DecodeError> {
    if pos >= s.len() {
        Ok(None)
    } else {
        let b = s[pos as int];
        match registered(b) {
            None => Err(DecodeError::UnknownOpcode(b)),
            Some(d) => match d.decodes(b, s, (pos + 1) as usize) {
                Ok((i, q)) => Ok(Some((i, q))),
                Err(e) => Err(e),
            },
        }
    }
}

/// Decodes instructions through a table of the supported families.
pub struct Decoder {
    lookup: OpDecoderLookup,
}

impl Decoder {
    /// The table holds, for each byte, the decoder that `registered` gives.
    pub closed spec fn wf(&self) -> bool {
        &&& self.lookup.wf()
        &&& forall|b: u8| #[trigger] self.lookup@[b as int] == registered(b)
    }

    /// A decoder with every supported family registered under its pattern.
    pub fn new() -> (r: Decoder)
        ensures
            r.wf(),
    {
        let mut lookup = OpDecoderLookup::new();
        proof {
            reveal_strlit("0b1000_10dw");
        }
        lookup.insert("0b1000_10dw", DecoderKind::MovToFromRegMem(MovToFromRegMemDecoder {}));
        proof {
            reveal_strlit("0b1100_011w");
        }
        lookup.insert("0b1100_011w", DecoderKind::ImmediateMovToRegMem(ImmediateMovToRegMemDecoder {}));
        proof {
            reveal_strlit("0b1011_wreg");
        }
        lookup.insert("0b1011_wreg", DecoderKind::ImmediateMovToReg(ImmediateMovToRegDecoder {}));
        proof {
            reveal_strlit("0b1010_00dw");
        }
        lookup.insert("0b1010_00dw", DecoderKind::MovAccumulator(MovAccumulatorDecoder {}));
        proof {
            reveal_strlit("0b1000_11d0");
        }
        lookup.insert("0b1000_11d0", DecoderKind::MovSegment(MovSegmentDecoder {}));
        proof {
            reveal_strlit("0b00xx_x0dw");
        }
        lookup.insert("0b00xx_x0dw", DecoderKind::ArithmeticFromToRegMem(ArithmeticFromToRegMemDecoder {}));
        proof {
            reveal_strlit("0b1000_00sw");
        }
        lookup.insert("0b1000_00sw", DecoderKind::ArithmeticImmediateToRegMem(ArithmeticImmediateToRegMemDecoder {}));
        proof {
            reveal_strlit("0b00xx_x1dw");
        }
        lookup.insert("0b00xx_x1dw", DecoderKind::ArithmeticImmediateToAccumulator(ArithmeticImmediateToAccumulatorDecoder {}));
        proof {
            reveal_strlit("0b0111_0100");
        }
        lookup.insert("0b0111_0100", DecoderKind::Jump(JumpDecoder::new(JumpOp::JumpOnEqual)));
        proof {
            reveal_strlit("0b0111_1100");
        }
        lookup.insert("0b0111_1100", DecoderKind::Jump(JumpDecoder::new(JumpOp::JumpOnLess)));
        proof {
            reveal_strlit("0b0111_1110");
        }
        lookup.insert("0b0111_1110", DecoderKind::Jump(JumpDecoder::new(JumpOp::JumpOnNotGreater)));
        proof {
            reveal_strlit("0b0111_0010");
        }
        lookup.insert("0b0111_0010", DecoderKind::Jump(JumpDecoder::new(JumpOp::JumpOnBelow)));
        proof {
            reveal_strlit("0b0111_0110");
        }
        lookup.insert("0b0111_0110", DecoderKind::Jump(JumpDecoder::new(JumpOp::JumpOnNotAbove)));
        proof {
            reveal_strlit("0b0111_1010");
        }
        lookup.insert("0b0111_1010", DecoderKind::Jump(JumpDecoder::new(JumpOp::JumpOnParity)));
        proof {
            reveal_strlit("0b0111_0000");
        }
        lookup.insert("0b0111_0000", DecoderKind::Jump(JumpDecoder::new(JumpOp::JumpOnOverflow)));
        proof {
            reveal_strlit("0b0111_1000");
        }
        lookup.insert("0b0111_1000", DecoderKind::Jump(JumpDecoder::new(JumpOp::JumpOnSign)));
        proof {
            reveal_strlit("0b0111_0101");
        }
        lookup.insert("0b0111_0101", DecoderKind::Jump(JumpDecoder::new(JumpOp::JumpOnNotEqual)));
        proof {
            reveal_strlit("0b0111_1101");
        }
        lookup.insert("0b0111_1101", DecoderKind::Jump(JumpDecoder::new(JumpOp::JumpOnNotLess)));
        proof {
            reveal_strlit("0b0111_1111");
        }
        lookup.insert("0b0111_1111", DecoderKind::Jump(JumpDecoder::new(JumpOp::JumpOnGreater)));
        proof {
            reveal_strlit("0b0111_0011");
        }
        lookup.insert("0b0111_0011", DecoderKind::Jump(JumpDecoder::new(JumpOp::JumpOnNotBelow)));
        proof {
            reveal_strlit("0b0111_0111");
        }
        lookup.insert("0b0111_0111", DecoderKind::Jump(JumpDecoder::new(JumpOp::JumpOnAbove)));
        proof {
            reveal_strlit("0b0111_1011");
        }
        lookup.insert("0b0111_1011", DecoderKind::Jump(JumpDecoder::new(JumpOp::JumpOnNoParity)));
        proof {
            reveal_strlit("0b0111_0001");
        }
        lookup.insert("0b0111_0001", DecoderKind::Jump(JumpDecoder::new(JumpOp::JumpOnNoOverflow)));
        proof {
            reveal_strlit("0b0111_1001");
        }
        lookup.insert("0b0111_1001", DecoderKind::Jump(JumpDecoder::new(JumpOp::JumpOnNotSign)));
        proof {
            reveal_strlit("0b1110_0010");
        }
        lookup.insert("0b1110_0010", DecoderKind::Jump(JumpDecoder::new(JumpOp::Loop)));
        proof {
            reveal_strlit("0b1110_0001");
        }
        lookup.insert("0b1110_0001", DecoderKind::Jump(JumpDecoder::new(JumpOp::LoopWhileEqual)));
        proof {
            reveal_strlit("0b1110_0000");
        }
        lookup.insert("0b1110_0000", DecoderKind::Jump(JumpDecoder::new(JumpOp::LoopWhileNotEqual)));
        proof {
            reveal_strlit("0b1110_0011");
        }
        lookup.insert("0b1110_0011", DecoderKind::Jump(JumpDecoder::new(JumpOp::JumpOnCxZero)));
        Decoder { lookup }
    }

    /// Decodes the instruction that starts at `pos`.
    pub fn decode_next(&self, bytes: &[u8], pos: usize) -> (r: Result<Option<(Instruction, usize)>, DecodeError>)
        requires
            self.wf(),
        ensures
            r == spec_decode_next(bytes@, pos),
    {
        if pos >= bytes.len() {
            return Ok(None);
        }
        let byte = bytes[pos];
        match self.lookup.get(&byte) {
            None => Err(DecodeError::UnknownOpcode(byte)),
            Some(decoder) => match decoder.decode(byte, bytes, pos + 1) {
                Ok((i, q)) => Ok(Some((i, q))),
                Err(e) => Err(e),
            },
        }
    }
}


/// Decoding never moves backwards and never reads past the end: a decoded
/// instruction starts at `pos` and ends within the bytes.
pub proof fn lemma_decode_progress(s: Seq<u8>, pos: usize)
    requires
        s.len() <= usize::MAX,
    ensures
        spec_decode_next(s, pos) matches Ok(Some((_, q))) ==> pos < q <= s.len(),
{
    if pos < s.len() {
        let b = s[pos as int];
        let p = (pos + 1) as usize;
        if pos + 1 < s.len() {
            let m = s[p as int];
            lemma_reg_or_mem_bounds(m % 8, m / 64, crate::ops::OpWidth::Byte, s, (p + 1) as usize);
            lemma_reg_or_mem_bounds(m % 8, m / 64, crate::ops::OpWidth::Word, s, (p + 1) as usize);
        }
    }
}

proof fn lemma_reg_or_mem_bounds(rm: u8, mode: u8, w: crate::ops::OpWidth, s: Seq<u8>, p: usize)
    requires
        s.len() <= usize::MAX,
        p <= s.len(),
    ensures
        crate::decode::spec_reg_or_mem(rm, mode, w, s, p) matches Ok((_, q)) ==> p <= q <= s.len(),
{
}

/// The characters of the table's patterns.
proof fn lemma_pattern_literals()
    ensures
        "0b1000_10dw"@ == seq!['0','b','1','0','0','0','_','1','0','d','w'],
        "0b1100_011w"@ == seq!['0','b','1','1','0','0','_','0','1','1','w'],
        "0b1011_wreg"@ == seq!['0','b','1','0','1','1','_','w','r','e','g'],
        "0b1010_00dw"@ == seq!['0','b','1','0','1','0','_','0','0','d','w'],
        "0b1000_11d0"@ == seq!['0','b','1','0','0','0','_','1','1','d','0'],
        "0b00xx_x0dw"@ == seq!['0','b','0','0','x','x','_','x','0','d','w'],
        "0b1000_00sw"@ == seq!['0','b','1','0','0','0','_','0','0','s','w'],
        "0b00xx_x1dw"@ == seq!['0','b','0','0','x','x','_','x','1','d','w'],
        "0b0111_0100"@ == seq!['0','b','0','1','1','1','_','0','1','0','0'],
        "0b0111_1100"@ == seq!['0','b','0','1','1','1','_','1','1','0','0'],
        "0b0111_1110"@ == seq!['0','b','0','1','1','1','_','1','1','1','0'],
        "0b0111_0010"@ == seq!['0','b','0','1','1','1','_','0','0','1','0'],
        "0b0111_0110"@ == seq!['0','b','0','1','1','1','_','0','1','1','0'],
        "0b0111_1010"@ == seq!['0','b','0','1','1','1','_','1','0','1','0'],
        "0b0111_0000"@ == seq!['0','b','0','1','1','1','_','0','0','0','0'],
        "0b0111_1000"@ == seq!['0','b','0','1','1','1','_','1','0','0','0'],
        "0b0111_0101"@ == seq!['0','b','0','1','1','1','_','0','1','0','1'],
        "0b0111_1101"@ == seq!['0','b','0','1','1','1','_','1','1','0','1'],
        "0b0111_1111"@ == seq!['0','b','0','1','1','1','_','1','1','1','1'],
        "0b0111_0011"@ == seq!['0','b','0','1','1','1','_','0','0','1','1'],
        "0b0111_0111"@ == seq!['0','b','0','1','1','1','_','0','1','1','1'],
        "0b0111_1011"@ == seq!['0','b','0','1','1','1','_','1','0','1','1'],
        "0b0111_0001"@ == seq!['0','b','0','1','1','1','_','0','0','0','1'],
        "0b0111_1001"@ == seq!['0','b','0','1','1','1','_','1','0','0','1'],
        "0b1110_0010"@ == seq!['0','b','1','1','1','0','_','0','0','1','0'],
        "0b1110_0001"@ == seq!['0','b','1','1','1','0','_','0','0','0','1'],
        "0b1110_0000"@ == seq!['0','b','1','1','1','0','_','0','0','0','0'],
        "0b1110_0011"@ == seq!['0','b','1','1','1','0','_','0','0','1','1'],
{
    reveal_strlit("0b1000_10dw");
    assert("0b1000_10dw"@ =~= seq!['0','b','1','0','0','0','_','1','0','d','w']);
    reveal_strlit("0b1100_011w");
    assert("0b1100_011w"@ =~= seq!['0','b','1','1','0','0','_','0','1','1','w']);
    reveal_strlit("0b1011_wreg");
    assert("0b1011_wreg"@ =~= seq!['0','b','1','0','1','1','_','w','r','e','g']);
    reveal_strlit("0b1010_00dw");
    assert("0b1010_00dw"@ =~= seq!['0','b','1','0','1','0','_','0','0','d','w']);
    reveal_strlit("0b1000_11d0");
    assert("0b1000_11d0"@ =~= seq!['0','b','1','0','0','0','_','1','1','d','0']);
    reveal_strlit("0b00xx_x0dw");
    assert("0b00xx_x0dw"@ =~= seq!['0','b','0','0','x','x','_','x','0','d','w']);
    reveal_strlit("0b1000_00sw");
    assert("0b1000_00sw"@ =~= seq!['0','b','1','0','0','0','_','0','0','s','w']);
    reveal_strlit("0b00xx_x1dw");
    assert("0b00xx_x1dw"@ =~= seq!['0','b','0','0','x','x','_','x','1','d','w']);
    reveal_strlit("0b0111_0100");
    assert("0b0111_0100"@ =~= seq!['0','b','0','1','1','1','_','0','1','0','0']);
    reveal_strlit("0b0111_1100");
    assert("0b0111_1100"@ =~= seq!['0','b','0','1','1','1','_','1','1','0','0']);
    reveal_strlit("0b0111_1110");
    assert("0b0111_1110"@ =~= seq!['0','b','0','1','1','1','_','1','1','1','0']);
    reveal_strlit("0b0111_0010");
    assert("0b0111_0010"@ =~= seq!['0','b','0','1','1','1','_','0','0','1','0']);
    reveal_strlit("0b0111_0110");
    assert("0b0111_0110"@ =~= seq!['0','b','0','1','1','1','_','0','1','1','0']);
    reveal_strlit("0b0111_1010");
    assert("0b0111_1010"@ =~= seq!['0','b','0','1','1','1','_','1','0','1','0']);
    reveal_strlit("0b0111_0000");
    assert("0b0111_0000"@ =~= seq!['0','b','0','1','1','1','_','0','0','0','0']);
    reveal_strlit("0b0111_1000");
    assert("0b0111_1000"@ =~= seq!['0','b','0','1','1','1','_','1','0','0','0']);
    reveal_strlit("0b0111_0101");
    assert("0b0111_0101"@ =~= seq!['0','b','0','1','1','1','_','0','1','0','1']);
    reveal_strlit("0b0111_1101");
    assert("0b0111_1101"@ =~= seq!['0','b','0','1','1','1','_','1','1','0','1']);
    reveal_strlit("0b0111_1111");
    assert("0b0111_1111"@ =~= seq!['0','b','0','1','1','1','_','1','1','1','1']);
    reveal_strlit("0b0111_0011");
    assert("0b0111_0011"@ =~= seq!['0','b','0','1','1','1','_','0','0','1','1']);
    reveal_strlit("0b0111_0111");
    assert("0b0111_0111"@ =~= seq!['0','b','0','1','1','1','_','0','1','1','1']);
    reveal_strlit("0b0111_1011");
    assert("0b0111_1011"@ =~= seq!['0','b','0','1','1','1','_','1','0','1','1']);
    reveal_strlit("0b0111_0001");
    assert("0b0111_0001"@ =~= seq!['0','b','0','1','1','1','_','0','0','0','1']);
    reveal_strlit("0b0111_1001");
    assert("0b0111_1001"@ =~= seq!['0','b','0','1','1','1','_','1','0','0','1']);
    reveal_strlit("0b1110_0010");
    assert("0b1110_0010"@ =~= seq!['0','b','1','1','1','0','_','0','0','1','0']);
    reveal_strlit("0b1110_0001");
    assert("0b1110_0001"@ =~= seq!['0','b','1','1','1','0','_','0','0','0','1']);
    reveal_strlit("0b1110_0000");
    assert("0b1110_0000"@ =~= seq!['0','b','1','1','1','0','_','0','0','0','0']);
    reveal_strlit("0b1110_0011");
    assert("0b1110_0011"@ =~= seq!['0','b','1','1','1','0','_','0','0','1','1']);
}

/// The opcode-level consequences of the table for the families that the
/// decoder laws speak of.
pub(crate) proof fn lemma_registered_families(b: u8)
    ensures
        0x88 <= b <= 0x8B ==> registered(b) == Some(
            DecoderKind::MovToFromRegMem(MovToFromRegMemDecoder {}),
        ),
        0xA0 <= b <= 0xA3 ==> registered(b) == Some(DecoderKind::MovAccumulator(MovAccumulatorDecoder {})),
        0x80 <= b <= 0x83 ==> registered(b) == Some(
            DecoderKind::ArithmeticImmediateToRegMem(ArithmeticImmediateToRegMemDecoder {}),
        ),
        0xC6 <= b <= 0xC7 ==> registered(b) == Some(
            DecoderKind::ImmediateMovToRegMem(ImmediateMovToRegMemDecoder {}),
        ),
{
    lemma_pattern_literals();
    if b == 0x88 {
    } else if b == 0x89 {
    } else if b == 0x8A {
    } else if b == 0x8B {
    } else if b == 0xA0 {
    } else if b == 0xA1 {
    } else if b == 0xA2 {
    } else if b == 0xA3 {
    } else if b == 0x80 {
    } else if b == 0x81 {
    } else if b == 0x82 {
    } else if b == 0x83 {
    } else if b == 0xC6 {
    } else if b == 0xC7 {
    }
}

/// Number of immediate bytes of the given width.
pub open spec fn immediate_len(w: OpWidth) -> nat {
    match w {
        OpWidth::Byte => 1,
        OpWidth::Word => 2,
    }
}

/// For every mode and r/m field an r/m operand takes exactly the bytes the
/// mode asks for: none in register mode or memory mode without
/// displacement, two for a direct address (mode 0, r/m 110), one for an
/// 8-bit and two for a 16-bit displacement. It fails exactly when fewer
/// bytes remain.
pub proof fn lemma_reg_or_mem_length(rm: u8, mode: u8, w: OpWidth, s: Seq<u8>, p: usize)
    requires
        rm < 8,
        mode < 4,
        p <= s.len() <= usize::MAX,
    ensures
        spec_reg_or_mem(rm, mode, w, s, p) is Ok <==> p + displacement_len(mode, rm) <= s.len(),
        spec_reg_or_mem(rm, mode, w, s, p) matches Ok((_, q)) ==> q == p + displacement_len(mode, rm),
{
}

/// With `s` set in `1000 00sw` the immediate is the last byte of the
/// instruction, sign-extended, so it lies in [-128, 127] whatever `w` says.
pub proof fn lemma_sign_extended_immediate(s: Seq<u8>, pos: usize)
    requires
        pos < s.len() <= usize::MAX,
        s[pos as int] == 0x82 || s[pos as int] == 0x83,
    ensures
        spec_decode_next(s, pos) matches Ok(
            Some((Instruction::ArithmeticImmediateToRegMem { data, .. }, q)),
        ) ==> -128 <= data <= 127 && data == sign_extend(s[q - 1]),
{
    lemma_registered_families(s[pos as int]);
    if pos + 1 < s.len() {
        let m = s[pos + 1];
        lemma_reg_or_mem_length(m % 8, m / 64, width_of(s[pos as int], 1), s, (pos + 2) as usize);
    }
}

/// `1010 00dw`: `d` clear loads AX from the address, `d` set stores AX
/// there. The address is the word after the opcode.
pub proof fn lemma_accumulator_direction(s: Seq<u8>, pos: usize)
    requires
        pos < s.len() <= usize::MAX,
        0xA0 <= s[pos as int] <= 0xA3,
    ensures
        spec_decode_next(s, pos) is Ok <==> pos + 3 <= s.len(),
        spec_decode_next(s, pos) matches Ok(Some((i, q))) ==> ({
            &&& q == pos + 3
            &&& i == Instruction::AccumulatorMove {
                dir: if s[pos as int] % 4 < 2 {
                    Direction::ToRegister
                } else {
                    Direction::FromRegister
                },
                addr: le_word(s[pos + 1], s[pos + 2]),
            }
        }),
        spec_decode_next(s, pos) is Ok ==> (spec_decode_next(s, pos) matches Ok(Some(_))),
{
    lemma_registered_families(s[pos as int]);
}

/// The table's decoder for the opcodes of the immediate-to-register and
/// segment-register families.
pub(crate) proof fn lemma_registered_mov_forms(b: u8)
    ensures
        0xB0 <= b <= 0xBF ==> registered(b) == Some(
            DecoderKind::ImmediateMovToReg(ImmediateMovToRegDecoder {}),
        ),
        b == 0x8C || b == 0x8E ==> registered(b) == Some(DecoderKind::MovSegment(MovSegmentDecoder {})),
{
    lemma_pattern_literals();
    if b == 0xb0 {
    } else if b == 0xb1 {
    } else if b == 0xb2 {
    } else if b == 0xb3 {
    } else if b == 0xb4 {
    } else if b == 0xb5 {
    } else if b == 0xb6 {
    } else if b == 0xb7 {
    } else if b == 0xb8 {
    } else if b == 0xb9 {
    } else if b == 0xba {
    } else if b == 0xbb {
    } else if b == 0xbc {
    } else if b == 0xbd {
    } else if b == 0xbe {
    } else if b == 0xbf {
    } else if b == 0x8c {
    } else if b == 0x8e {
    }
}

/// The table's decoder for the opcodes below 0x40: `00xx x0dw` and `00xx x1dw`.
pub(crate) proof fn lemma_registered_arithmetic(b: u8)
    ensures
        b < 0x40 && (b / 4) % 2 == 0 ==> registered(b) == Some(
            DecoderKind::ArithmeticFromToRegMem(ArithmeticFromToRegMemDecoder {}),
        ),
        b < 0x40 && (b / 4) % 2 == 1 ==> registered(b) == Some(
            DecoderKind::ArithmeticImmediateToAccumulator(ArithmeticImmediateToAccumulatorDecoder {}),
        ),
{
    lemma_pattern_literals();
    if b == 0x00 {
    } else if b == 0x01 {
    } else if b == 0x02 {
    } else if b == 0x03 {
    } else if b == 0x04 {
    } else if b == 0x05 {
    } else if b == 0x06 {
    } else if b == 0x07 {
    } else if b == 0x08 {
    } else if b == 0x09 {
    } else if b == 0x0a {
    } else if b == 0x0b {
    } else if b == 0x0c {
    } else if b == 0x0d {
    } else if b == 0x0e {
    } else if b == 0x0f {
    } else if b == 0x10 {
    } else if b == 0x11 {
    } else if b == 0x12 {
    } else if b == 0x13 {
    } else if b == 0x14 {
    } else if b == 0x15 {
    } else if b == 0x16 {
    } else if b == 0x17 {
    } else if b == 0x18 {
    } else if b == 0x19 {
    } else if b == 0x1a {
    } else if b == 0x1b {
    } else if b == 0x1c {
    } else if b == 0x1d {
    } else if b == 0x1e {
    } else if b == 0x1f {
    } else if b == 0x20 {
    } else if b == 0x21 {
    } else if b == 0x22 {
    } else if b == 0x23 {
    } else if b == 0x24 {
    } else if b == 0x25 {
    } else if b == 0x26 {
    } else if b == 0x27 {
    } else if b == 0x28 {
    } else if b == 0x29 {
    } else if b == 0x2a {
    } else if b == 0x2b {
    } else if b == 0x2c {
    } else if b == 0x2d {
    } else if b == 0x2e {
    } else if b == 0x2f {
    } else if b == 0x30 {
    } else if b == 0x31 {
    } else if b == 0x32 {
    } else if b == 0x33 {
    } else if b == 0x34 {
    } else if b == 0x35 {
    } else if b == 0x36 {
    } else if b == 0x37 {
    } else if b == 0x38 {
    } else if b == 0x39 {
    } else if b == 0x3a {
    } else if b == 0x3b {
    } else if b == 0x3c {
    } else if b == 0x3d {
    } else if b == 0x3e {
    } else if b == 0x3f {
    }
}

/// The table's decoder for each jump and loop opcode.
pub(crate) proof fn lemma_registered_jumps(b: u8)
    ensures
        b == 0x74 ==> registered(b) == Some(DecoderKind::Jump(JumpDecoder { jump_op: JumpOp::JumpOnEqual })),
        b == 0x7c ==> registered(b) == Some(DecoderKind::Jump(JumpDecoder { jump_op: JumpOp::JumpOnLess })),
        b == 0x7e ==> registered(b) == Some(DecoderKind::Jump(JumpDecoder { jump_op: JumpOp::JumpOnNotGreater })),
        b == 0x72 ==> registered(b) == Some(DecoderKind::Jump(JumpDecoder { jump_op: JumpOp::JumpOnBelow })),
        b == 0x76 ==> registered(b) == Some(DecoderKind::Jump(JumpDecoder { jump_op: JumpOp::JumpOnNotAbove })),
        b == 0x7a ==> registered(b) == Some(DecoderKind::Jump(JumpDecoder { jump_op: JumpOp::JumpOnParity })),
        b == 0x70 ==> registered(b) == Some(DecoderKind::Jump(JumpDecoder { jump_op: JumpOp::JumpOnOverflow })),
        b == 0x78 ==> registered(b) == Some(DecoderKind::Jump(JumpDecoder { jump_op: JumpOp::JumpOnSign })),
        b == 0x75 ==> registered(b) == Some(DecoderKind::Jump(JumpDecoder { jump_op: JumpOp::JumpOnNotEqual })),
        b == 0x7d ==> registered(b) == Some(DecoderKind::Jump(JumpDecoder { jump_op: JumpOp::JumpOnNotLess })),
        b == 0x7f ==> registered(b) == Some(DecoderKind::Jump(JumpDecoder { jump_op: JumpOp::JumpOnGreater })),
        b == 0x73 ==> registered(b) == Some(DecoderKind::Jump(JumpDecoder { jump_op: JumpOp::JumpOnNotBelow })),
        b == 0x77 ==> registered(b) == Some(DecoderKind::Jump(JumpDecoder { jump_op: JumpOp::JumpOnAbove })),
        b == 0x7b ==> registered(b) == Some(DecoderKind::Jump(JumpDecoder { jump_op: JumpOp::JumpOnNoParity })),
        b == 0x71 ==> registered(b) == Some(DecoderKind::Jump(JumpDecoder { jump_op: JumpOp::JumpOnNoOverflow })),
        b == 0x79 ==> registered(b) == Some(DecoderKind::Jump(JumpDecoder { jump_op: JumpOp::JumpOnNotSign })),
        b == 0xe2 ==> registered(b) == Some(DecoderKind::Jump(JumpDecoder { jump_op: JumpOp::Loop })),
        b == 0xe1 ==> registered(b) == Some(DecoderKind::Jump(JumpDecoder { jump_op: JumpOp::LoopWhileEqual })),
        b == 0xe0 ==> registered(b) == Some(DecoderKind::Jump(JumpDecoder { jump_op: JumpOp::LoopWhileNotEqual })),
        b == 0xe3 ==> registered(b) == Some(DecoderKind::Jump(JumpDecoder { jump_op: JumpOp::JumpOnCxZero })),
{
    lemma_pattern_literals();
    if b == 0x74 {
    } else if b == 0x7c {
    } else if b == 0x7e {
    } else if b == 0x72 {
    } else if b == 0x76 {
    } else if b == 0x7a {
    } else if b == 0x70 {
    } else if b == 0x78 {
    } else if b == 0x75 {
    } else if b == 0x7d {
    } else if b == 0x7f {
    } else if b == 0x73 {
    } else if b == 0x77 {
    } else if b == 0x7b {
    } else if b == 0x71 {
    } else if b == 0x79 {
    } else if b == 0xe2 {
    } else if b == 0xe1 {
    } else if b == 0xe0 {
    } else if b == 0xe3 {
    }
}

impl Default for Decoder {
    fn default() -> (r: Decoder)
        ensures
            r.wf(),
    {
        Decoder::new()
    }
}

/// The patterns of the table, in the order `Decoder::new` registers them.
pub open spec fn table_patterns() -> Seq<Seq<char>> {
    seq![
        "0b1000_10dw"@,
        "0b1100_011w"@,
        "0b1011_wreg"@,
        "0b1010_00dw"@,
        "0b1000_11d0"@,
        "0b00xx_x0dw"@,
        "0b1000_00sw"@,
        "0b00xx_x1dw"@,
        "0b0111_0100"@,
        "0b0111_1100"@,
        "0b0111_1110"@,
        "0b0111_0010"@,
        "0b0111_0110"@,
        "0b0111_1010"@,
        "0b0111_0000"@,
        "0b0111_1000"@,
        "0b0111_0101"@,
        "0b0111_1101"@,
        "0b0111_1111"@,
        "0b0111_0011"@,
        "0b0111_0111"@,
        "0b0111_1011"@,
        "0b0111_0001"@,
        "0b0111_1001"@,
        "0b1110_0010"@,
        "0b1110_0001"@,
        "0b1110_0000"@,
        "0b1110_0011"@,
    ]
}

/// No byte matches two patterns of the table, so the order in which they
/// are registered does not matter.
pub proof fn lemma_patterns_disjoint(b: u8, i: int, j: int)
    requires
        0 <= i < j < table_patterns().len(),
    ensures
        !(pattern_matches(table_patterns()[i], b) && pattern_matches(table_patterns()[j], b)),
{
    lemma_pattern_literals();
}

/// The leading bytes that the table registers.
pub open spec fn supported_opcode(b: u8) -> bool {
    (0x88 <= b <= 0x8C) || b == 0x8E || b == 0xC6 || b == 0xC7 || (0x80 <= b <= 0x83) || b < 0x40
        || (0xB0 <= b <= 0xBF) || (0xA0 <= b <= 0xA3) || (0x70 <= b <= 0x7F) || (0xE0 <= b <= 0xE3)
}

/// Whether a ModR/M byte follows the leading byte.
pub open spec fn has_modrm(b: u8) -> bool {
    (0x88 <= b <= 0x8C) || b == 0x8E || b == 0xC6 || b == 0xC7 || (0x80 <= b <= 0x83) || (b < 0x40
        && (b / 4) % 2 == 0)
}

/// The operation field of an arithmetic instruction names a supported
/// operation (other instructions have none).
pub open spec fn operation_supported(s: Seq<u8>, pos: int) -> bool {
    let b = s[pos];
    &&& (b < 0x40 ==> arithmetic_op_of((b / 8) % 8) is Some)
    &&& (0x80 <= b <= 0x83 ==> arithmetic_op_of((s[pos + 1] / 8) % 8) is Some)
}

/// The length of the instruction at `pos`: the leading byte, the ModR/M
/// byte and its displacement for the families that have one, then the
/// immediate, address or jump displacement.
pub open spec fn instruction_len(s: Seq<u8>, pos: int) -> nat {
    let b = s[pos];
    let m = s[pos + 1];
    let d = displacement_len(m / 64, m % 8);
    if (0x88 <= b <= 0x8C) || b == 0x8E {
        2 + d
    } else if b == 0xC6 || b == 0xC7 {
        2 + d + immediate_len(width_of(b, 1))
    } else if 0x80 <= b <= 0x83 {
        2 + d + if has_bit(b, 2) {
            1
        } else {
            immediate_len(width_of(b, 1))
        }
    } else if b < 0x40 && (b / 4) % 2 == 0 {
        2 + d
    } else if b < 0x40 {
        1 + immediate_len(width_of(b, 1))
    } else if 0xB0 <= b <= 0xBF {
        1 + immediate_len(width_of(b, 8))
    } else if 0xA0 <= b <= 0xA3 {
        3
    } else {
        2
    }
}

/// For every supported leading byte the decoder takes exactly
/// `instruction_len` bytes, and succeeds exactly when that many remain.
pub proof fn lemma_instruction_length(s: Seq<u8>, pos: usize)
    requires
        pos < s.len() <= usize::MAX,
        supported_opcode(s[pos as int]),
        has_modrm(s[pos as int]) ==> pos + 1 < s.len(),
        operation_supported(s, pos as int),
    ensures
        (spec_decode_next(s, pos) matches Ok(Some((_, q)))) <==> pos + instruction_len(s, pos as int)
            <= s.len(),
        spec_decode_next(s, pos) matches Ok(Some((_, q))) ==> q == pos + instruction_len(
            s,
            pos as int,
        ),
{
    let b = s[pos as int];
    lemma_registered_families(b);
    lemma_registered_mov_forms(b);
    lemma_registered_arithmetic(b);
    lemma_registered_jumps(b);
    if has_modrm(b) {
        let m = s[pos + 1];
        lemma_reg_or_mem_length(m % 8, m / 64, OpWidth::Byte, s, (pos + 2) as usize);
        lemma_reg_or_mem_length(m % 8, m / 64, OpWidth::Word, s, (pos + 2) as usize);
    }
}

} // verus!
