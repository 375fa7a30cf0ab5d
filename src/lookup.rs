//! A table from leading byte to decoder, filled from wildcard bit patterns.
use vstd::prelude::*;
use crate::decode::{
    ArithmeticFromToRegMemDecoder, ArithmeticImmediateToAccumulatorDecoder,
    ArithmeticImmediateToRegMemDecoder, Decoded, ImmediateMovToRegDecoder,
    ImmediateMovToRegMemDecoder, JumpDecoder, MovAccumulatorDecoder, MovSegmentDecoder,
    MovToFromRegMemDecoder, OpCodeDecoder,
};
use crate::ops::Instruction;

verus! {

/// The decoder registered for a leading byte.
#[derive(Debug, Clone, Copy)]
pub enum DecoderKind {
    MovToFromRegMem(MovToFromRegMemDecoder),
    ImmediateMovToRegMem(ImmediateMovToRegMemDecoder),
    ImmediateMovToReg(ImmediateMovToRegDecoder),
    MovAccumulator(MovAccumulatorDecoder),
    MovSegment(MovSegmentDecoder),
    ArithmeticFromToRegMem(ArithmeticFromToRegMemDecoder),
    ArithmeticImmediateToRegMem(ArithmeticImmediateToRegMemDecoder),
    ArithmeticImmediateToAccumulator(ArithmeticImmediateToAccumulatorDecoder),
    Jump(JumpDecoder),
}

impl OpCodeDecoder for DecoderKind {
    open spec fn decodes(&self, op_code: u8, s: Seq<u8>, pos: usize) -> Decoded<Instruction> {
        match self {
            DecoderKind::MovToFromRegMem(d) => d.decodes(op_code, s, pos),
            DecoderKind::ImmediateMovToRegMem(d) => d.decodes(op_code, s, pos),
            DecoderKind::ImmediateMovToReg(d) => d.decodes(op_code, s, pos),
            DecoderKind::MovAccumulator(d) => d.decodes(op_code, s, pos),
            DecoderKind::MovSegment(d) => d.decodes(op_code, s, pos),
            DecoderKind::ArithmeticFromToRegMem(d) => d.decodes(op_code, s, pos),
            DecoderKind::ArithmeticImmediateToRegMem(d) => d.decodes(op_code, s, pos),
            DecoderKind::ArithmeticImmediateToAccumulator(d) => d.decodes(op_code, s, pos),
            DecoderKind::Jump(d) => d.decodes(op_code, s, pos),
        }
    }

    fn decode(&self, op_code: u8, bytes: &[u8], pos: usize) -> (r: Decoded<Instruction>) {
        match self {
            DecoderKind::MovToFromRegMem(d) => d.decode(op_code, bytes, pos),
            DecoderKind::ImmediateMovToRegMem(d) => d.decode(op_code, bytes, pos),
            DecoderKind::ImmediateMovToReg(d) => d.decode(op_code, bytes, pos),
            DecoderKind::MovAccumulator(d) => d.decode(op_code, bytes, pos),
            DecoderKind::MovSegment(d) => d.decode(op_code, bytes, pos),
            DecoderKind::ArithmeticFromToRegMem(d) => d.decode(op_code, bytes, pos),
            DecoderKind::ArithmeticImmediateToRegMem(d) => d.decode(op_code, bytes, pos),
            DecoderKind::ArithmeticImmediateToAccumulator(d) => d.decode(op_code, bytes, pos),
            DecoderKind::Jump(d) => d.decode(op_code, bytes, pos),
        }
    }
}

/// The character of a pattern `0bHHHH_LLLL` that stands for bit `7 - i`.
pub open spec fn pattern_char(p: Seq<char>, i: int) -> char {
    if i < 4 {
        p[2 + i]
    } else {
        p[3 + i]
    }
}

/// A pattern `0bHHHH_LLLL`: each `H` and `L` is `0`, `1` or a lower-case
/// placeholder letter.
pub open spec fn valid_pattern(p: Seq<char>) -> bool {
    &&& p.len() == 11
    &&& p[0] == '0'
    &&& p[1] == 'b'
    &&& p[6] == '_'
    &&& forall|i: int|
        0 <= i < 8 ==> {
            let c = #[trigger] pattern_char(p, i);
            c == '0' || c == '1' || ('a' <= c && c <= 'z')
        }
}

/// Whether the bit of `b` with value `place` agrees with pattern character `c`;
/// a placeholder agrees with both.
pub open spec fn digit_matches(c: char, b: u8, place: int) -> bool {
    &&& (c == '0' ==> (b as int / place) % 2 == 0)
    &&& (c == '1' ==> (b as int / place) % 2 == 1)
}

/// Whether the concrete byte `b` is one of the bytes that the pattern expands to.
pub open spec fn pattern_matches(p: Seq<char>, b: u8) -> bool {
    &&& digit_matches(pattern_char(p, 0), b, 128)
    &&& digit_matches(pattern_char(p, 1), b, 64)
    &&& digit_matches(pattern_char(p, 2), b, 32)
    &&& digit_matches(pattern_char(p, 3), b, 16)
    &&& digit_matches(pattern_char(p, 4), b, 8)
    &&& digit_matches(pattern_char(p, 5), b, 4)
    &&& digit_matches(pattern_char(p, 6), b, 2)
    &&& digit_matches(pattern_char(p, 7), b, 1)
}

fn digit_ok(c: char, b: u8, place: u8) -> (r: bool)
    requires
        place > 0,
    ensures
        r == digit_matches(c, b, place as int),
{
    if c == '0' {
        (b / place) % 2 == 0
    } else if c == '1' {
        (b / place) % 2 == 1
    } else {
        true
    }
}

/// Some of the first `n` bytes of `v` is `b`.
pub open spec fn among(v: Seq<u8>, n: int, b: u8) -> bool {
    exists|j: int| 0 <= j < n && #[trigger] v[j] == b
}

/// Decoders by leading byte.
pub struct OpDecoderLookup {
    map: Vec<Option<DecoderKind>>,
}

impl View for OpDecoderLookup {
    type V = Seq<Option<DecoderKind>>;

    closed spec fn view(&self) -> Seq<Option<DecoderKind>> {
        self.map@
    }
}

impl OpDecoderLookup {
    /// One slot for each byte value.
    pub closed spec fn wf(&self) -> bool {
        self.map@.len() == 256
    }

    /// An empty table.
    pub fn new() -> (r: OpDecoderLookup)
        ensures
            r.wf(),
            r@.len() == 256,
            forall|b: u8| #[trigger] r@[b as int] is None,
    {
        let mut map: Vec<Option<DecoderKind>> = Vec::new();
        let mut i: usize = 0;
        while i < 256
            invariant
                i <= 256,
                map@.len() == i,
                forall|j: int| 0 <= j < i ==> map@[j] is None,
            decreases 256 - i,
        {
            map.push(None);
            i = i + 1;
        }
        OpDecoderLookup { map }
    }

    /// The concrete bytes that `pattern` expands to, in ascending order:
    /// every placeholder is replaced by 0 and by 1.
    pub fn expand(pattern: &str) -> (r: Vec<u8>)
        requires
            valid_pattern(pattern@),
        ensures
            forall|i: int, j: int| 0 <= i < j < r@.len() ==> r@[i] < r@[j],
            forall|b: u8| #[trigger] r@.contains(b) <==> pattern_matches(pattern@, b),
    {
        let c0 = pattern.get_char(2);
        let c1 = pattern.get_char(3);
        let c2 = pattern.get_char(4);
        let c3 = pattern.get_char(5);
        let c4 = pattern.get_char(7);
        let c5 = pattern.get_char(8);
        let c6 = pattern.get_char(9);
        let c7 = pattern.get_char(10);
        let ghost p = pattern@;
        let mut v: Vec<u8> = Vec::new();
        let mut i: usize = 0;
        while i < 256
            invariant
                i <= 256,
                c0 == pattern_char(p, 0),
                c1 == pattern_char(p, 1),
                c2 == pattern_char(p, 2),
                c3 == pattern_char(p, 3),
                c4 == pattern_char(p, 4),
                c5 == pattern_char(p, 5),
                c6 == pattern_char(p, 6),
                c7 == pattern_char(p, 7),
                forall|a: int, b: int| 0 <= a < b < v@.len() ==> v@[a] < v@[b],
                forall|a: int| 0 <= a < v@.len() ==> v@[a] < i,
                forall|b: u8| b < i ==> (#[trigger] v@.contains(b) <==> pattern_matches(p, b)),
            decreases 256 - i,
        {
            let b = i as u8;
            if digit_ok(c0, b, 128) && digit_ok(c1, b, 64) && digit_ok(c2, b, 32) && digit_ok(c3, b, 16)
                && digit_ok(c4, b, 8) && digit_ok(c5, b, 4) && digit_ok(c6, b, 2) && digit_ok(c7, b, 1) {
                let ghost old_v = v@;
                v.push(b);
                proof {
                    assert forall|x: u8| x < i + 1 implies (#[trigger] v@.contains(x)
                        <==> pattern_matches(p, x)) by {
                        assert(b as int == i as int);
                        if x == b {
                            assert(v@[old_v.len() as int] == b);
                        } else {
                            assert(x < i);
                            if v@.contains(x) {
                                let k = choose|k: int| 0 <= k < v@.len() && v@[k] == x;
                                assert(k < old_v.len());
                                assert(old_v[k] == x);
                                assert(old_v.contains(x));
                            }
                            if old_v.contains(x) {
                                let k = choose|k: int| 0 <= k < old_v.len() && old_v[k] == x;
                                assert(v@[k] == x);
                                assert(v@.contains(x));
                            }
                        }
                    }
                }
            } else {
                proof {
                    assert(!pattern_matches(p, b));
                    assert forall|x: u8| x < i + 1 implies (#[trigger] v@.contains(x)
                        <==> pattern_matches(p, x)) by {
                        if x as int == i as int {
                            assert(x == b);
                            if v@.contains(x) {
                                let k = choose|k: int| 0 <= k < v@.len() && v@[k] == x;
                                assert(v@[k] < i);
                            }
                        }
                    }
                }
            }
            i = i + 1;
        }
        proof {
            assert forall|b: u8| #[trigger] v@.contains(b) <==> pattern_matches(pattern@, b) by {
                assert(b < i);
            }
        }
        v
    }

    /// Registers `decoder` under every byte that `pattern` expands to; the
    /// other bytes keep their decoders.
    pub fn insert(&mut self, pattern: &str, decoder: DecoderKind)
        requires
            old(self).wf(),
            valid_pattern(pattern@),
        ensures
            final(self).wf(),
            forall|b: u8|
                #[trigger] final(self)@[b as int] == if pattern_matches(pattern@, b) {
                    Some(decoder)
                } else {
                    old(self)@[b as int]
                },
    {
        let bytes = Self::expand(pattern);
        let mut k: usize = 0;
        while k < bytes.len()
            invariant
                k <= bytes@.len(),
                self.map@.len() == 256,
                old(self).map@.len() == 256,
                forall|b: u8| #[trigger] bytes@.contains(b) <==> pattern_matches(pattern@, b),
                forall|b: u8|
                    #[trigger] self.map@[b as int] == if among(bytes@, k as int, b) {
                        Some(decoder)
                    } else {
                        old(self).map@[b as int]
                    },
            decreases bytes@.len() - k,
        {
            let b = bytes[k];
            self.map.set(b as usize, Some(decoder));
            proof {
                assert forall|x: u8| #[trigger] self.map@[x as int] == if among(
                    bytes@,
                    k + 1,
                    x,
                ) {
                    Some(decoder)
                } else {
                    old(self).map@[x as int]
                } by {
                    if x == b {
                        assert(bytes@[k as int] == x);
                    } else if among(bytes@, k + 1, x) {
                        let j = choose|j: int| 0 <= j < k + 1 && #[trigger] bytes@[j] == x;
                        assert(j < k);
                    }
                }
            }
            k = k + 1;
        }
        proof {
            assert forall|b: u8| #[trigger] self@[b as int] == if pattern_matches(pattern@, b) {
                Some(decoder)
            } else {
                old(self)@[b as int]
            } by {
                if among(bytes@, k as int, b) {
                    let j = choose|j: int| 0 <= j < k && #[trigger] bytes@[j] == b;
                    assert(bytes@.contains(b));
                }
                if bytes@.contains(b) {
                    let j = choose|j: int| 0 <= j < bytes@.len() && bytes@[j] == b;
                    assert(among(bytes@, k as int, b));
                }
            }
        }
    }

    /// The decoder registered for `opcode`, if any.
    pub fn get(&self, opcode: &u8) -> (r: Option<DecoderKind>)
        requires
            self.wf(),
        ensures
            r == self@[*opcode as int],
    {
        self.map[*opcode as usize]
    }
}

} // verus!
