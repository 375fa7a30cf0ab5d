//! The status-flag word.
use vstd::prelude::*;
use crate::text::push_char;

verus! {

pub const CARRY: u16 = 0x0001;

pub const PARITY: u16 = 0x0004;

pub const AUXILIARY_CARRY: u16 = 0x0010;

pub const ZERO: u16 = 0x0040;

pub const SIGN: u16 = 0x0080;

pub const OVERFLOW: u16 = 0x0800;

/// The six status flags that arithmetic updates.
#[derive(Debug, Clone, Copy, PartialEq, Eq, Structural)]
pub struct Flags {
    pub carry: bool,
    pub parity: bool,
    pub auxiliary_carry: bool,
    pub zero: bool,
    pub sign: bool,
    pub overflow: bool,
}

pub open spec fn bit_if(set: bool, mask: u16) -> int {
    if set {
        mask as int
    } else {
        0
    }
}

/// The flag word: each set flag contributes its bit, all other bits are zero.
pub open spec fn flag_word(f: Flags) -> int {
    bit_if(f.carry, CARRY) + bit_if(f.parity, PARITY) + bit_if(f.auxiliary_carry, AUXILIARY_CARRY)
        + bit_if(f.zero, ZERO) + bit_if(f.sign, SIGN) + bit_if(f.overflow, OVERFLOW)
}

/// The letters `C P A Z S O` of the set flags, in that order.
pub open spec fn flags_text(f: Flags) -> Seq<char> {
    (if f.carry {
        seq!['C']
    } else {
        Seq::empty()
    }) + (if f.parity {
        seq!['P']
    } else {
        Seq::empty()
    }) + (if f.auxiliary_carry {
        seq!['A']
    } else {
        Seq::empty()
    }) + (if f.zero {
        seq!['Z']
    } else {
        Seq::empty()
    }) + (if f.sign {
        seq!['S']
    } else {
        Seq::empty()
    }) + (if f.overflow {
        seq!['O']
    } else {
        Seq::empty()
    })
}

impl Flags {
    pub open spec fn empty_spec() -> Flags {
        Flags {
            carry: false,
            parity: false,
            auxiliary_carry: false,
            zero: false,
            sign: false,
            overflow: false,
        }
    }

    /// No flag set.
    pub fn empty() -> (r: Flags)
        ensures
            r == Flags::empty_spec(),
            flag_word(r) == 0,
            !r.carry && !r.parity && !r.auxiliary_carry && !r.zero && !r.sign && !r.overflow,
    {
        Flags {
            carry: false,
            parity: false,
            auxiliary_carry: false,
            zero: false,
            sign: false,
            overflow: false,
        }
    }

    /// All flags that an arithmetic instruction updates.
    pub fn arithmetic_flags() -> (r: Flags)
        ensures
            r.carry && r.parity && r.auxiliary_carry && r.zero && r.sign && r.overflow,
    {
        Flags {
            carry: true,
            parity: true,
            auxiliary_carry: true,
            zero: true,
            sign: true,
            overflow: true,
        }
    }

    pub fn is_empty(&self) -> (r: bool)
        ensures
            r == (flag_word(*self) == 0),
    {
        !(self.carry || self.parity || self.auxiliary_carry || self.zero || self.sign
            || self.overflow)
    }

    /// The 16-bit flag word.
    pub fn bits(&self) -> (r: u16)
        ensures
            r == flag_word(*self),
    {
        let mut w: u16 = 0;
        if self.carry {
            w = w + CARRY;
        }
        if self.parity {
            w = w + PARITY;
        }
        if self.auxiliary_carry {
            w = w + AUXILIARY_CARRY;
        }
        if self.zero {
            w = w + ZERO;
        }
        if self.sign {
            w = w + SIGN;
        }
        if self.overflow {
            w = w + OVERFLOW;
        }
        w
    }

    /// The set flags as letters, e.g. `CPZ`.
    pub fn to_text(&self) -> (r: String)
        ensures
            r@ == flags_text(*self),
    {
        let mut s = String::new();
        if self.carry {
            push_char(&mut s, 'C');
        }
        if self.parity {
            push_char(&mut s, 'P');
        }
        if self.auxiliary_carry {
            push_char(&mut s, 'A');
        }
        if self.zero {
            push_char(&mut s, 'Z');
        }
        if self.sign {
            push_char(&mut s, 'S');
        }
        if self.overflow {
            push_char(&mut s, 'O');
        }
        proof {
            assert(s@ =~= flags_text(*self));
        }
        s
    }
}

} // verus!
