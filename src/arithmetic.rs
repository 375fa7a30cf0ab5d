//! Add and subtract on bytes and words, with the flags they produce.
use vstd::prelude::*;
use crate::flag_registers::Flags;
use crate::ops::{ArithmeticOp, OpWidth};

verus! {

pub open spec fn modulus(w: OpWidth) -> int {
    match w {
        OpWidth::Byte => 256,
        OpWidth::Word => 65536,
    }
}

/// The unsigned value of the low byte or the whole word of `x`.
pub open spec fn unsigned_of(w: OpWidth, x: i16) -> int {
    (x as int) % modulus(w)
}

/// The two's-complement value of an unsigned byte or word `u`.
pub open spec fn signed_of(w: OpWidth, u: int) -> int {
    if u < modulus(w) / 2 {
        u
    } else {
        u - modulus(w)
    }
}

/// Number of one bits of a natural number.
pub open spec fn ones(x: nat) -> nat
    decreases x,
{
    if x == 0 {
        0
    } else {
        (x % 2) + ones(x / 2)
    }
}

/// Even number of set bits in the low eight bits.
pub open spec fn even_parity(u: int) -> bool {
    ones((u % 256) as nat) % 2 == 0
}

/// Whether an operation is an addition (carry-in is not applied).
pub open spec fn is_addition(op: ArithmeticOp) -> bool {
    op == ArithmeticOp::Add || op == ArithmeticOp::Adc
}

/// The result of `a op b` at width `w`, sign-extended, with all six flags.
pub open spec fn arithmetic_result(op: ArithmeticOp, w: OpWidth, a: i16, b: i16) -> (i16, Flags) {
    let m = modulus(w);
    let ua = unsigned_of(w, a);
    let ub = unsigned_of(w, b);
    let sa = signed_of(w, ua);
    let sb = signed_of(w, ub);
    let exact = if is_addition(op) {
        sa + sb
    } else {
        sa - sb
    };
    let u = if is_addition(op) {
        (ua + ub) % m
    } else {
        (ua - ub) % m
    };
    (
        signed_of(w, u) as i16,
        Flags {
            carry: if is_addition(op) {
                ua + ub >= m
            } else {
                ua < ub
            },
            parity: even_parity(u),
            auxiliary_carry: if is_addition(op) {
                ua % 16 + ub % 16 >= 16
            } else {
                ua % 16 < ub % 16
            },
            zero: u == 0,
            sign: u >= m / 2,
            overflow: exact != signed_of(w, u),
        },
    )
}

/// Whether the operation writes its result back; `cmp` only sets flags.
pub open spec fn stores_result(op: ArithmeticOp) -> bool {
    op != ArithmeticOp::Cmp
}

pub fn store_result(op: ArithmeticOp) -> (r: bool)
    ensures
        r == stores_result(op),
{
    match op {
        ArithmeticOp::Cmp => false,
        _ => true,
    }
}

/// Even parity of the low byte of `u`.
fn parity_of(u: u32) -> (r: bool)
    ensures
        r == even_parity(u as int),
{
    let mut x: u32 = u % 256;
    let mut count: u32 = 0;
    proof {
        lemma_ones_bound(x as nat);
    }
    while x > 0
        invariant
            x < 256,
            count + ones(x as nat) == ones((u % 256) as nat),
            ones((u % 256) as nat) <= 8,
        decreases x,
    {
        count = count + x % 2;
        x = x / 2;
    }
    count % 2 == 0
}

spec fn two_to(n: nat) -> nat
    decreases n,
{
    if n == 0 {
        1
    } else {
        2 * two_to((n - 1) as nat)
    }
}

proof fn lemma_ones_bound(x: nat)
    requires
        x < 256,
    ensures
        ones(x) <= 8,
{
    reveal_with_fuel(two_to, 9);
    lemma_ones_below(x, 8);
}

proof fn lemma_ones_below(x: nat, n: nat)
    requires
        x < two_to(n),
    ensures
        ones(x) <= n,
    decreases n,
{
    if n > 0 && x > 0 {
        lemma_ones_below(x / 2, (n - 1) as nat);
    }
}

proof fn lemma_wrap(x: int, w: OpWidth)
    requires
        -modulus(w) <= x < 2 * modulus(w),
    ensures
        x % modulus(w) == if x >= modulus(w) {
            x - modulus(w)
        } else if x < 0 {
            x + modulus(w)
        } else {
            x
        },
{
}

fn unsigned_value(w: OpWidth, x: i16) -> (r: i32)
    ensures
        r == unsigned_of(w, x),
        0 <= r < modulus(w),
{
    match w {
        OpWidth::Byte => (x as i32 + 65536) % 256,
        OpWidth::Word => if x < 0 {
            x as i32 + 65536
        } else {
            x as i32
        },
    }
}

/// The flags that the operation itself decides: carry, overflow and
/// auxiliary carry. Zero, sign and parity are left clear; they follow from
/// the result (`updated_flags`).
pub open spec fn operation_flags(op: ArithmeticOp, w: OpWidth, a: i16, b: i16) -> Flags {
    let f = arithmetic_result(op, w, a, b).1;
    Flags {
        carry: f.carry,
        parity: false,
        auxiliary_carry: f.auxiliary_carry,
        zero: false,
        sign: false,
        overflow: f.overflow,
    }
}

/// The flag word after an operation with sign-extended result `result` and
/// operation flags `op_flags`: each flag selected by `mask` is replaced (zero,
/// sign and parity from the result, the others from `op_flags`), the rest
/// are kept.
pub open spec fn updated_flags(flags: Flags, result: i16, op_flags: Flags, mask: Flags) -> Flags {
    Flags {
        carry: if mask.carry {
            op_flags.carry
        } else {
            flags.carry
        },
        parity: if mask.parity {
            even_parity(result as int)
        } else {
            flags.parity
        },
        auxiliary_carry: if mask.auxiliary_carry {
            op_flags.auxiliary_carry
        } else {
            flags.auxiliary_carry
        },
        zero: if mask.zero {
            result == 0
        } else {
            flags.zero
        },
        sign: if mask.sign {
            result < 0
        } else {
            flags.sign
        },
        overflow: if mask.overflow {
            op_flags.overflow
        } else {
            flags.overflow
        },
    }
}

/// All six flags selected.
pub open spec fn all_flags() -> Flags {
    Flags {
        carry: true,
        parity: true,
        auxiliary_carry: true,
        zero: true,
        sign: true,
        overflow: true,
    }
}

/// Updating all six flags from an operation's result and its operation
/// flags gives the flags of `arithmetic_result`.
pub proof fn lemma_update_gives_result_flags(op: ArithmeticOp, w: OpWidth, a: i16, b: i16, old: Flags)
    ensures
        updated_flags(
            old,
            arithmetic_result(op, w, a, b).0,
            operation_flags(op, w, a, b),
            all_flags(),
        ) == arithmetic_result(op, w, a, b).1,
{
    let m = modulus(w);
    let ua = unsigned_of(w, a);
    let ub = unsigned_of(w, b);
    let u = if is_addition(op) {
        (ua + ub) % m
    } else {
        (ua - ub) % m
    };
    let r = signed_of(w, u);
    assert(0 <= u < m);
    assert(r % 256 == u % 256);
    assert((r as i16) as int == r);
}

/// Applies `op` to `one` and `two` at width `w`: the sign-extended result
/// and the operation flags (carry, overflow, auxiliary carry).
pub fn evaluate_op_at(op: ArithmeticOp, w: OpWidth, one: i16, two: i16) -> (r: (i16, Flags))
    ensures
        r.0 == arithmetic_result(op, w, one, two).0,
        r.1 == operation_flags(op, w, one, two),
{
    let m: i32 = match w {
        OpWidth::Byte => 256,
        OpWidth::Word => 65536,
    };
    let ua = unsigned_value(w, one);
    let ub = unsigned_value(w, two);
    let half = m / 2;
    let sa: i32 = if ua < half {
        ua
    } else {
        ua - m
    };
    let sb: i32 = if ub < half {
        ub
    } else {
        ub - m
    };
    let add = match op {
        ArithmeticOp::Add | ArithmeticOp::Adc => true,
        _ => false,
    };
    let exact: i32 = if add {
        sa + sb
    } else {
        sa - sb
    };
    let u: i32 = if add {
        if ua + ub >= m {
            ua + ub - m
        } else {
            ua + ub
        }
    } else {
        if ua < ub {
            ua - ub + m
        } else {
            ua - ub
        }
    };
    proof {
        if add {
            lemma_wrap(ua + ub, w);
        } else {
            lemma_wrap(ua - ub, w);
        }
    }
    let su: i32 = if u < half {
        u
    } else {
        u - m
    };
    let flags = Flags {
        carry: if add {
            ua + ub >= m
        } else {
            ua < ub
        },
        parity: false,
        auxiliary_carry: if add {
            ua % 16 + ub % 16 >= 16
        } else {
            ua % 16 < ub % 16
        },
        zero: false,
        sign: false,
        overflow: exact != su,
    };
    (su as i16, flags)
}

/// Applies `op` to two words: the result and the operation flags (carry,
/// overflow, auxiliary carry); zero, sign and parity are left clear.
pub fn evaluate_op(op: ArithmeticOp, one: i16, two: i16) -> (r: (i16, Flags))
    ensures
        r.0 == arithmetic_result(op, OpWidth::Word, one, two).0,
        r.1 == operation_flags(op, OpWidth::Word, one, two),
{
    evaluate_op_at(op, OpWidth::Word, one, two)
}

/// Replaces the flags selected by `mask`: zero, sign and parity from the
/// sign-extended `result`, carry, overflow and auxiliary carry from
/// `op_flags`.
pub fn update_flags(flags: Flags, result: i16, op_flags: Flags, mask: Flags) -> (r: Flags)
    ensures
        r == updated_flags(flags, result, op_flags, mask),
{
    let parity = parity_of((result as i32 + 65536) as u32);
    proof {
        assert((result as int + 65536) % 256 == (result as int) % 256);
    }
    Flags {
        carry: if mask.carry {
            op_flags.carry
        } else {
            flags.carry
        },
        parity: if mask.parity {
            parity
        } else {
            flags.parity
        },
        auxiliary_carry: if mask.auxiliary_carry {
            op_flags.auxiliary_carry
        } else {
            flags.auxiliary_carry
        },
        zero: if mask.zero {
            result == 0
        } else {
            flags.zero
        },
        sign: if mask.sign {
            result < 0
        } else {
            flags.sign
        },
        overflow: if mask.overflow {
            op_flags.overflow
        } else {
            flags.overflow
        },
    }
}

/// Applies `op` to `one` and `two` at width `w`: the sign-extended result and
/// all six flags.
pub fn evaluate(op: ArithmeticOp, w: OpWidth, one: i16, two: i16) -> (r: (i16, Flags))
    ensures
        r == arithmetic_result(op, w, one, two),
{
    let (result, op_flags) = evaluate_op_at(op, w, one, two);
    let flags = update_flags(Flags::empty(), result, op_flags, Flags::arithmetic_flags());
    proof {
        lemma_update_gives_result_flags(op, w, one, two, Flags::empty_spec());
    }
    (result, flags)
}

} // verus!
