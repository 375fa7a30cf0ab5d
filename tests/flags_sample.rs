use sim8086::arithmetic::{evaluate, evaluate_op};
use sim8086::flag_registers::Flags;
use sim8086::ops::{ArithmeticOp, OpWidth};

fn reference(add: bool, a: i16, b: i16) -> (i16, Flags) {
    let (ua, ub) = (a as u16 as u32, b as u16 as u32);
    let (result, carry, aux, exact) = if add {
        let r = ua.wrapping_add(ub) as u16;
        (r, ua + ub > 0xFFFF, (ua & 0xF) + (ub & 0xF) >= 16, a as i32 + b as i32)
    } else {
        let r = ua.wrapping_sub(ub) as u16;
        (r, ua < ub, (ua & 0xF) < (ub & 0xF), a as i32 - b as i32)
    };
    let flags = Flags {
        carry,
        parity: (result & 0xFF).count_ones() % 2 == 0,
        auxiliary_carry: aux,
        zero: result == 0,
        sign: result & 0x8000 != 0,
        overflow: exact != result as i16 as i32,
    };
    (result as i16, flags)
}

#[test]
fn add_and_sub_flags_agree_with_reference() {
    let mut sample: Vec<i16> = vec![i16::MIN, i16::MIN + 1, -256, -129, -128, -17, -16, -15, -2, -1];
    sample.extend_from_slice(&[0, 1, 2, 15, 16, 17, 127, 128, 255, 256, i16::MAX - 1, i16::MAX]);
    let mut x: i16 = -32000;
    while x < 32000 {
        sample.push(x);
        x += 1777;
    }
    for &a in &sample {
        for &b in &sample {
            let word = OpWidth::Word;
            assert_eq!(evaluate(ArithmeticOp::Add, word, a, b), reference(true, a, b), "add {a} {b}");
            assert_eq!(evaluate(ArithmeticOp::Sub, word, a, b), reference(false, a, b), "sub {a} {b}");
            assert_eq!(evaluate(ArithmeticOp::Cmp, word, a, b), reference(false, a, b), "cmp {a} {b}");
            for (op, add) in [(ArithmeticOp::Add, true), (ArithmeticOp::Sub, false), (ArithmeticOp::Cmp, false)] {
                let (r, f) = reference(add, a, b);
                let only = Flags { carry: f.carry, auxiliary_carry: f.auxiliary_carry, overflow: f.overflow, ..Flags::empty() };
                assert_eq!(evaluate_op(op, a, b), (r, only), "{op:?} {a} {b}");
            }
        }
    }
}
