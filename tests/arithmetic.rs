use sim8086::arithmetic::{evaluate, evaluate_op, update_flags};
use sim8086::flag_registers::Flags;
use sim8086::ops::{ArithmeticOp, OpWidth};

#[test]
fn evaluate_op_add_overflow() {
    let (_result, flags) = evaluate_op(ArithmeticOp::Add, i16::MAX, 1);
    let s = flags.to_text();
    println!("{}", s);

    assert!(flags.overflow);
}

#[test]
fn evaluate_op_add_carry() {
    let (_result, flags) = evaluate_op(ArithmeticOp::Add, -1, 1);
    let s = flags.to_text();
    println!("{}", s);

    assert!(flags.carry);
}

#[test]
fn evaluate_op_add_aux_carry() {
    let (_result, flags) = evaluate_op(ArithmeticOp::Add, 10, 10);
    let s = flags.to_text();
    println!("{}", s);

    assert!(flags.auxiliary_carry);
}

#[test]
fn evaluate_op_sub_overflow() {
    let (_result, flags) = evaluate_op(ArithmeticOp::Sub, i16::MIN, 1);
    let s = flags.to_text();
    println!("{}", s);

    assert!(flags.overflow);
}

#[test]
fn evaluate_op_sub_carry() {
    let (_result, flags) = evaluate_op(ArithmeticOp::Sub, 0, 1);
    let s = flags.to_text();
    println!("{}", s);

    assert!(flags.carry);
}

#[test]
fn evaluate_op_sub_aux_carry() {
    let (_result, flags) = evaluate_op(ArithmeticOp::Sub, 20, 10);
    let s = flags.to_text();
    println!("{}", s);

    assert!(flags.auxiliary_carry);
}

#[test]
fn add_sets_every_flag_as_reference() {
    // 0x7FFF + 0x0001 = 0x8000: signed overflow, sign, aux carry; no carry.
    let (result, flags) = evaluate(ArithmeticOp::Add, OpWidth::Word, 0x7FFF, 1);
    assert_eq!(result, i16::MIN);
    assert!(flags.overflow && flags.sign && flags.auxiliary_carry && flags.parity);
    assert!(!flags.carry && !flags.zero);
    assert_eq!(flags.to_text(), "PASO");
}

#[test]
fn sub_to_zero_sets_zero_and_parity() {
    let (result, flags) = evaluate(ArithmeticOp::Sub, OpWidth::Word, 1234, 1234);
    assert_eq!(result, 0);
    assert!(flags.zero && flags.parity);
    assert!(!flags.carry && !flags.sign && !flags.overflow && !flags.auxiliary_carry);
}

#[test]
fn cmp_computes_like_sub() {
    assert_eq!(evaluate_op(ArithmeticOp::Cmp, 5, 7), evaluate_op(ArithmeticOp::Sub, 5, 7));
    let (result, flags) = evaluate(ArithmeticOp::Cmp, OpWidth::Word, 5, 7);
    assert_eq!(result, -2);
    assert!(flags.carry && flags.sign && flags.auxiliary_carry);
}

#[test]
fn byte_add_wraps_at_eight_bits() {
    // 0xFF + 0x01 as bytes: result 0, carry, zero, aux carry.
    let (result, flags) = evaluate(ArithmeticOp::Add, OpWidth::Byte, -1, 1);
    assert_eq!(result, 0);
    assert!(flags.carry && flags.zero && flags.auxiliary_carry && flags.parity);
    assert!(!flags.overflow && !flags.sign);
    // 0x7F + 0x01 as bytes: signed overflow into the sign bit.
    let (result, flags) = evaluate(ArithmeticOp::Add, OpWidth::Byte, 127, 1);
    assert_eq!(result, -128);
    assert!(flags.overflow && flags.sign && !flags.carry);
}

#[test]
fn flag_word_bits() {
    let (_r, flags) = evaluate(ArithmeticOp::Sub, OpWidth::Word, 0, 0);
    assert_eq!(flags.bits(), 0x0044);
    assert!(sim8086::flag_registers::Flags::empty().is_empty());
    assert_eq!(sim8086::flag_registers::Flags::arithmetic_flags().bits(), 0x08D5);
}

#[test]
fn evaluate_op_leaves_result_flags_to_the_update() {
    let (result, flags) = evaluate_op(ArithmeticOp::Add, 0, 0);
    assert_eq!(result, 0);
    assert!(flags.is_empty());
    let (result, flags) = evaluate_op(ArithmeticOp::Sub, 1, 1);
    assert_eq!(result, 0);
    assert!(flags.is_empty());
    let updated = update_flags(Flags::empty(), result, flags, Flags::arithmetic_flags());
    assert!(updated.zero && updated.parity && !updated.sign);
}

#[test]
fn update_flags_keeps_unselected_flags() {
    let old = Flags { carry: true, zero: true, ..Flags::empty() };
    let op_flags = Flags { overflow: true, ..Flags::empty() };
    let mask = Flags { sign: true, overflow: true, ..Flags::empty() };
    let r = update_flags(old, -5, op_flags, mask);
    assert_eq!(r, Flags { carry: true, zero: true, sign: true, overflow: true, ..Flags::empty() });
    let all = update_flags(old, 3, op_flags, Flags::arithmetic_flags());
    assert_eq!(all.to_text(), "PO");
}
