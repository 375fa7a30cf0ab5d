use sim8086::decode::DecodeError;
use sim8086::disasm::{disassemble, DisassemblyError};
use sim8086::sim::simulate;

#[test]
fn mov_immediate_to_ax() {
    let sim = simulate(&[0xB8, 0x01, 0x00], 100).unwrap();
    assert_eq!(sim.state.registers.ax, 1);
    assert!(sim.state.registers.flags.is_empty());
    assert_eq!(sim.state.registers.ip, 3);
}

#[test]
fn three_subtractions_reach_zero() {
    let program = [0xB9, 0x03, 0x00, 0x83, 0xE9, 0x01, 0x83, 0xE9, 0x01, 0x83, 0xE9, 0x01];
    let sim = simulate(&program, 100).unwrap();
    let regs = sim.state.registers;
    assert_eq!(regs.cx, 0);
    assert!(regs.flags.zero);
    assert!(regs.flags.parity);
}

#[test]
fn add_wraps_bx_to_zero() {
    let sim = simulate(&[0xBB, 0xFF, 0xFF, 0x81, 0xC3, 0x01, 0x00], 100).unwrap();
    let regs = sim.state.registers;
    assert_eq!(regs.bx, 0);
    let f = regs.flags;
    assert!(f.zero && f.parity && f.auxiliary_carry && f.carry);
    assert!(!f.sign && !f.overflow);
}

#[test]
fn sub_overflows_from_most_negative() {
    let sim = simulate(&[0xB8, 0x00, 0x80, 0x83, 0xE8, 0x01], 100).unwrap();
    let regs = sim.state.registers;
    assert_eq!(regs.ax, 0x7FFF);
    assert!(regs.flags.overflow);
    assert!(!regs.flags.sign);
}

#[test]
fn word_round_trip_through_bp_si() {
    // mov bp, 100; mov si, 4; mov word [bp + si], 0x1234; mov dx, [bp + si]
    let program = [
        0xBD, 0x64, 0x00, 0xBE, 0x04, 0x00, 0xC7, 0x02, 0x34, 0x12, 0x8B, 0x12,
    ];
    let sim = simulate(&program, 100).unwrap();
    assert_eq!(sim.state.registers.dx, 0x1234);
    assert_eq!(sim.memory.get(104), Some(0x34));
    assert_eq!(sim.memory.get(105), Some(0x12));
}

#[test]
fn jump_gets_matching_label() {
    // je label; mov al, 1; label: mov al, 2
    let text = disassemble(&[0x74, 0x02, 0xB0, 0x01, 0xB0, 0x02]).unwrap();
    assert!(text.contains("label_1:"));
    assert!(text.contains("je label_1"));
    assert_eq!(text, "bits 16\nje label_1\nmov al, 1\nlabel_1:\nmov al, 2\n");
}

#[test]
fn backward_loop_label() {
    // label: sub cx, 1; jne label
    let text = disassemble(&[0x83, 0xE9, 0x01, 0x75, 0xFB]).unwrap();
    assert_eq!(text, "bits 16\nlabel_1:\nsub cx, word 1\njne label_1\n");
}

#[test]
fn labels_numbered_in_address_order() {
    // jmp targets: je +2 (to 6), jne +0 (to 6), jl -6 (to 2)
    let bytes = [0x74, 0x04, 0x75, 0x02, 0x7C, 0xFC, 0xB0, 0x01];
    let text = disassemble(&bytes).unwrap();
    assert_eq!(
        text,
        "bits 16\nje label_2\nlabel_1:\njne label_2\njl label_1\nlabel_2:\nmov al, 1\n"
    );
}

#[test]
fn disassembly_errors() {
    assert_eq!(disassemble(&[0x90]), Err(DisassemblyError::Decode(DecodeError::UnknownOpcode(0x90))));
    assert_eq!(disassemble(&[0x74, 0xF0]), Err(DisassemblyError::JumpOutOfRange(2)));
    assert_eq!(disassemble(&[]).unwrap(), "bits 16\n");
}
