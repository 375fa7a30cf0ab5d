use sim8086::decode::DecodeError;
use sim8086::decoder::Decoder;
use sim8086::ops::{
    ArithmeticOp, Direction, EffectiveAddress, EffectiveAddressBase, Instruction, OpWidth, RegOrMem,
    Register, RegisterAccess,
};

fn decode_one(bytes: &[u8]) -> (Instruction, usize) {
    let decoder = Decoder::new();
    decoder.decode_next(bytes, 0).unwrap().unwrap()
}

fn text(bytes: &[u8]) -> String {
    let (i, n) = decode_one(bytes);
    assert_eq!(n, bytes.len());
    i.encode(|d| format!("{d}"))
}

#[test]
fn register_to_register_mov() {
    assert_eq!(text(&[0x89, 0xD9]), "mov cx, bx");
    assert_eq!(text(&[0x88, 0xE5]), "mov ch, ah");
    assert_eq!(text(&[0x8B, 0xDE]), "mov bx, si");
}

#[test]
fn memory_operands() {
    assert_eq!(text(&[0x8A, 0x00]), "mov al, [bx + si]");
    assert_eq!(text(&[0x8B, 0x56, 0x00]), "mov dx, [bp]");
    assert_eq!(text(&[0x8A, 0x60, 0x04]), "mov ah, [bx + si + 4]");
    assert_eq!(text(&[0x8A, 0x80, 0x87, 0x13]), "mov al, [bx + si + 4999]");
    assert_eq!(text(&[0x8B, 0x41, 0xDB]), "mov ax, [bx + di - 37]");
    assert_eq!(text(&[0x89, 0x8C, 0xD4, 0xFE]), "mov [si - 300], cx");
    assert_eq!(text(&[0x8B, 0x2E, 0x05, 0x00]), "mov bp, [5]");
    assert_eq!(text(&[0x88, 0x6E, 0x00]), "mov [bp], ch");
}

#[test]
fn minus_256_displacement() {
    assert_eq!(text(&[0x8B, 0x87, 0x00, 0xFF]), "mov ax, [bx - 256]");
}

#[test]
fn immediates() {
    assert_eq!(text(&[0xB1, 0x0C]), "mov cl, 12");
    assert_eq!(text(&[0xB5, 0xF4]), "mov ch, -12");
    assert_eq!(text(&[0xBA, 0x6C, 0x0F]), "mov dx, 3948");
    assert_eq!(text(&[0xC6, 0x03, 0x07]), "mov [bp + di], byte 7");
    assert_eq!(text(&[0xC7, 0x85, 0x85, 0x03, 0x5B, 0x01]), "mov [di + 901], word 347");
}

#[test]
fn accumulator_moves() {
    assert_eq!(text(&[0xA1, 0xFB, 0x09]), "mov ax, [2555]");
    assert_eq!(text(&[0xA3, 0x0F, 0x00]), "mov [15], ax");
    let (i, _) = decode_one(&[0xA1, 0x10, 0x00]);
    assert_eq!(i, Instruction::AccumulatorMove { dir: Direction::ToRegister, addr: 16 });
}

#[test]
fn segment_moves() {
    assert_eq!(text(&[0x8E, 0xD0]), "mov ss, ax");
    assert_eq!(text(&[0x8C, 0xDB]), "mov bx, ds");
}

#[test]
fn arithmetic_forms() {
    assert_eq!(text(&[0x03, 0x18]), "add bx, [bx + si]");
    assert_eq!(text(&[0x83, 0xC6, 0x02]), "add si, word 2");
    assert_eq!(text(&[0x05, 0xE8, 0x03]), "add ax, 1000");
    assert_eq!(text(&[0x2C, 0x09]), "sub al, 9");
    assert_eq!(text(&[0x39, 0xD8]), "cmp ax, bx");
    assert_eq!(text(&[0x80, 0x3E, 0xE2, 0x12, 0x1D]), "cmp [4834], byte 29");
}

#[test]
fn sign_extended_immediate() {
    let (i, n) = decode_one(&[0x83, 0xC0, 0xFF]);
    assert_eq!(n, 3);
    assert_eq!(
        i,
        Instruction::ArithmeticImmediateToRegMem {
            op: ArithmeticOp::Add,
            width: OpWidth::Word,
            data: -1,
            reg_or_mem: RegOrMem::Reg(RegisterAccess::new(Register::A, OpWidth::Word, 0)),
        }
    );
}

#[test]
fn jumps_and_loops() {
    assert_eq!(text(&[0x75, 0xFE]), "jne -2");
    assert_eq!(text(&[0xE2, 0x05]), "loop 5");
    assert_eq!(text(&[0xE3, 0x00]), "jcxz 0");
    assert_eq!(text(&[0x77, 0x01]), "jnbe 1");
}

#[test]
fn decode_errors() {
    let decoder = Decoder::new();
    assert_eq!(decoder.decode_next(&[], 0), Ok(None));
    assert_eq!(decoder.decode_next(&[0x90], 0), Err(DecodeError::UnknownOpcode(0x90)));
    assert_eq!(decoder.decode_next(&[0x89], 0), Err(DecodeError::Truncated));
    assert_eq!(decoder.decode_next(&[0x8B, 0x87, 0x00], 0), Err(DecodeError::Truncated));
    assert_eq!(decoder.decode_next(&[0x08, 0xC0], 0), Err(DecodeError::UnsupportedOperation(1)));
}

#[test]
fn direct_address_is_a_word_even_for_bytes() {
    let (i, n) = decode_one(&[0x8A, 0x36, 0x34, 0x12]);
    assert_eq!(n, 4);
    assert_eq!(
        i,
        Instruction::MovToFromRegMem {
            dir: Direction::ToRegister,
            reg: RegisterAccess::new(Register::D, OpWidth::Byte, 1),
            reg_or_mem: RegOrMem::Mem(EffectiveAddress {
                base: EffectiveAddressBase::Direct,
                displacement: 0x1234
            }),
        }
    );
}

#[test]
fn decoding_stops_where_the_next_instruction_begins() {
    let decoder = Decoder::new();
    let bytes = [0x89, 0xD9, 0xC7, 0x85, 0x85, 0x03, 0x5B, 0x01, 0xA1, 0x10, 0x00, 0x74, 0xFE];
    let mut pos = 0;
    let mut lengths = vec![];
    while let Some((_, q)) = decoder.decode_next(&bytes, pos).unwrap() {
        lengths.push(q - pos);
        pos = q;
    }
    assert_eq!(lengths, vec![2, 6, 3, 2]);
}
