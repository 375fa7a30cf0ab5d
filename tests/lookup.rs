use sim8086::decode::{JumpDecoder, JumpOp, MovToFromRegMemDecoder};
use sim8086::decoder::Decoder;
use sim8086::lookup::{DecoderKind, OpDecoderLookup};

#[test]
fn expand_replaces_each_placeholder() {
    assert_eq!(OpDecoderLookup::expand("0b1000_10dw"), vec![0x88, 0x89, 0x8A, 0x8B]);
    assert_eq!(OpDecoderLookup::expand("0b0111_0100"), vec![0x74]);
    assert_eq!(OpDecoderLookup::expand("0b1011_wreg").len(), 16);
    assert_eq!(OpDecoderLookup::expand("0b00xx_x1dw").len(), 32);
}

#[test]
fn insert_and_get() {
    let mut lookup = OpDecoderLookup::new();
    assert!(lookup.get(&0x88).is_none());
    lookup.insert("0b1000_10dw", DecoderKind::MovToFromRegMem(MovToFromRegMemDecoder {}));
    lookup.insert("0b0111_0100", DecoderKind::Jump(JumpDecoder::new(JumpOp::JumpOnEqual)));
    assert!(matches!(lookup.get(&0x8B), Some(DecoderKind::MovToFromRegMem(_))));
    assert!(matches!(
        lookup.get(&0x74),
        Some(DecoderKind::Jump(JumpDecoder { jump_op: JumpOp::JumpOnEqual }))
    ));
    assert!(lookup.get(&0x8C).is_none());
    assert!(lookup.get(&0x75).is_none());
}

#[test]
fn default_decoder_matches_new() {
    let decoder = Decoder::default();
    assert!(decoder.decode_next(&[0xE3, 0x02], 0).unwrap().is_some());
}
