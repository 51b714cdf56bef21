use chip8::instruction::{decode, split_word, Instruction, Nibble, Tribble};
use chip8::interpreter::Interpreter;

#[test]
fn test_split_word() {
    let word = 0xABCD;

    let (nibble1, nibble2, nibble3, nibble4) = split_word(word);

    assert_eq!(nibble1, Nibble(0xA));
    assert_eq!(nibble2, Nibble(0xB));
    assert_eq!(nibble3, Nibble(0xC));
    assert_eq!(nibble4, Nibble(0xD));
}

#[test]
fn test_instruction_fetching() {
    let (byte1, byte2) = (0xAB, 0xFE);
    let instruction = Interpreter::get_instruction(byte1, byte2);
    assert_eq!(instruction, 0xABFE);
    let (nibble1, nibble2, nibble3, nibble4) = split_word(instruction);
    assert_eq!(nibble1, Nibble(0xA));
    assert_eq!(nibble2, Nibble(0xB));
    assert_eq!(nibble3, Nibble(0xF));
    assert_eq!(nibble4, Nibble(0xE));
    let tribble = Tribble::new(nibble2, nibble3, nibble4);
    assert_eq!(tribble, Tribble(0xBFE));
}

#[test]
fn split_word_round_trips_for_every_word() {
    for word in 0..=u16::MAX {
        let (a, b, c, d) = split_word(word);
        let joined = (a.0 as u32) * 4096 + (b.0 as u32) * 256 + (c.0 as u32) * 16 + d.0 as u32;
        assert_eq!(joined, word as u32);
    }
}

#[test]
fn decode_known_words() {
    assert_eq!(decode(0x00E0), Some(Instruction::ClearDisplay));
    assert_eq!(decode(0x00EE), Some(Instruction::Return));
    assert_eq!(decode(0x0123), Some(Instruction::System(0x123)));
    assert_eq!(decode(0xABFE), Some(Instruction::SetAddress(0xBFE)));
    assert_eq!(decode(0x8AB4), Some(Instruction::Add { x: 0xA, y: 0xB }));
    assert_eq!(decode(0x8ABE), Some(Instruction::ShiftLeft { x: 0xA }));
    assert_eq!(decode(0xD125), Some(Instruction::Draw { x: 1, y: 2, height: 5 }));
    assert_eq!(decode(0xE39E), Some(Instruction::SkipIfKey { x: 3 }));
    assert_eq!(decode(0xE3A1), Some(Instruction::SkipIfNotKey { x: 3 }));
    assert_eq!(decode(0xF265), Some(Instruction::LoadRegisters { x: 2 }));
    assert_eq!(decode(0xC3F0), Some(Instruction::Random { x: 3, mask: 0xF0 }));
}

#[test]
fn decode_rejects_unknown_words() {
    assert_eq!(decode(0x8AB8), None);
    assert_eq!(decode(0xE3B1), None);
    assert_eq!(decode(0xF2FF), None);
    assert_eq!(decode(0xE09F), None);
    assert_eq!(decode(0xE3A2), None);
    assert_eq!(decode(0x5121), None);
    assert_eq!(decode(0x912F), None);
    assert_eq!(decode(0x5120), Some(Instruction::SkipIfRegistersEqual { x: 1, y: 2 }));
    assert_eq!(decode(0x9120), Some(Instruction::SkipIfRegistersDiffer { x: 1, y: 2 }));
}

#[test]
fn convert_key_follows_the_keypad_layout() {
    assert_eq!(Interpreter::convert_key('1'), Some(0x1));
    assert_eq!(Interpreter::convert_key('4'), Some(0xC));
    assert_eq!(Interpreter::convert_key('x'), Some(0x0));
    assert_eq!(Interpreter::convert_key('X'), Some(0x0));
    assert_eq!(Interpreter::convert_key('v'), Some(0xF));
    assert_eq!(Interpreter::convert_key('r'), Some(0xD));
    assert_eq!(Interpreter::convert_key('p'), None);
}
