use vstd::prelude::*;

verus! {

/// Four bits.
#[derive(Debug, PartialEq, Eq, Structural, Clone, Copy)]
pub struct Nibble(pub u8);

/// Three nibbles, or twelve bits.
#[derive(Debug, PartialEq, Eq, Structural, Clone, Copy)]
pub struct Tribble(pub u16);

/// The four nibbles of a word, most significant first.
pub open spec fn word_nibbles(word: u16) -> (int, int, int, int) {
    let w = word as int;
    (w / 4096, (w / 256) % 16, (w / 16) % 16, w % 16)
}

/// The number that four nibbles spell, most significant first.
pub open spec fn join_nibbles(n: (int, int, int, int)) -> int {
    n.0 * 4096 + n.1 * 256 + n.2 * 16 + n.3
}

/// Splits the 16 bits into 4 nibbles, most significant first.
pub fn split_word(word: u16) -> (r: (Nibble, Nibble, Nibble, Nibble))
    ensures
        (r.0.0 as int, r.1.0 as int, r.2.0 as int, r.3.0 as int) == word_nibbles(word),
        r.0.0 < 16 && r.1.0 < 16 && r.2.0 < 16 && r.3.0 < 16,
{
    let n1 = word >> 12;
    let n2 = (word & 0x0F00) >> 8;
    let n3 = (word & 0x00F0) >> 4;
    let n4 = word & 0x000F;
    assert(n1 == word / 4096 && n2 == (word / 256) % 16 && n3 == (word / 16) % 16 && n4 == word % 16)
        by (bit_vector)
        requires
            n1 == word >> 12,
            n2 == (word & 0x0F00) >> 8,
            n3 == (word & 0x00F0) >> 4,
            n4 == word & 0x000F,
    ;
    (Nibble(n1 as u8), Nibble(n2 as u8), Nibble(n3 as u8), Nibble(n4 as u8))
}

/// Reassembling the four nibbles of a word gives back the word.
pub proof fn lemma_split_word_round_trip(word: u16)
    ensures
        join_nibbles(word_nibbles(word)) == word as int,
{
    let w = word as int;
    assert(w == 4096 * (w / 4096) + (w / 256) % 16 * 256 + (w / 16) % 16 * 16 + w % 16) by {
        vstd::arithmetic::div_mod::lemma_fundamental_div_mod(w, 16);
        vstd::arithmetic::div_mod::lemma_fundamental_div_mod(w / 16, 16);
        vstd::arithmetic::div_mod::lemma_fundamental_div_mod(w / 256, 16);
        vstd::arithmetic::div_mod::lemma_div_denominator(w, 16, 16);
        vstd::arithmetic::div_mod::lemma_div_denominator(w, 256, 16);
    }
}

impl Tribble {
    /// The twelve-bit value that three nibbles spell, most significant first.
    pub fn new(nibble1: Nibble, nibble2: Nibble, nibble3: Nibble) -> (r: Self)
        requires
            nibble1.0 < 16,
            nibble2.0 < 16,
            nibble3.0 < 16,
        ensures
            r.0 == nibble1.0 * 256 + nibble2.0 * 16 + nibble3.0,
            r.0 < 4096,
    {
        Tribble(nibble1.0 as u16 * 256 + nibble2.0 as u16 * 16 + nibble3.0 as u16)
    }
}

/// The word that two bytes make, big-endian: the first byte is the high one.
pub open spec fn word_of(byte1: u8, byte2: u8) -> u16 {
    (byte1 * 256 + byte2) as u16
}

/// The word that two bytes make, big-endian: the first byte is the high one.
pub fn get_instruction(byte1: u8, byte2: u8) -> (r: u16)
    ensures
        r == word_of(byte1, byte2),
{
    let high = byte1 as u16;
    let low = byte2 as u16;
    let word = high << 8 | low;
    assert(word == high * 256 + low) by (bit_vector)
        requires
            word == high << 8 | low,
            high < 256,
            low < 256,
    ;
    word
}

/// One decoded instruction, with its operands. `x` and `y` name general
/// purpose registers, `value` is a literal byte, and an address has twelve bits.
#[derive(Debug, PartialEq, Eq, Structural, Clone, Copy)]
pub enum Instruction {
    /// `0nnn`: a native machine-code routine of the COSMAC VIP; ignored.
    System(u16),
    /// `00E0`
    ClearDisplay,
    /// `00EE`
    Return,
    /// `1nnn`
    Jump(u16),
    /// `2nnn`
    Call(u16),
    /// `3xkk`
    SkipIfEqual { x: u8, value: u8 },
    /// `4xkk`
    SkipIfNotEqual { x: u8, value: u8 },
    /// `5xy0`
    SkipIfRegistersEqual { x: u8, y: u8 },
    /// `6xkk`
    SetRegister { x: u8, value: u8 },
    /// `7xkk`
    AddToRegister { x: u8, value: u8 },
    /// `8xy0`
    Copy { x: u8, y: u8 },
    /// `8xy1`
    Or { x: u8, y: u8 },
    /// `8xy2`
    And { x: u8, y: u8 },
    /// `8xy3`
    Xor { x: u8, y: u8 },
    /// `8xy4`
    Add { x: u8, y: u8 },
    /// `8xy5`
    Sub { x: u8, y: u8 },
    /// `8xy6`
    ShiftRight { x: u8 },
    /// `8xy7`
    SubReversed { x: u8, y: u8 },
    /// `8xyE`
    ShiftLeft { x: u8 },
    /// `9xy0`
    SkipIfRegistersDiffer { x: u8, y: u8 },
    /// `Annn`
    SetAddress(u16),
    /// `Bnnn`
    JumpWithOffset(u16),
    /// `Cxkk`
    Random { x: u8, mask: u8 },
    /// `Dxyn`
    Draw { x: u8, y: u8, height: u8 },
    /// `Ex9E`
    SkipIfKey { x: u8 },
    /// `ExA1`
    SkipIfNotKey { x: u8 },
    /// `Fx07`
    ReadDelayTimer { x: u8 },
    /// `Fx0A`
    AwaitKey { x: u8 },
    /// `Fx15`
    SetDelayTimer { x: u8 },
    /// `Fx18`
    SetSoundTimer { x: u8 },
    /// `Fx1E`
    AddToAddress { x: u8 },
    /// `Fx29`
    SetGlyph { x: u8 },
    /// `Fx33`
    StoreBcd { x: u8 },
    /// `Fx55`
    StoreRegisters { x: u8 },
    /// `Fx65`
    LoadRegisters { x: u8 },
}

/// The instruction that a word encodes, if any.
pub open spec fn spec_decode(word: u16) -> Option<Instruction> {
    let (op, a, b, c) = word_nibbles(word);
    let x = a as u8;
    let y = b as u8;
    let low = (word % 256) as u8;
    let addr = (word % 4096) as u16;
    if op == 0x0 {
        if addr == 0x0E0 {
            Some(Instruction::ClearDisplay)
        } else if addr == 0x0EE {
            Some(Instruction::Return)
        } else {
            Some(Instruction::System(addr))
        }
    } else if op == 0x1 {
        Some(Instruction::Jump(addr))
    } else if op == 0x2 {
        Some(Instruction::Call(addr))
    } else if op == 0x3 {
        Some(Instruction::SkipIfEqual { x, value: low })
    } else if op == 0x4 {
        Some(Instruction::SkipIfNotEqual { x, value: low })
    } else if op == 0x5 {
        if c == 0x0 {
            Some(Instruction::SkipIfRegistersEqual { x, y })
        } else {
            None
        }
    } else if op == 0x6 {
        Some(Instruction::SetRegister { x, value: low })
    } else if op == 0x7 {
        Some(Instruction::AddToRegister { x, value: low })
    } else if op == 0x8 {
        if c == 0x0 {
            Some(Instruction::Copy { x, y })
        } else if c == 0x1 {
            Some(Instruction::Or { x, y })
        } else if c == 0x2 {
            Some(Instruction::And { x, y })
        } else if c == 0x3 {
            Some(Instruction::Xor { x, y })
        } else if c == 0x4 {
            Some(Instruction::Add { x, y })
        } else if c == 0x5 {
            Some(Instruction::Sub { x, y })
        } else if c == 0x6 {
            Some(Instruction::ShiftRight { x })
        } else if c == 0x7 {
            Some(Instruction::SubReversed { x, y })
        } else if c == 0xE {
            Some(Instruction::ShiftLeft { x })
        } else {
            None
        }
    } else if op == 0x9 {
        if c == 0x0 {
            Some(Instruction::SkipIfRegistersDiffer { x, y })
        } else {
            None
        }
    } else if op == 0xA {
        Some(Instruction::SetAddress(addr))
    } else if op == 0xB {
        Some(Instruction::JumpWithOffset(addr))
    } else if op == 0xC {
        Some(Instruction::Random { x, mask: low })
    } else if op == 0xD {
        Some(Instruction::Draw { x, y, height: c as u8 })
    } else if op == 0xE {
        if low == 0x9E {
            Some(Instruction::SkipIfKey { x })
        } else if low == 0xA1 {
            Some(Instruction::SkipIfNotKey { x })
        } else {
            None
        }
    } else {
        if low == 0x07 {
            Some(Instruction::ReadDelayTimer { x })
        } else if low == 0x0A {
            Some(Instruction::AwaitKey { x })
        } else if low == 0x15 {
            Some(Instruction::SetDelayTimer { x })
        } else if low == 0x18 {
            Some(Instruction::SetSoundTimer { x })
        } else if low == 0x1E {
            Some(Instruction::AddToAddress { x })
        } else if low == 0x29 {
            Some(Instruction::SetGlyph { x })
        } else if low == 0x33 {
            Some(Instruction::StoreBcd { x })
        } else if low == 0x55 {
            Some(Instruction::StoreRegisters { x })
        } else if low == 0x65 {
            Some(Instruction::LoadRegisters { x })
        } else {
            None
        }
    }
}

impl Instruction {
    /// Register indices below 16, addresses below 4096, heights below 16.
    pub open spec fn wf(self) -> bool {
        match self {
            Instruction::System(a) | Instruction::Jump(a) | Instruction::Call(a)
            | Instruction::SetAddress(a) | Instruction::JumpWithOffset(a) => a < 4096,
            Instruction::SkipIfEqual { x, .. } | Instruction::SkipIfNotEqual { x, .. }
            | Instruction::SetRegister { x, .. } | Instruction::AddToRegister { x, .. }
            | Instruction::Random { x, .. } | Instruction::ShiftRight { x }
            | Instruction::ShiftLeft { x } | Instruction::SkipIfKey { x }
            | Instruction::SkipIfNotKey { x } | Instruction::ReadDelayTimer { x }
            | Instruction::AwaitKey { x } | Instruction::SetDelayTimer { x }
            | Instruction::SetSoundTimer { x } | Instruction::AddToAddress { x }
            | Instruction::SetGlyph { x } | Instruction::StoreBcd { x }
            | Instruction::StoreRegisters { x } | Instruction::LoadRegisters { x } => x < 16,
            Instruction::SkipIfRegistersEqual { x, y } | Instruction::Copy { x, y }
            | Instruction::Or { x, y } | Instruction::And { x, y } | Instruction::Xor { x, y }
            | Instruction::Add { x, y } | Instruction::Sub { x, y }
            | Instruction::SubReversed { x, y }
            | Instruction::SkipIfRegistersDiffer { x, y } => x < 16 && y < 16,
            Instruction::Draw { x, y, height } => x < 16 && y < 16 && height < 16,
            Instruction::ClearDisplay | Instruction::Return => true,
        }
    }
}

/// Decodes a word; `None` where it encodes no known instruction.
pub fn decode(word: u16) -> (r: Option<Instruction>)
    ensures
        r == spec_decode(word),
        r matches Some(ins) ==> ins.wf(),
{
    let (n1, n2, n3, n4) = split_word(word);
    let address = Tribble::new(n2, n3, n4).0;
    let low = (word & 0xFF) as u8;
    assert(low == word % 256) by (bit_vector)
        requires
            low == (word & 0xFF) as u8,
    ;
    assert(address == word % 4096) by {
        lemma_split_word_round_trip(word);
    }
    let x = n2.0;
    let y = n3.0;
    match n1.0 {
        0x0 => {
            if address == 0x0E0 {
                Some(Instruction::ClearDisplay)
            } else if address == 0x0EE {
                Some(Instruction::Return)
            } else {
                Some(Instruction::System(address))
            }
        },
        0x1 => Some(Instruction::Jump(address)),
        0x2 => Some(Instruction::Call(address)),
        0x3 => Some(Instruction::SkipIfEqual { x, value: low }),
        0x4 => Some(Instruction::SkipIfNotEqual { x, value: low }),
        0x5 => if n4.0 == 0x0 {
            Some(Instruction::SkipIfRegistersEqual { x, y })
        } else {
            None
        },
        0x6 => Some(Instruction::SetRegister { x, value: low }),
        0x7 => Some(Instruction::AddToRegister { x, value: low }),
        0x8 => match n4.0 {
            0x0 => Some(Instruction::Copy { x, y }),
            0x1 => Some(Instruction::Or { x, y }),
            0x2 => Some(Instruction::And { x, y }),
            0x3 => Some(Instruction::Xor { x, y }),
            0x4 => Some(Instruction::Add { x, y }),
            0x5 => Some(Instruction::Sub { x, y }),
            0x6 => Some(Instruction::ShiftRight { x }),
            0x7 => Some(Instruction::SubReversed { x, y }),
            0xE => Some(Instruction::ShiftLeft { x }),
            _ => None,
        },
        0x9 => if n4.0 == 0x0 {
            Some(Instruction::SkipIfRegistersDiffer { x, y })
        } else {
            None
        },
        0xA => Some(Instruction::SetAddress(address)),
        0xB => Some(Instruction::JumpWithOffset(address)),
        0xC => Some(Instruction::Random { x, mask: low }),
        0xD => Some(Instruction::Draw { x, y, height: n4.0 }),
        0xE => match low {
            0x9E => Some(Instruction::SkipIfKey { x }),
            0xA1 => Some(Instruction::SkipIfNotKey { x }),
            _ => None,
        },
        _ => match low {
            0x07 => Some(Instruction::ReadDelayTimer { x }),
            0x0A => Some(Instruction::AwaitKey { x }),
            0x15 => Some(Instruction::SetDelayTimer { x }),
            0x18 => Some(Instruction::SetSoundTimer { x }),
            0x1E => Some(Instruction::AddToAddress { x }),
            0x29 => Some(Instruction::SetGlyph { x }),
            0x33 => Some(Instruction::StoreBcd { x }),
            0x55 => Some(Instruction::StoreRegisters { x }),
            0x65 => Some(Instruction::LoadRegisters { x }),
            _ => None,
        },
    }
}

} // verus!
