use vstd::prelude::*;
use rand::rngs::SmallRng;
use rand::{Rng, SeedableRng};
use crate::machine::{initial_state, step_spec, Effect, EffectView, Error, Machine, MachineState, MAX_PROGRAM_SIZE};

verus! {

#[verifier::external_type_specification]
#[verifier::external_body]
pub struct ExSmallRng(SmallRng);

/// Relies on rand's `SeedableRng::seed_from_u64` for `SmallRng`: a generator
/// seeded from `seed`; it does not fail.
#[verifier::external_body]
fn seeded_rng(seed: u64) -> SmallRng {
    SmallRng::seed_from_u64(seed)
}

/// Relies on rand's `Rng::gen::<u8>`: a uniformly drawn byte, so nothing is
/// known of it.
#[verifier::external_body]
fn random_byte(rng: &mut SmallRng) -> u8 {
    rng.gen::<u8>()
}

/// The hex digit that a key of the host keyboard stands for, by position:
///
/// ```text
/// 1 2 3 4        1 2 3 C
/// q w e r        4 5 6 D
/// a s d f   ->   7 8 9 E
/// z x c v        A 0 B F
/// ```
///
/// Upper and lower case letters map alike.
pub open spec fn keypad_digit(key: char) -> Option<u8> {
    if key == '1' {
        Some(0x1u8)
    } else if key == '2' {
        Some(0x2u8)
    } else if key == '3' {
        Some(0x3u8)
    } else if key == '4' {
        Some(0xCu8)
    } else if key == 'q' || key == 'Q' {
        Some(0x4u8)
    } else if key == 'w' || key == 'W' {
        Some(0x5u8)
    } else if key == 'e' || key == 'E' {
        Some(0x6u8)
    } else if key == 'r' || key == 'R' {
        Some(0xDu8)
    } else if key == 'a' || key == 'A' {
        Some(0x7u8)
    } else if key == 's' || key == 'S' {
        Some(0x8u8)
    } else if key == 'd' || key == 'D' {
        Some(0x9u8)
    } else if key == 'f' || key == 'F' {
        Some(0xEu8)
    } else if key == 'z' || key == 'Z' {
        Some(0xAu8)
    } else if key == 'x' || key == 'X' {
        Some(0x0u8)
    } else if key == 'c' || key == 'C' {
        Some(0xBu8)
    } else if key == 'v' || key == 'V' {
        Some(0xFu8)
    } else {
        None
    }
}

/// A CHIP-8 machine together with the random number generator that its
/// random instruction draws from.
pub struct Interpreter {
    pub machine: Machine,
    pub rng: SmallRng,
}

impl Interpreter {
    /// An interpreter with `program` loaded, and a generator seeded with `seed`.
    pub fn new(program: Vec<u8>, seed: u64) -> (r: Result<Self, Error>)
        ensures
            r is Ok <==> program@.len() <= MAX_PROGRAM_SIZE,
            program@.len() > MAX_PROGRAM_SIZE <==> r == Err::<Self, Error>(
                Error::ProgramTooLarge { size: program@.len() as usize },
            ),
            r matches Ok(it) ==> it.machine@ == initial_state(program@),
    {
        match Machine::new(program.as_slice()) {
            Ok(machine) => Ok(Interpreter { machine, rng: seeded_rng(seed) }),
            Err(e) => Err(e),
        }
    }

    /// Runs one cycle of the machine with `key` held down, if any. A random
    /// byte is drawn where the instruction at the program counter asks for one.
    pub fn step(&mut self, key: Option<u8>) -> (r: Result<Effect, Error>)
        ensures
            exists|random: u8| step_spec(old(self).machine@, key, random) == match r {
                Ok(e) => Ok((final(self).machine@, e@)),
                Err(e) => Err::<(MachineState, EffectView), Error>(e),
            },
            r is Err ==> final(self).machine@ == old(self).machine@,
    {
        let random = match self.machine.get_bytes() {
            Some((byte1, _)) => if byte1 >> 4 == 0xC {
                random_byte(&mut self.rng)
            } else {
                0
            },
            None => 0,
        };
        let r = self.machine.step(key, random);
        assert(step_spec(old(self).machine@, key, random) == match r {
            Ok(e) => Ok((self.machine@, e@)),
            Err(e) => Err::<(MachineState, EffectView), Error>(e),
        });
        r
    }

    /// The word that two bytes make, big-endian: the first byte is the high one.
    pub fn get_instruction(byte1: u8, byte2: u8) -> (r: u16)
        ensures
            r == crate::instruction::word_of(byte1, byte2),
    {
        crate::instruction::get_instruction(byte1, byte2)
    }

    /// The hex digit that a key of the host keyboard stands for, if any.
    pub fn convert_key(key: char) -> (r: Option<u8>)
        ensures
            r == keypad_digit(key),
    {
        match key {
            '1' => Some(0x1),
            '2' => Some(0x2),
            '3' => Some(0x3),
            '4' => Some(0xC),
            'q' | 'Q' => Some(0x4),
            'w' | 'W' => Some(0x5),
            'e' | 'E' => Some(0x6),
            'r' | 'R' => Some(0xD),
            'a' | 'A' => Some(0x7),
            's' | 'S' => Some(0x8),
            'd' | 'D' => Some(0x9),
            'f' | 'F' => Some(0xE),
            'z' | 'Z' => Some(0xA),
            'x' | 'X' => Some(0x0),
            'c' | 'C' => Some(0xB),
            'v' | 'V' => Some(0xF),
            _ => None,
        }
    }
}

} // verus!
