use vstd::prelude::*;
use crate::display::{collides, drawn, sprite_cells, Display};
use crate::instruction::{decode, get_instruction, spec_decode, word_of, Instruction};

verus! {

/// Bytes of memory.
pub const MEMORY_SIZE: usize = 4096;

/// Where a program is loaded, and where execution starts.
pub const PROGRAM_START: u16 = 0x200;

/// The longest program that fits in memory.
pub const MAX_PROGRAM_SIZE: usize = 3584;

/// Bytes per glyph of the built-in font.
pub const GLYPH_BYTES: u16 = 5;

/// The index of the flag register, VF.
pub const FLAG: usize = 15;

/// The built-in 4x5 font: sixteen glyphs for the hex digits 0 to F, five
/// rows each, stored from address 0.
pub const FONT: [u8; 80] = [
    0xF0, 0x90, 0x90, 0x90, 0xF0, // 0
    0x30, 0x50, 0x90, 0x10, 0x10, // 1
    0x70, 0x90, 0x30, 0x40, 0xF0, // 2
    0x60, 0x90, 0x30, 0x90, 0x60, // 3
    0x90, 0x90, 0xF0, 0x10, 0x10, // 4
    0xF0, 0x80, 0xE0, 0x10, 0xE0, // 5
    0x70, 0x80, 0xE0, 0x90, 0x60, // 6
    0xF0, 0x10, 0x20, 0x40, 0x40, // 7
    0x60, 0x90, 0x60, 0x90, 0x60, // 8
    0x60, 0x90, 0x70, 0x10, 0x60, // 9
    0x60, 0x90, 0xF0, 0x90, 0x90, // A
    0xE0, 0x90, 0xE0, 0x90, 0xE0, // B
    0x60, 0x90, 0x80, 0x90, 0x60, // C
    0xE0, 0x90, 0x90, 0x90, 0xE0, // D
    0xF0, 0x80, 0xF0, 0x80, 0xF0, // E
    0xF0, 0x80, 0xF0, 0x80, 0x80, // F
];

/// Why a program cannot be loaded or run on.
#[derive(Debug, PartialEq, Eq, Structural, Clone, Copy)]
pub enum Error {
    /// The program has more bytes than fit in memory from the load address on.
    ProgramTooLarge { size: usize },
    /// A word encodes no instruction; `previous` is the one executed before it.
    UnknownInstruction { instruction: u16, previous: Option<u16> },
    /// A return with no call to return from.
    StackUnderflow,
    /// An instruction reads or writes memory past its end.
    AddressOutOfRange,
}

/// What the surroundings of the machine have to do after one step.
#[derive(Debug, PartialEq, Eq)]
pub enum Effect {
    /// Nothing.
    Nothing,
    /// The display was cleared: redraw all of it.
    Cleared,
    /// A sprite was drawn: redraw these cells, given as `(x, y)`.
    Drawn(Vec<(u8, u8)>),
    /// Execution waits for a key press, which goes to register `x` (see `deliver_key`).
    AwaitKey(u8),
    /// The program counter has run past the end of memory: the program is over.
    Halted,
}

pub enum EffectView {
    Nothing,
    Cleared,
    Drawn(Seq<(u8, u8)>),
    AwaitKey(u8),
    Halted,
}

impl View for Effect {
    type V = EffectView;

    open spec fn view(&self) -> EffectView {
        match self {
            Effect::Nothing => EffectView::Nothing,
            Effect::Cleared => EffectView::Cleared,
            Effect::Drawn(cells) => EffectView::Drawn(cells@),
            Effect::AwaitKey(x) => EffectView::AwaitKey(*x),
            Effect::Halted => EffectView::Halted,
        }
    }
}

/// The state of the machine as values.
pub struct MachineState {
    pub pc: u16,
    pub registers: Seq<u8>,
    pub i: u16,
    pub stack: Seq<u16>,
    pub memory: Seq<u8>,
    pub pixels: Seq<bool>,
    pub delay_timer: u8,
    pub sound_timer: u8,
    pub previous: Option<u16>,
}

/// The CHIP-8 machine: memory, registers, call stack, framebuffer and timers.
pub struct Machine {
    /// The program counter: where the next instruction is read.
    pub pc: u16,
    /// The general purpose registers V0 to VF; VF doubles as the flag register.
    pub registers: [u8; 16],
    /// The address register.
    pub i: u16,
    /// Return addresses of the subroutines that were called.
    pub stack: Vec<u16>,
    pub memory: [u8; MEMORY_SIZE],
    pub display: Display,
    /// Counts down once per executed instruction until it reaches 0.
    pub delay_timer: u8,
    /// Counts down once per executed instruction until it reaches 0.
    pub sound_timer: u8,
    /// The instruction executed last.
    pub previous: Option<u16>,
}

impl View for Machine {
    type V = MachineState;

    open spec fn view(&self) -> MachineState {
        MachineState {
            pc: self.pc,
            registers: self.registers@,
            i: self.i,
            stack: self.stack@,
            memory: self.memory@,
            pixels: self.display@,
            delay_timer: self.delay_timer,
            sound_timer: self.sound_timer,
            previous: self.previous,
        }
    }
}

/// The memory of a machine that was loaded with `program`.
pub open spec fn loaded_memory(program: Seq<u8>) -> Seq<u8> {
    Seq::new(
        4096,
        |k: int|
            if k < 80 {
                FONT@[k]
            } else if 512 <= k < 512 + program.len() {
                program[k - 512]
            } else {
                0u8
            },
    )
}

/// The counter one instruction further on, in sixteen bits.
pub open spec fn skipped(pc: u16) -> u16 {
    ((pc + 2) % 65536) as u16
}

/// The state with the program counter past the next instruction where `condition` holds.
pub open spec fn skip_if(s: MachineState, condition: bool) -> MachineState {
    if condition {
        MachineState { pc: skipped(s.pc), ..s }
    } else {
        s
    }
}

/// The state with register `x` set to `value`.
pub open spec fn set_reg(s: MachineState, x: u8, value: u8) -> MachineState {
    MachineState { registers: s.registers.update(x as int, value), ..s }
}

/// The state with register `x` set to `value` and then the flag register to `flag`.
pub open spec fn set_reg_then_flag(s: MachineState, x: u8, value: u8, flag: bool) -> MachineState {
    MachineState { registers: s.registers.update(x as int, value).update(15, if flag { 1u8 } else { 0u8 }), ..s }
}

/// The state with the flag register set to the least significant bit of
/// register `x`, and then register `x` to `value`.
pub open spec fn set_flag_then_reg(s: MachineState, x: u8, value: u8) -> MachineState {
    MachineState { registers: s.registers.update(15, (s.registers[x as int] % 2) as u8).update(x as int, value), ..s }
}

/// The decimal digits of `v`: hundreds, tens, ones.
pub open spec fn bcd(v: u8) -> Seq<u8> {
    seq![(v / 100) as u8, ((v / 10) % 10) as u8, (v % 10) as u8]
}

/// The state after the decimal digits of register `x` are stored at I.
pub open spec fn stored_bcd(s: MachineState, x: u8) -> MachineState {
    let d = bcd(s.registers[x as int]);
    MachineState { memory: s.memory.update(s.i as int, d[0]).update(s.i + 1, d[1]).update(s.i + 2, d[2]), ..s }
}

/// The state after registers V0 to `Vx` are stored in memory from I on.
pub open spec fn stored_registers(s: MachineState, x: u8) -> MachineState {
    MachineState {
        memory: Seq::new(4096, |k: int| if s.i <= k <= s.i + x { s.registers[k - s.i] } else { s.memory[k] }),
        ..s
    }
}

/// The state after registers V0 to `Vx` are loaded from memory from I on.
pub open spec fn loaded_registers(s: MachineState, x: u8) -> MachineState {
    MachineState {
        registers: Seq::new(16, |k: int| if k <= x { s.memory[s.i + k] } else { s.registers[k] }),
        ..s
    }
}

/// The rows of the sprite of `height` rows at address I.
pub open spec fn sprite_rows(s: MachineState, height: u8) -> Seq<u8> {
    s.memory.subrange(s.i as int, s.i + height)
}

/// The state after the sprite of `height` rows at I is drawn at the
/// coordinates in registers `x` and `y`, with the flag register telling
/// whether a pixel went off.
pub open spec fn drew_sprite(s: MachineState, x: u8, y: u8, height: u8) -> MachineState {
    let rows = sprite_rows(s, height);
    let x0 = s.registers[x as int] as int;
    let y0 = s.registers[y as int] as int;
    MachineState {
        pixels: drawn(s.pixels, rows, x0, y0),
        registers: s.registers.update(15, if collides(s.pixels, rows, x0, y0) { 1u8 } else { 0u8 }),
        ..s
    }
}

/// What executing `ins` does to `s`, once the program counter has moved past
/// it. `key` is the key held down, if any; `random` is the byte that a
/// random draw gave.
pub open spec fn execute_spec(s: MachineState, ins: Instruction, key: Option<u8>, random: u8) -> Result<(MachineState, EffectView), Error> {
    let r = s.registers;
    match ins {
        Instruction::System(_) => Ok((s, EffectView::Nothing)),
        Instruction::ClearDisplay => Ok((MachineState { pixels: Seq::new(2048, |k: int| false), ..s }, EffectView::Cleared)),
        Instruction::Return => if s.stack.len() == 0 {
            Err(Error::StackUnderflow)
        } else {
            Ok((MachineState { pc: s.stack.last(), stack: s.stack.drop_last(), ..s }, EffectView::Nothing))
        },
        Instruction::Jump(a) => Ok((MachineState { pc: a, ..s }, EffectView::Nothing)),
        Instruction::Call(a) => Ok((MachineState { pc: a, stack: s.stack.push(s.pc), ..s }, EffectView::Nothing)),
        Instruction::SkipIfEqual { x, value } => Ok((skip_if(s, r[x as int] == value), EffectView::Nothing)),
        Instruction::SkipIfNotEqual { x, value } => Ok((skip_if(s, r[x as int] != value), EffectView::Nothing)),
        Instruction::SkipIfRegistersEqual { x, y } => Ok((skip_if(s, r[x as int] == r[y as int]), EffectView::Nothing)),
        Instruction::SetRegister { x, value } => Ok((set_reg(s, x, value), EffectView::Nothing)),
        Instruction::AddToRegister { x, value } => Ok((set_reg(s, x, ((r[x as int] + value) % 256) as u8), EffectView::Nothing)),
        Instruction::Copy { x, y } => Ok((set_reg(s, x, r[y as int]), EffectView::Nothing)),
        Instruction::Or { x, y } => Ok((set_reg(s, x, r[x as int] | r[y as int]), EffectView::Nothing)),
        Instruction::And { x, y } => Ok((set_reg(s, x, r[x as int] & r[y as int]), EffectView::Nothing)),
        Instruction::Xor { x, y } => Ok((set_reg(s, x, r[x as int] ^ r[y as int]), EffectView::Nothing)),
        Instruction::Add { x, y } => Ok((set_reg_then_flag(s, x, ((r[x as int] + r[y as int]) % 256) as u8, r[x as int] + r[y as int] > 255), EffectView::Nothing)),
        Instruction::Sub { x, y } => Ok((set_reg_then_flag(s, x, ((r[x as int] - r[y as int]) % 256) as u8, r[x as int] >= r[y as int]), EffectView::Nothing)),
        Instruction::ShiftRight { x } => Ok((set_flag_then_reg(s, x, r[x as int] / 2), EffectView::Nothing)),
        Instruction::SubReversed { x, y } => Ok((set_reg_then_flag(s, x, ((r[y as int] - r[x as int]) % 256) as u8, r[y as int] >= r[x as int]), EffectView::Nothing)),
        Instruction::ShiftLeft { x } => Ok((set_flag_then_reg(s, x, ((r[x as int] * 2) % 256) as u8), EffectView::Nothing)),
        Instruction::SkipIfRegistersDiffer { x, y } => Ok((skip_if(s, r[x as int] != r[y as int]), EffectView::Nothing)),
        Instruction::SetAddress(a) => Ok((MachineState { i: a, ..s }, EffectView::Nothing)),
        Instruction::JumpWithOffset(a) => Ok((MachineState { pc: ((r[0] + a) % 65536) as u16, ..s }, EffectView::Nothing)),
        Instruction::Random { x, mask } => Ok((set_reg(s, x, random & mask), EffectView::Nothing)),
        Instruction::Draw { x, y, height } => if s.i + height > 4096 {
            Err(Error::AddressOutOfRange)
        } else {
            Ok((
                drew_sprite(s, x, y, height),
                EffectView::Drawn(sprite_cells(sprite_rows(s, height), r[x as int] as int, r[y as int] as int, 0)),
            ))
        },
        Instruction::SkipIfKey { x } => Ok((skip_if(s, key matches Some(k) && k == r[x as int]), EffectView::Nothing)),
        Instruction::SkipIfNotKey { x } => Ok((skip_if(s, key matches Some(k) && k != r[x as int]), EffectView::Nothing)),
        Instruction::ReadDelayTimer { x } => Ok((set_reg(s, x, s.delay_timer), EffectView::Nothing)),
        Instruction::AwaitKey { x } => Ok((s, EffectView::AwaitKey(x))),
        Instruction::SetDelayTimer { x } => Ok((MachineState { delay_timer: r[x as int], ..s }, EffectView::Nothing)),
        Instruction::SetSoundTimer { x } => Ok((MachineState { sound_timer: r[x as int], ..s }, EffectView::Nothing)),
        Instruction::AddToAddress { x } => Ok((MachineState { i: ((s.i + r[x as int]) % 65536) as u16, ..s }, EffectView::Nothing)),
        Instruction::SetGlyph { x } => Ok((MachineState { i: (r[x as int] * 5) as u16, ..s }, EffectView::Nothing)),
        Instruction::StoreBcd { x } => if s.i + 3 > 4096 {
            Err(Error::AddressOutOfRange)
        } else {
            Ok((stored_bcd(s, x), EffectView::Nothing))
        },
        Instruction::StoreRegisters { x } => if s.i + x + 1 > 4096 {
            Err(Error::AddressOutOfRange)
        } else {
            Ok((stored_registers(s, x), EffectView::Nothing))
        },
        Instruction::LoadRegisters { x } => if s.i + x + 1 > 4096 {
            Err(Error::AddressOutOfRange)
        } else {
            Ok((loaded_registers(s, x), EffectView::Nothing))
        },
    }
}

/// The word at the program counter, if both of its bytes are in memory.
pub open spec fn fetched(s: MachineState) -> Option<u16> {
    if s.pc + 1 < 4096 {
        Some(word_of(s.memory[s.pc as int], s.memory[s.pc + 1]))
    } else {
        None
    }
}

/// The state after both timers count down by one, stopping at zero.
pub open spec fn ticked(s: MachineState) -> MachineState {
    MachineState {
        delay_timer: if s.delay_timer > 0 { (s.delay_timer - 1) as u8 } else { 0 },
        sound_timer: if s.sound_timer > 0 { (s.sound_timer - 1) as u8 } else { 0 },
        ..s
    }
}

/// One cycle: fetch the word at the program counter, decode it, move the
/// counter past it, execute it, and tick the timers. A counter past the end
/// of memory halts the machine.
pub open spec fn step_spec(s: MachineState, key: Option<u8>, random: u8) -> Result<(MachineState, EffectView), Error> {
    match fetched(s) {
        None => Ok((s, EffectView::Halted)),
        Some(word) => match spec_decode(word) {
            None => Err(Error::UnknownInstruction { instruction: word, previous: s.previous }),
            Some(ins) => match execute_spec(MachineState { pc: (s.pc + 2) as u16, ..s }, ins, key, random) {
                Err(e) => Err(e),
                Ok((t, effect)) => Ok((MachineState { previous: Some(word), ..ticked(t) }, effect)),
            },
        },
    }
}

/// The state of a machine that was loaded with `program`, before it runs.
pub open spec fn initial_state(program: Seq<u8>) -> MachineState {
    MachineState {
        pc: 0x200,
        registers: Seq::new(16, |k: int| 0u8),
        i: 0,
        stack: Seq::empty(),
        memory: loaded_memory(program),
        pixels: Seq::new(2048, |k: int| false),
        delay_timer: 0,
        sound_timer: 0,
        previous: None,
    }
}

impl Machine {
    /// A machine with the font and `program` in memory, ready to run it.
    pub fn new(program: &[u8]) -> (r: Result<Self, Error>)
        ensures
            r is Ok <==> program@.len() <= MAX_PROGRAM_SIZE,
            program@.len() > MAX_PROGRAM_SIZE <==> r == Err::<Self, Error>(
                Error::ProgramTooLarge { size: program@.len() as usize },
            ),
            r matches Ok(m) ==> m@ == initial_state(program@),
    {
        if program.len() > MAX_PROGRAM_SIZE {
            return Err(Error::ProgramTooLarge { size: program.len() });
        }
        let mut memory = [0u8; MEMORY_SIZE];
        let font = FONT;
        let mut k: usize = 0;
        while k < 80
            invariant
                k <= 80,
                font@ == FONT@,
                forall|j: int| 0 <= j < k ==> memory@[j] == FONT@[j],
                forall|j: int| 80 <= j < 4096 ==> memory@[j] == 0u8,
            decreases 80 - k,
        {
            memory[k] = font[k];
            k = k + 1;
        }
        let mut k: usize = 0;
        while k < program.len()
            invariant
                k <= program@.len() <= MAX_PROGRAM_SIZE,
                forall|j: int| 0 <= j < 80 ==> memory@[j] == FONT@[j],
                forall|j: int| 512 <= j < 512 + k ==> memory@[j] == program@[j - 512],
                forall|j: int| 80 <= j < 4096 && !(512 <= j < 512 + k) ==> memory@[j] == 0u8,
            decreases program@.len() - k,
        {
            memory[PROGRAM_START as usize + k] = program[k];
            k = k + 1;
        }
        let m = Machine {
            pc: PROGRAM_START,
            registers: [0u8; 16],
            i: 0,
            stack: Vec::new(),
            memory,
            display: Display::new(),
            delay_timer: 0,
            sound_timer: 0,
            previous: None,
        };
        assert(m.memory@ =~= loaded_memory(program@));
        assert(m.registers@ =~= Seq::new(16, |k: int| 0u8));
        assert(m.stack@ =~= Seq::<u16>::empty());
        Ok(m)
    }

    /// Moves the program counter past the next instruction if `condition` holds.
    fn skip_next_instruction_if(&mut self, condition: bool)
        ensures
            final(self)@ == skip_if(old(self)@, condition),
    {
        if condition {
            self.pc = self.pc.wrapping_add(2);
        }
    }

    /// Returns from a subroutine to the address on top of the stack.
    fn return_from_call(&mut self) -> (r: Result<(), Error>)
        ensures
            execute_spec(old(self)@, Instruction::Return, None, 0) == match r {
                Ok(_) => Ok((final(self)@, EffectView::Nothing)),
                Err(e) => Err::<(MachineState, EffectView), Error>(e),
            },
            r is Err ==> final(self)@ == old(self)@,
    {
        match self.stack.pop() {
            Some(address) => {
                self.pc = address;
                Ok(())
            },
            None => Err(Error::StackUnderflow),
        }
    }

    /// `Vx := Vx + Vy`; the flag register tells whether the sum overflowed.
    fn add_registers(&mut self, x: u8, y: u8)
        requires
            x < 16,
            y < 16,
        ensures
            execute_spec(old(self)@, Instruction::Add { x, y }, None, 0) == Ok::<(MachineState, EffectView), Error>((final(self)@, EffectView::Nothing)),
    {
        let a = self.registers[x as usize];
        let b = self.registers[y as usize];
        let overflow = a > 255 - b;
        self.registers[x as usize] = a.wrapping_add(b);
        self.registers[FLAG] = if overflow { 1 } else { 0 };
    }

    /// `Vx := Vx - Vy`; the flag register is 1 where no borrow occurred.
    fn sub_registers1(&mut self, x: u8, y: u8)
        requires
            x < 16,
            y < 16,
        ensures
            execute_spec(old(self)@, Instruction::Sub { x, y }, None, 0) == Ok::<(MachineState, EffectView), Error>((final(self)@, EffectView::Nothing)),
    {
        let a = self.registers[x as usize];
        let b = self.registers[y as usize];
        let borrow = a < b;
        self.registers[x as usize] = a.wrapping_sub(b);
        self.registers[FLAG] = if borrow { 0 } else { 1 };
    }

    /// `Vx := Vy - Vx`; the flag register is 1 where no borrow occurred.
    fn sub_registers2(&mut self, x: u8, y: u8)
        requires
            x < 16,
            y < 16,
        ensures
            execute_spec(old(self)@, Instruction::SubReversed { x, y }, None, 0) == Ok::<(MachineState, EffectView), Error>((final(self)@, EffectView::Nothing)),
    {
        let a = self.registers[x as usize];
        let b = self.registers[y as usize];
        let borrow = b < a;
        self.registers[x as usize] = b.wrapping_sub(a);
        self.registers[FLAG] = if borrow { 0 } else { 1 };
    }

    /// The flag register takes the least significant bit of `Vx`, then `Vx` is shifted right by one.
    fn shift_register_right(&mut self, x: u8)
        requires
            x < 16,
        ensures
            execute_spec(old(self)@, Instruction::ShiftRight { x }, None, 0) == Ok::<(MachineState, EffectView), Error>((final(self)@, EffectView::Nothing)),
    {
        let value = self.registers[x as usize];
        self.registers[FLAG] = value & 1;
        self.registers[x as usize] = value >> 1;
        assert(value & 1 == value % 2 && value >> 1 == value / 2) by (bit_vector);
    }

    /// The flag register takes the least significant bit of `Vx`, then `Vx` is shifted left by one.
    fn shift_register_left(&mut self, x: u8)
        requires
            x < 16,
        ensures
            execute_spec(old(self)@, Instruction::ShiftLeft { x }, None, 0) == Ok::<(MachineState, EffectView), Error>((final(self)@, EffectView::Nothing)),
    {
        let value = self.registers[x as usize];
        self.registers[FLAG] = value & 1;
        self.registers[x as usize] = value << 1;
        assert(value & 1 == value % 2) by (bit_vector);
        assert((value << 1) as int == (value * 2) % 256) by (bit_vector);
    }

    /// Skips the next instruction if a key is held and it equals `Vx`.
    fn key_equality_skip(&mut self, x: u8, key: Option<u8>)
        requires
            x < 16,
        ensures
            execute_spec(old(self)@, Instruction::SkipIfKey { x }, key, 0) == Ok::<(MachineState, EffectView), Error>((final(self)@, EffectView::Nothing)),
    {
        if let Some(key) = key {
            let value = self.registers[x as usize];
            self.skip_next_instruction_if(key == value);
        }
    }

    /// Skips the next instruction if a key is held and it differs from `Vx`.
    fn key_inequality_skip(&mut self, x: u8, key: Option<u8>)
        requires
            x < 16,
        ensures
            execute_spec(old(self)@, Instruction::SkipIfNotKey { x }, key, 0) == Ok::<(MachineState, EffectView), Error>((final(self)@, EffectView::Nothing)),
    {
        if let Some(key) = key {
            let value = self.registers[x as usize];
            self.skip_next_instruction_if(key != value);
        }
    }

    /// Draws the sprite of `height` rows at address I, at the coordinates in
    /// `Vx` and `Vy`; the flag register tells whether a pixel went off.
    fn draw_sprite(&mut self, x: u8, y: u8, height: u8) -> (r: Result<Vec<(u8, u8)>, Error>)
        requires
            x < 16,
            y < 16,
            height < 16,
        ensures
            r is Ok <==> old(self).i + height <= 4096,
            r matches Ok(cells) ==> final(self)@ == drew_sprite(old(self)@, x, y, height) && cells@ == sprite_cells(
                sprite_rows(old(self)@, height),
                old(self).registers@[x as int] as int,
                old(self).registers@[y as int] as int,
                0,
            ),
            r is Err ==> r == Err::<Vec<(u8, u8)>, Error>(Error::AddressOutOfRange) && final(self)@ == old(self)@,
    {
        let start = self.i as usize;
        let height = height as usize;
        if start + height > MEMORY_SIZE {
            return Err(Error::AddressOutOfRange);
        }
        let mut rows: Vec<u8> = Vec::new();
        let mut k: usize = 0;
        while k < height
            invariant
                k <= height,
                start + height <= 4096,
                rows@ == self.memory@.subrange(start as int, start + k),
            decreases height - k,
        {
            rows.push(self.memory[start + k]);
            k = k + 1;
            assert(rows@ =~= self.memory@.subrange(start as int, start + k));
        }
        let vx = self.registers[x as usize];
        let vy = self.registers[y as usize];
        let (collision, cells) = self.display.draw_sprite(vx, vy, rows.as_slice());
        self.registers[FLAG] = if collision { 1 } else { 0 };
        Ok(cells)
    }

    /// Stores the decimal digits of `Vx` at I, I + 1 and I + 2.
    fn set_address_register_to_bcd(&mut self, x: u8) -> (r: Result<(), Error>)
        requires
            x < 16,
        ensures
            r is Ok <==> !(old(self).i + 3 > 4096),
            r is Ok ==> final(self)@ == stored_bcd(old(self)@, x),
            r is Err ==> r == Err::<(), Error>(Error::AddressOutOfRange) && final(self)@ == old(self)@,
    {
        let i = self.i as usize;
        if i + 3 > MEMORY_SIZE {
            return Err(Error::AddressOutOfRange);
        }
        let value = self.registers[x as usize];
        self.memory[i] = value / 100;
        self.memory[i + 1] = value / 10 % 10;
        self.memory[i + 2] = value % 10;
        Ok(())
    }

    /// Stores the registers V0 to `Vx` in memory from address I on.
    fn store_registers(&mut self, x: u8) -> (r: Result<(), Error>)
        requires
            x < 16,
        ensures
            r is Ok <==> !(old(self).i + x + 1 > 4096),
            r is Ok ==> final(self)@ == stored_registers(old(self)@, x),
            r is Err ==> r == Err::<(), Error>(Error::AddressOutOfRange) && final(self)@ == old(self)@,
    {
        let i = self.i as usize;
        if i + x as usize + 1 > MEMORY_SIZE {
            return Err(Error::AddressOutOfRange);
        }
        let ghost before = self.memory@;
        let ghost s0 = self@;
        let mut k: usize = 0;
        while k <= x as usize
            invariant
                x < 16,
                k <= x + 1,
                before == s0.memory,
                before.len() == 4096,
                self@ == (MachineState { memory: self.memory@, ..s0 }),
                i + x + 1 <= 4096,
                i == self.i,
                forall|j: int| 0 <= j < 4096 ==> self.memory@[j] == if i <= j < i + k { self.registers@[j - i] } else { before[j] },
            decreases x + 1 - k,
        {
            self.memory[i + k] = self.registers[k];
            k = k + 1;
        }
        assert(self.memory@ =~= stored_registers(s0, x).memory);
        Ok(())
    }

    /// Loads the registers V0 to `Vx` from memory from address I on.
    fn store_memory(&mut self, x: u8) -> (r: Result<(), Error>)
        requires
            x < 16,
        ensures
            r is Ok <==> !(old(self).i + x + 1 > 4096),
            r is Ok ==> final(self)@ == loaded_registers(old(self)@, x),
            r is Err ==> r == Err::<(), Error>(Error::AddressOutOfRange) && final(self)@ == old(self)@,
    {
        let i = self.i as usize;
        if i + x as usize + 1 > MEMORY_SIZE {
            return Err(Error::AddressOutOfRange);
        }
        let ghost before = self.registers@;
        let ghost s0 = self@;
        let mut k: usize = 0;
        while k <= x as usize
            invariant
                x < 16,
                k <= x + 1,
                before == s0.registers,
                self@ == (MachineState { registers: self.registers@, ..s0 }),
                i + x + 1 <= 4096,
                i == self.i,
                before.len() == 16,
                forall|j: int| 0 <= j < 16 ==> self.registers@[j] == if j < k { self.memory@[i + j] } else { before[j] },
            decreases x + 1 - k,
        {
            self.registers[k] = self.memory[i + k];
            k = k + 1;
        }
        assert(self.registers@ =~= loaded_registers(s0, x).registers);
        Ok(())
    }

    /// Executes an instruction that clears the display or sets the program counter.
    #[verifier::rlimit(80)]
    fn execute_jump(&mut self, ins: Instruction, key: Option<u8>, random: u8) -> (r: Result<Effect, Error>)
        requires
            ins.wf(),
            ins is System || ins is ClearDisplay || ins is Return || ins is Jump || ins is Call
                || ins is JumpWithOffset,
        ensures
            execute_spec(old(self)@, ins, key, random) == match r {
                Ok(e) => Ok((final(self)@, e@)),
                Err(e) => Err::<(MachineState, EffectView), Error>(e),
            },
            r is Err ==> final(self)@ == old(self)@,
    {
        match ins {
            Instruction::System(_) => {},
            Instruction::ClearDisplay => {
                self.display.clear();
                return Ok(Effect::Cleared);
            },
            Instruction::Return => {
                if let Err(e) = self.return_from_call() {
                    return Err(e);
                }
            },
            Instruction::Jump(address) => self.pc = address,
            Instruction::Call(address) => {
                self.stack.push(self.pc);
                self.pc = address;
            },
            Instruction::JumpWithOffset(address) => {
                self.pc = (self.registers[0] as u16).wrapping_add(address);
            },
            _ => {},
        }
        Ok(Effect::Nothing)
    }

    /// Executes an instruction that may skip the next one.
    #[verifier::rlimit(80)]
    fn execute_skip(&mut self, ins: Instruction, key: Option<u8>, random: u8) -> (r: Result<Effect, Error>)
        requires
            ins.wf(),
            ins is SkipIfEqual || ins is SkipIfNotEqual || ins is SkipIfRegistersEqual
                || ins is SkipIfRegistersDiffer || ins is SkipIfKey || ins is SkipIfNotKey,
        ensures
            execute_spec(old(self)@, ins, key, random) == match r {
                Ok(e) => Ok((final(self)@, e@)),
                Err(e) => Err::<(MachineState, EffectView), Error>(e),
            },
            r is Err ==> final(self)@ == old(self)@,
    {
        match ins {
            Instruction::SkipIfEqual { x, value } => {
                let v = self.registers[x as usize];
                self.skip_next_instruction_if(v == value);
            },
            Instruction::SkipIfNotEqual { x, value } => {
                let v = self.registers[x as usize];
                self.skip_next_instruction_if(v != value);
            },
            Instruction::SkipIfRegistersEqual { x, y } => {
                let equal = self.registers[x as usize] == self.registers[y as usize];
                self.skip_next_instruction_if(equal);
            },
            Instruction::SkipIfRegistersDiffer { x, y } => {
                let differ = self.registers[x as usize] != self.registers[y as usize];
                self.skip_next_instruction_if(differ);
            },
            Instruction::SkipIfKey { x } => self.key_equality_skip(x, key),
            Instruction::SkipIfNotKey { x } => self.key_inequality_skip(x, key),
            _ => {},
        }
        Ok(Effect::Nothing)
    }

    /// Executes an instruction that sets a general purpose register from values alone.
    #[verifier::rlimit(80)]
    fn execute_register(&mut self, ins: Instruction, key: Option<u8>, random: u8) -> (r: Result<Effect, Error>)
        requires
            ins.wf(),
            ins is SetRegister || ins is AddToRegister || ins is Copy || ins is Or || ins is And
                || ins is Xor || ins is Random,
        ensures
            execute_spec(old(self)@, ins, key, random) == match r {
                Ok(e) => Ok((final(self)@, e@)),
                Err(e) => Err::<(MachineState, EffectView), Error>(e),
            },
            r is Err ==> final(self)@ == old(self)@,
    {
        match ins {
            Instruction::SetRegister { x, value } => self.registers[x as usize] = value,
            Instruction::AddToRegister { x, value } => {
                self.registers[x as usize] = self.registers[x as usize].wrapping_add(value);
            },
            Instruction::Copy { x, y } => self.registers[x as usize] = self.registers[y as usize],
            Instruction::Or { x, y } => {
                self.registers[x as usize] = self.registers[x as usize] | self.registers[y as usize];
            },
            Instruction::And { x, y } => {
                self.registers[x as usize] = self.registers[x as usize] & self.registers[y as usize];
            },
            Instruction::Xor { x, y } => {
                self.registers[x as usize] = self.registers[x as usize] ^ self.registers[y as usize];
            },
            Instruction::Random { x, mask } => self.registers[x as usize] = random & mask,
            _ => {},
        }
        Ok(Effect::Nothing)
    }

    /// Executes an arithmetic instruction that also sets the flag register.
    #[verifier::rlimit(80)]
    fn execute_flagged(&mut self, ins: Instruction, key: Option<u8>, random: u8) -> (r: Result<Effect, Error>)
        requires
            ins.wf(),
            ins is Add || ins is Sub || ins is ShiftRight || ins is SubReversed || ins is ShiftLeft,
        ensures
            execute_spec(old(self)@, ins, key, random) == match r {
                Ok(e) => Ok((final(self)@, e@)),
                Err(e) => Err::<(MachineState, EffectView), Error>(e),
            },
            r is Err ==> final(self)@ == old(self)@,
    {
        match ins {
            Instruction::Add { x, y } => self.add_registers(x, y),
            Instruction::Sub { x, y } => self.sub_registers1(x, y),
            Instruction::ShiftRight { x } => self.shift_register_right(x),
            Instruction::SubReversed { x, y } => self.sub_registers2(x, y),
            Instruction::ShiftLeft { x } => self.shift_register_left(x),
            _ => {},
        }
        Ok(Effect::Nothing)
    }

    /// Executes an instruction that sets the address register.
    #[verifier::rlimit(80)]
    fn execute_address(&mut self, ins: Instruction, key: Option<u8>, random: u8) -> (r: Result<Effect, Error>)
        requires
            ins.wf(),
            ins is SetAddress || ins is AddToAddress || ins is SetGlyph,
        ensures
            execute_spec(old(self)@, ins, key, random) == match r {
                Ok(e) => Ok((final(self)@, e@)),
                Err(e) => Err::<(MachineState, EffectView), Error>(e),
            },
            r is Err ==> final(self)@ == old(self)@,
    {
        match ins {
            Instruction::SetAddress(address) => self.i = address,
            Instruction::AddToAddress { x } => {
                self.i = self.i.wrapping_add(self.registers[x as usize] as u16);
            },
            Instruction::SetGlyph { x } => {
                self.i = self.registers[x as usize] as u16 * GLYPH_BYTES;
            },
            _ => {},
        }
        Ok(Effect::Nothing)
    }

    /// Executes an instruction that reads or writes memory at the address register.
    #[verifier::rlimit(80)]
    fn execute_memory(&mut self, ins: Instruction, key: Option<u8>, random: u8) -> (r: Result<Effect, Error>)
        requires
            ins.wf(),
            ins is Draw || ins is StoreBcd || ins is StoreRegisters || ins is LoadRegisters,
        ensures
            execute_spec(old(self)@, ins, key, random) == match r {
                Ok(e) => Ok((final(self)@, e@)),
                Err(e) => Err::<(MachineState, EffectView), Error>(e),
            },
            r is Err ==> final(self)@ == old(self)@,
    {
        match ins {
            Instruction::Draw { x, y, height } => {
                return match self.draw_sprite(x, y, height) {
                    Ok(cells) => Ok(Effect::Drawn(cells)),
                    Err(e) => Err(e),
                };
            },
            Instruction::StoreBcd { x } => {
                if let Err(e) = self.set_address_register_to_bcd(x) {
                    return Err(e);
                }
            },
            Instruction::StoreRegisters { x } => {
                if let Err(e) = self.store_registers(x) {
                    return Err(e);
                }
            },
            Instruction::LoadRegisters { x } => {
                if let Err(e) = self.store_memory(x) {
                    return Err(e);
                }
            },
            _ => {},
        }
        Ok(Effect::Nothing)
    }

    /// Executes an instruction on the timers or the keypad.
    #[verifier::rlimit(80)]
    fn execute_timers(&mut self, ins: Instruction, key: Option<u8>, random: u8) -> (r: Result<Effect, Error>)
        requires
            ins.wf(),
            ins is ReadDelayTimer || ins is AwaitKey || ins is SetDelayTimer || ins is SetSoundTimer,
        ensures
            execute_spec(old(self)@, ins, key, random) == match r {
                Ok(e) => Ok((final(self)@, e@)),
                Err(e) => Err::<(MachineState, EffectView), Error>(e),
            },
            r is Err ==> final(self)@ == old(self)@,
    {
        match ins {
            Instruction::ReadDelayTimer { x } => self.registers[x as usize] = self.delay_timer,
            Instruction::AwaitKey { x } => return Ok(Effect::AwaitKey(x)),
            Instruction::SetDelayTimer { x } => self.delay_timer = self.registers[x as usize],
            Instruction::SetSoundTimer { x } => self.sound_timer = self.registers[x as usize],
            _ => {},
        }
        Ok(Effect::Nothing)
    }

    /// Executes `ins`, the program counter having already moved past it.
    /// `key` is the key held down, if any, and `random` the byte that a
    /// random draw gave. An error leaves the machine as it was.
    pub fn execute(&mut self, ins: Instruction, key: Option<u8>, random: u8) -> (r: Result<Effect, Error>)
        requires
            ins.wf(),
        ensures
            execute_spec(old(self)@, ins, key, random) == match r {
                Ok(e) => Ok((final(self)@, e@)),
                Err(e) => Err::<(MachineState, EffectView), Error>(e),
            },
            r is Err ==> final(self)@ == old(self)@,
    {
        match ins {
            Instruction::System(_) | Instruction::ClearDisplay | Instruction::Return | Instruction::Jump(_)
            | Instruction::Call(_) | Instruction::JumpWithOffset(_) => self.execute_jump(ins, key, random),
            Instruction::SkipIfEqual { .. } | Instruction::SkipIfNotEqual { .. }
            | Instruction::SkipIfRegistersEqual { .. } | Instruction::SkipIfRegistersDiffer { .. }
            | Instruction::SkipIfKey { .. } | Instruction::SkipIfNotKey { .. } => self.execute_skip(ins, key, random),
            Instruction::SetRegister { .. } | Instruction::AddToRegister { .. } | Instruction::Copy { .. }
            | Instruction::Or { .. } | Instruction::And { .. } | Instruction::Xor { .. }
            | Instruction::Random { .. } => self.execute_register(ins, key, random),
            Instruction::Add { .. } | Instruction::Sub { .. } | Instruction::ShiftRight { .. }
            | Instruction::SubReversed { .. } | Instruction::ShiftLeft { .. } => self.execute_flagged(ins, key, random),
            Instruction::SetAddress(_) | Instruction::AddToAddress { .. }
            | Instruction::SetGlyph { .. } => self.execute_address(ins, key, random),
            Instruction::Draw { .. } | Instruction::StoreBcd { .. } | Instruction::StoreRegisters { .. }
            | Instruction::LoadRegisters { .. } => self.execute_memory(ins, key, random),
            Instruction::ReadDelayTimer { .. } | Instruction::AwaitKey { .. } | Instruction::SetDelayTimer { .. }
            | Instruction::SetSoundTimer { .. } => self.execute_timers(ins, key, random),
        }
    }

    /// The two bytes at the program counter, or `None` at the end of memory.
    pub fn get_bytes(&self) -> (r: Option<(u8, u8)>)
        ensures
            r == if self.pc + 1 < 4096 {
                Some((self.memory@[self.pc as int], self.memory@[self.pc + 1]))
            } else {
                None::<(u8, u8)>
            },
    {
        let pc = self.pc as usize;
        if pc + 1 < MEMORY_SIZE {
            Some((self.memory[pc], self.memory[pc + 1]))
        } else {
            None
        }
    }

    /// Counts both timers down by one, stopping at zero.
    pub fn update_timers(&mut self)
        ensures
            final(self)@ == ticked(old(self)@),
    {
        if self.delay_timer > 0 {
            self.delay_timer = self.delay_timer - 1;
        }
        if self.sound_timer > 0 {
            self.sound_timer = self.sound_timer - 1;
        }
    }

    /// Runs one cycle (see `step_spec`). `key` is the key held down, if any,
    /// and `random` the byte for a random draw. An error leaves the machine
    /// as it was.
    pub fn step(&mut self, key: Option<u8>, random: u8) -> (r: Result<Effect, Error>)
        ensures
            step_spec(old(self)@, key, random) == match r {
                Ok(e) => Ok((final(self)@, e@)),
                Err(e) => Err::<(MachineState, EffectView), Error>(e),
            },
            r is Err ==> final(self)@ == old(self)@,
    {
        let (byte1, byte2) = match self.get_bytes() {
            Some(bytes) => bytes,
            None => return Ok(Effect::Halted),
        };
        let word = get_instruction(byte1, byte2);
        let ins = match decode(word) {
            Some(ins) => ins,
            None => return Err(Error::UnknownInstruction { instruction: word, previous: self.previous }),
        };
        let pc = self.pc;
        self.pc = pc + 2;
        match self.execute(ins, key, random) {
            Ok(effect) => {
                self.update_timers();
                self.previous = Some(word);
                Ok(effect)
            },
            Err(e) => {
                self.pc = pc;
                Err(e)
            },
        }
    }

    /// Ends the wait for a key: register `x` takes the hex digit `key`.
    pub fn deliver_key(&mut self, x: u8, key: u8)
        requires
            x < 16,
        ensures
            final(self)@ == set_reg(old(self)@, x, key),
    {
        self.registers[x as usize] = key;
    }
}

/// Whatever the display showed, a step that executes `00E0` leaves every
/// pixel off.
pub proof fn lemma_clear_blanks_display(s: MachineState, key: Option<u8>, random: u8)
    requires
        fetched(s) == Some(0x00E0u16),
    ensures
        step_spec(s, key, random) matches Ok((t, e)) && e == EffectView::Cleared
            && t.pixels == Seq::new(2048, |k: int| false),
{
}

/// A step that executes `00EE` with nothing on the call stack fails with
/// `StackUnderflow`.
pub proof fn lemma_return_without_call_fails(s: MachineState, key: Option<u8>, random: u8)
    requires
        fetched(s) == Some(0x00EEu16),
        s.stack.len() == 0,
    ensures
        step_spec(s, key, random) == Err::<(MachineState, EffectView), Error>(Error::StackUnderflow),
{
}

} // verus!
