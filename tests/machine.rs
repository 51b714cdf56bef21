use chip8::display::Display;
use chip8::interpreter::Interpreter;
use chip8::machine::{Effect, Error, Machine, MAX_PROGRAM_SIZE, PROGRAM_START};

fn machine(program: &[u8]) -> Machine {
    Machine::new(program).unwrap()
}

fn run_steps(m: &mut Machine, n: usize) {
    for _ in 0..n {
        assert!(m.step(None, 0).is_ok());
    }
}

#[test]
fn add_sets_flag_on_overflow() {
    let mut m = machine(&[0x61, 0xFF, 0x62, 0x01, 0x81, 0x24]);
    run_steps(&mut m, 3);
    assert_eq!(m.registers[1], 0x00);
    assert_eq!(m.registers[0xF], 1);
}

#[test]
fn add_clears_flag_without_overflow() {
    let mut m = machine(&[0x6F, 0x01, 0x61, 0x01, 0x62, 0x01, 0x81, 0x24]);
    run_steps(&mut m, 4);
    assert_eq!(m.registers[1], 0x02);
    assert_eq!(m.registers[0xF], 0);
}

#[test]
fn sub_sets_flag_without_borrow() {
    let mut m = machine(&[0x61, 0x05, 0x62, 0x03, 0x81, 0x25]);
    run_steps(&mut m, 3);
    assert_eq!(m.registers[1], 0x02);
    assert_eq!(m.registers[0xF], 1);
}

#[test]
fn sub_clears_flag_on_borrow() {
    let mut m = machine(&[0x61, 0x03, 0x62, 0x05, 0x81, 0x25]);
    run_steps(&mut m, 3);
    assert_eq!(m.registers[1], 0xFE);
    assert_eq!(m.registers[0xF], 0);
}

#[test]
fn sub_reversed_and_shifts() {
    let mut m = machine(&[0x61, 0x03, 0x62, 0x05, 0x81, 0x27, 0x63, 0x81, 0x83, 0x06, 0x64, 0x81, 0x84, 0x0E]);
    run_steps(&mut m, 3);
    assert_eq!(m.registers[1], 0x02);
    assert_eq!(m.registers[0xF], 1);
    run_steps(&mut m, 2);
    assert_eq!(m.registers[3], 0x40);
    assert_eq!(m.registers[0xF], 1);
    run_steps(&mut m, 2);
    assert_eq!(m.registers[4], 0x02);
    assert_eq!(m.registers[0xF], 1);
}

#[test]
fn add_to_register_wraps_without_flag() {
    let mut m = machine(&[0x61, 0xFF, 0x71, 0x02]);
    run_steps(&mut m, 2);
    assert_eq!(m.registers[1], 0x01);
    assert_eq!(m.registers[0xF], 0);
}

#[test]
fn drawing_twice_restores_pixels() {
    let mut d = Display::new();
    let (hit, cells) = d.draw_sprite(3, 4, &[0b1010_0001]);
    assert!(!hit);
    assert_eq!(cells, vec![(3, 4), (5, 4), (10, 4)]);
    assert!(d.get(3, 4) && !d.get(4, 4) && d.get(5, 4) && d.get(10, 4));
    let (hit, cells) = d.draw_sprite(3, 4, &[0b1010_0001]);
    assert!(hit);
    assert_eq!(cells, vec![(3, 4), (5, 4), (10, 4)]);
    for x in 0..64 {
        for y in 0..32 {
            assert!(!d.get(x, y));
        }
    }
}

#[test]
fn draw_clips_at_the_edges() {
    let mut d = Display::new();
    let (hit, cells) = d.draw_sprite(62, 31, &[0xFF, 0xFF]);
    assert!(!hit);
    assert_eq!(cells, vec![(62, 31), (63, 31)]);
    assert!(d.get(62, 31) && d.get(63, 31));
}

#[test]
fn draw_instruction_sets_collision_flag() {
    // I := 0 (glyph 0), draw it twice at (0, 0).
    let mut m = machine(&[0xA0, 0x00, 0xD0, 0x05, 0xD0, 0x05]);
    m.step(None, 0).unwrap();
    match m.step(None, 0).unwrap() {
        Effect::Drawn(cells) => assert_eq!(cells.len(), 14),
        other => panic!("unexpected effect {:?}", other),
    }
    assert_eq!(m.registers[0xF], 0);
    assert!(m.display.get(0, 0) && m.display.get(3, 0) && !m.display.get(1, 1));
    m.step(None, 0).unwrap();
    assert_eq!(m.registers[0xF], 1);
    assert!(!m.display.get(0, 0));
}

#[test]
fn clear_turns_every_pixel_off() {
    let mut m = machine(&[0xA0, 0x00, 0xD0, 0x05, 0x00, 0xE0]);
    run_steps(&mut m, 2);
    assert!(m.display.get(0, 0));
    assert_eq!(m.step(None, 0), Ok(Effect::Cleared));
    for x in 0..64 {
        for y in 0..32 {
            assert!(!m.display.get(x, y));
        }
    }
}

#[test]
fn return_without_call_is_stack_underflow() {
    let mut m = machine(&[0x00, 0xEE]);
    assert_eq!(m.step(None, 0), Err(Error::StackUnderflow));
    assert_eq!(m.pc, PROGRAM_START);
}

#[test]
fn call_and_return() {
    let mut m = machine(&[0x22, 0x04, 0x00, 0x00, 0x00, 0xEE]);
    m.step(None, 0).unwrap();
    assert_eq!(m.pc, 0x204);
    assert_eq!(m.stack, vec![0x202]);
    m.step(None, 0).unwrap();
    assert_eq!(m.pc, 0x202);
    assert!(m.stack.is_empty());
}

#[test]
fn load_of_largest_program_succeeds() {
    let program = vec![0u8; 4096 - 0x200];
    assert!(Machine::new(&program).is_ok());
    assert!(Interpreter::new(program, 7).is_ok());
}

#[test]
fn load_of_one_byte_more_fails() {
    let program = vec![0u8; 4096 - 0x200 + 1];
    assert_eq!(Machine::new(&program).err(), Some(Error::ProgramTooLarge { size: MAX_PROGRAM_SIZE + 1 }));
    assert!(matches!(Interpreter::new(program, 7), Err(Error::ProgramTooLarge { size: 3585 })));
}

#[test]
fn new_loads_font_and_program() {
    let m = machine(&[0x12, 0x34]);
    assert_eq!(m.pc, 0x200);
    assert_eq!(&m.memory[0..5], &[0xF0, 0x90, 0x90, 0x90, 0xF0]);
    assert_eq!(&m.memory[75..80], &[0xF0, 0x80, 0xF0, 0x80, 0x80]);
    assert_eq!(m.memory[0x200], 0x12);
    assert_eq!(m.memory[0x201], 0x34);
    assert_eq!(m.memory[0x202], 0);
}

#[test]
fn unknown_instruction_names_the_previous_one() {
    let mut m = machine(&[0x60, 0x01, 0x80, 0x08]);
    assert_eq!(m.step(None, 0), Ok(Effect::Nothing));
    assert_eq!(m.step(None, 0), Err(Error::UnknownInstruction { instruction: 0x8008, previous: Some(0x6001) }));
}

#[test]
fn running_off_the_end_halts() {
    let mut m = machine(&[0x1F, 0xFE]);
    m.step(None, 0).unwrap();
    assert_eq!(m.pc, 0xFFE);
    m.step(None, 0).unwrap();
    assert_eq!(m.pc, 0x1000);
    assert_eq!(m.step(None, 0), Ok(Effect::Halted));
}

#[test]
fn bcd_and_register_transfer() {
    // V0 := 254, I := 0x300, BCD, V1 := 7, store V0..V1 at 0x310, load back into V0..V1 from 0x300.
    let mut m = machine(&[0x60, 0xFE, 0xA3, 0x00, 0xF0, 0x33, 0x61, 0x07, 0xA3, 0x10, 0xF1, 0x55, 0xA3, 0x00, 0xF1, 0x65]);
    run_steps(&mut m, 3);
    assert_eq!(&m.memory[0x300..0x303], &[2, 5, 4]);
    run_steps(&mut m, 3);
    assert_eq!(&m.memory[0x310..0x312], &[0xFE, 7]);
    run_steps(&mut m, 2);
    assert_eq!(m.registers[0], 2);
    assert_eq!(m.registers[1], 5);
}

#[test]
fn memory_past_the_end_is_an_error() {
    // I := 0xFFE, BCD of V0.
    let mut m = machine(&[0xAF, 0xFE, 0xF0, 0x33]);
    m.step(None, 0).unwrap();
    assert_eq!(m.step(None, 0), Err(Error::AddressOutOfRange));
    assert_eq!(m.pc, 0x202);
}

#[test]
fn skips_and_keys() {
    // V1 := 5; skip if V1 == 5; (skipped); skip if key == V1; V2 := 9.
    let mut m = machine(&[0x61, 0x05, 0x31, 0x05, 0x00, 0x00, 0xE1, 0x9E, 0x62, 0x09]);
    run_steps(&mut m, 2);
    assert_eq!(m.pc, 0x206);
    m.step(Some(5), 0).unwrap();
    assert_eq!(m.pc, 0x20A);
    let mut m = machine(&[0x61, 0x05, 0xE1, 0xA1, 0x62, 0x09]);
    m.step(None, 0).unwrap();
    m.step(None, 0).unwrap();
    assert_eq!(m.pc, 0x204);
}

#[test]
fn random_is_masked() {
    let mut m = machine(&[0xC3, 0x0F]);
    m.step(None, 0xAB).unwrap();
    assert_eq!(m.registers[3], 0x0B);
}

#[test]
fn timers_count_down_once_per_step() {
    // V0 := 3, delay := V0, sound := V0, V1 := delay.
    let mut m = machine(&[0x60, 0x03, 0xF0, 0x15, 0xF0, 0x18, 0xF1, 0x07]);
    run_steps(&mut m, 3);
    assert_eq!(m.delay_timer, 1);
    assert_eq!(m.sound_timer, 2);
    run_steps(&mut m, 1);
    assert_eq!(m.registers[1], 1);
    assert_eq!(m.delay_timer, 0);
    assert_eq!(m.sound_timer, 1);
}

#[test]
fn await_key_then_deliver() {
    let mut m = machine(&[0xF4, 0x0A]);
    assert_eq!(m.step(None, 0), Ok(Effect::AwaitKey(4)));
    m.deliver_key(4, 0xC);
    assert_eq!(m.registers[4], 0xC);
}

#[test]
fn glyph_address_and_offset_jump() {
    // V0 := 0xA; I := glyph(V0); I += V0; jump to 0x300 + V0.
    let mut m = machine(&[0x60, 0x0A, 0xF0, 0x29, 0xF0, 0x1E, 0xB3, 0x00]);
    run_steps(&mut m, 2);
    assert_eq!(m.i, 50);
    run_steps(&mut m, 1);
    assert_eq!(m.i, 60);
    run_steps(&mut m, 1);
    assert_eq!(m.pc, 0x30A);
}

#[test]
fn interpreter_steps_with_its_generator() {
    let mut it = Interpreter::new(vec![0xC1, 0x00, 0x62, 0x07], 42).unwrap();
    assert_eq!(it.step(None), Ok(Effect::Nothing));
    assert_eq!(it.machine.registers[1], 0);
    assert_eq!(it.step(None), Ok(Effect::Nothing));
    assert_eq!(it.machine.registers[2], 7);
}

#[test]
fn interpreter_random_draws_vary() {
    let mut seen = [false; 256];
    let mut program = Vec::new();
    for _ in 0..64 {
        program.push(0xC1);
        program.push(0xFF);
    }
    let mut it = Interpreter::new(program, 3).unwrap();
    for _ in 0..64 {
        it.step(None).unwrap();
        seen[it.machine.registers[1] as usize] = true;
    }
    assert!(seen.iter().filter(|s| **s).count() > 1);
}

#[test]
fn empty_program_runs_to_a_halt() {
    let mut it = Interpreter::new(vec![], 1).unwrap();
    let mut steps = 0;
    loop {
        match it.step(None).unwrap() {
            Effect::Halted => break,
            effect => assert_eq!(effect, Effect::Nothing),
        }
        steps += 1;
    }
    assert_eq!(steps, (4096 - 0x200) / 2);
    assert_eq!(it.machine.registers, [0; 16]);
}

#[test]
fn loose_key_skip_words_are_fatal() {
    let mut m = machine(&[0xE0, 0x9F]);
    assert_eq!(m.step(Some(0), 0), Err(Error::UnknownInstruction { instruction: 0xE09F, previous: None }));
    assert_eq!(m.pc, 0x200);
}
