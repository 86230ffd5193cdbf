use chip8::cpu::CPU;
use chip8::cpu::Interrupt;
use chip8::errors::VmError;

const MAX_STEPS: usize = 100_000;

fn headless() -> CPU {
    CPU::new(64, 32)
}

#[test]
pub fn ld_test() {
    let mut cpu = headless();
    cpu.execute(0x6142).unwrap(); // LD V1, 0x42
    cpu.execute(0x6224).unwrap(); // LD V2, 0x24
    assert_eq!(Ok(0x42), cpu.regs.v(0x1));
    assert_eq!(Ok(0x24), cpu.regs.v(0x2));

    cpu.execute(0x8210).unwrap(); // LD V2, V1
    assert_eq!(Ok(0x42), cpu.regs.v(0x1));
    assert_eq!(Ok(0x42), cpu.regs.v(0x2));

    cpu.execute(0xA666).unwrap(); // LD I, 0x666
    assert_eq!(0x666, cpu.regs.i);
}

#[test]
pub fn invalid_ret_test() {
    let mut cpu = headless();
    cpu.mem.load_program(&[
        0x00, 0xEE,
    ]).unwrap();

    // a RET on an empty call stack surfaces StackUnderflow; PC is intact
    assert_eq!(Err(VmError::StackUnderflow), cpu.run(true, MAX_STEPS));
    assert_eq!(0x200, cpu.regs.pc);
}

#[test]
pub fn flow_jp_test() {
    let mut cpu = headless();
    cpu.mem.load_program(&[
        0x60, 0x00, // 0200 - LD V0, 0x00
        0x70, 0x01, // 0202 - ADD V0, 0x01
        0x30, 0x0A, // 0204 - SE V0, 0x0A
        0x12, 0x02, // 0206 - JP 0x202
    ]).unwrap();

    cpu.run(true, MAX_STEPS).unwrap();

    assert_eq!(Ok(0x0A), cpu.regs.v(0x0));

    cpu.mem.load_program(&[
        0x60, 0x04, // 0200 - LD V0, 0x04
        0x61, 0x00, // 0202 - LD V1, 0x00
        0x71, 0x01, // 0204 - ADD V1, 0x01
        0x31, 0x0A, // 0206 - SE V1, 0x0A
        0xB2, 0x00, // 0208 - JP V0, 0x200
    ]).unwrap();

    cpu.regs.pc = 0x200;
    cpu.run(true, MAX_STEPS).unwrap();
}

#[test]
pub fn add_test() {
    let mut cpu = headless();
    cpu.mem.load_program(&[
        0x60, 0x03, // LD V0, 0x03
        0x70, 0x07, // ADD V0, 0x07
        0x62, 0x02, // LD V2, 0x02
        0x61, 0xFF, // LD V1, 0xFF
        0x82, 0x14, // ADD V2, V1
    ]).unwrap();

    cpu.run(true, MAX_STEPS).unwrap();

    assert_eq!(Ok(0xA), cpu.regs.v(0x0));
    assert_eq!(Ok(0x1), cpu.regs.v(0x2));
    assert_eq!(Ok(0x1), cpu.regs.v(0xF));
}

#[test]
pub fn subtract_test() {
    let mut cpu = headless();
    cpu.mem.load_program(&[
        0x60, 0x08, // LD V0, 0x08
        0x61, 0x05, // LD V1, 0x05
        0x80, 0x15, // SUB V0, V1
    ]).unwrap();

    cpu.run(true, MAX_STEPS).unwrap();

    assert_eq!(Ok(0x03), cpu.regs.v(0x0));
    assert_eq!(Ok(0x1), cpu.regs.v(0xF));

    cpu.mem.load_program(&[
        0x62, 0x04, // LD V2, 0x04
        0x63, 0x08, // LD V3, 0x08
        0x82, 0x37, // SUBN V2, V3
    ]).unwrap();

    cpu.regs.pc = 0x200;
    cpu.run(true, MAX_STEPS).unwrap();

    // SUBN V2, V3 leaves V3 - V2 = 8 - 4 in V2, and Vy >= Vx sets VF
    assert_eq!(Ok(0x04), cpu.regs.v(0x2));
    assert_eq!(Ok(0x1), cpu.regs.v(0xF));
}

#[test]
pub fn shift_test() {
    let mut cpu = headless();
    cpu.mem.load_program(&[
        0x60, 0x04, // LD V0, 0x04
        0x81, 0x0E, // SHL V1, V0
        0x62, 0x08, // LD V2, 0x08
        0x83, 0x26, // SHR V3, V2
    ]).unwrap();

    cpu.run(true, MAX_STEPS).unwrap();

    assert_eq!(Ok(0x08), cpu.regs.v(0x1));
    assert_eq!(Ok(0x04), cpu.regs.v(0x3));
}

#[test]
pub fn branch_test() {
    let mut cpu = headless();
    cpu.mem.load_program(&[
        0x60, 0x42, // LD V0, 0x42
        0x30, 0x42, // SE V0, 0x42
        0x60, 0x24, // LD V0, 0x24
        0x61, 0x24, // LD V1, 0x24
        0x41, 0x42, // SNE V1, 0x42
        0x61, 0x42, // LD V1, 0x42
        0x62, 0x20, // LD V2, 0x20
        0x90, 0x10, // SNE V0, V1
        0x62, 0x10, // LD V2, 0x10
        0x65, 0x32, // LD V5, 0x32
        0x63, 0x80, // LD V3, 0x80
        0x64, 0x80, // LD V4, 0x80
        0x53, 0x40, // SE V3, V4
        0x65, 0x64, // LD V5, 0x64
    ]).unwrap();

    cpu.run(true, MAX_STEPS).unwrap();

    assert_eq!(Ok(0x42), cpu.regs.v(0));
    assert_eq!(Ok(0x24), cpu.regs.v(1));
    assert_eq!(Ok(0x20), cpu.regs.v(2));
    assert_eq!(Ok(0x32), cpu.regs.v(5));
}

#[test]
pub fn reg_mem_test() {
    let mut cpu = headless();
    cpu.mem.load_program(&[
        0x60, 0x01, // LD V0, 0x01
        0x61, 0x02, // LD V1, 0x02
        0x62, 0x03, // LD V2, 0x03
        0xA0, 0x04, // LD I, 0x004
        0xF2, 0x55, // LD [I], V2
        0x60, 0x00, // LD V0, 0x00
        0x61, 0x00, // LD V1, 0x00
        0x62, 0x00, // LD V2, 0x00
        0xA0, 0x04, // LD I, 0x004
        0xF2, 0x65, // LD V2, [I]
    ]).unwrap();

    cpu.run(true, MAX_STEPS).unwrap();

    assert_eq!(Ok(0x01), cpu.mem.peek(0x004));
    assert_eq!(Ok(0x02), cpu.mem.peek(0x005));
    assert_eq!(Ok(0x03), cpu.mem.peek(0x006));

    assert_eq!(Ok(0x01), cpu.regs.v(0));
    assert_eq!(Ok(0x02), cpu.regs.v(1));
    assert_eq!(Ok(0x03), cpu.regs.v(2));

    assert_eq!(0x007, cpu.regs.i);
}

#[test]
pub fn clear_test() {
    let mut cpu = headless();
    // light some pixels, then run a program that is just CLS
    cpu.env.set_pixel(0, 0, true);
    cpu.env.set_pixel(13, 7, true);
    assert!(cpu.env.pixel(0, 0));

    cpu.mem.load_program(&[
        0x00, 0xE0, // CLS
    ]).unwrap();

    cpu.run(true, MAX_STEPS).unwrap();

    for x in 0..64 {
        for y in 0..32 {
            assert!(!cpu.env.pixel(x, y));
        }
    }
}

#[test]
pub fn ld_char_test() {
    let mut cpu = headless();
    cpu.mem.load_program(&[
        0x60, 0x02, // LD V0, 2
        0xF0, 0x29, // LD F, V0
    ]).unwrap();

    cpu.run(true, MAX_STEPS).unwrap();

    assert_eq!(5 * 2, cpu.regs.i);
}

#[test]
pub fn bcd_test() {
    let mut cpu = headless();
    cpu.mem.load_program(&[
        0x63, 0x80, // LD V3, 128
        0xA4, 0x00, // LD I, 0x400
        0xF3, 0x33, // LD B, V3
    ]).unwrap();

    cpu.run(true, MAX_STEPS).unwrap();

    if let Ok(block) = cpu.mem.block(0x400, 3) {
        assert_eq!(1, block[0]);
        assert_eq!(2, block[1]);
        assert_eq!(8, block[2]);
    } else {
        panic!("cpu.mem.block(0x400, 3) failed");
    }
}

#[test]
pub fn step_test() {
    let mut cpu = headless();
    cpu.mem.load_program(&[
        0x60, 0x42, // LD V0, 0x42
    ]).unwrap();

    cpu.step().unwrap();

    assert_eq!(Ok(0x42), cpu.regs.v(0));
}

#[test]
pub fn run_test() {
    let mut cpu = headless();
    cpu.mem.load_program(&[
        0x60, 0x42, // LD V0, 0x42
        0x61, 0x24, // LD V1, 0x24
        0x62, 0x22, // LD V2, 0x22
        0x63, 0x44, // LD V3, 0x44
    ]).unwrap();

    cpu.run(true, MAX_STEPS).unwrap();

    assert_eq!(Ok(0x42), cpu.regs.v(0));
}

#[test]
pub fn add_immediate_test() {
    let mut cpu = headless();
    cpu.execute(0x6003).unwrap(); // LD V0, 0x03
    cpu.execute(0x7007).unwrap(); // ADD V0, 0x07
    assert_eq!(Ok(0x0A), cpu.regs.v(0x0));
    // ADD Vx, nn never touches the flags register
    assert_eq!(Ok(0x00), cpu.regs.v(0xF));

    // and it wraps modulo 256, still leaving VF alone
    cpu.execute(0x70FF).unwrap(); // ADD V0, 0xFF
    assert_eq!(Ok(0x09), cpu.regs.v(0x0));
    assert_eq!(Ok(0x00), cpu.regs.v(0xF));
}

#[test]
pub fn draw_wraps_test() {
    let mut cpu = headless();
    cpu.execute(0x603E).unwrap(); // LD V0, 62
    cpu.execute(0xA000).unwrap(); // LD I, 0x000: row 0xF0, four set bits
    cpu.execute(0xD011).unwrap(); // DRW V0, V1, 1 at (62, 0)

    // the sprite wraps around the right edge of the 64-wide screen
    assert!(cpu.env.pixel(62, 0));
    assert!(cpu.env.pixel(63, 0));
    assert!(cpu.env.pixel(0, 0));
    assert!(cpu.env.pixel(1, 0));
    assert!(!cpu.env.pixel(2, 0));
    assert_eq!(Ok(0), cpu.regs.v(0xF));
}

#[test]
pub fn draw_collision_test() {
    let mut cpu = headless();
    cpu.execute(0xA000).unwrap(); // LD I, 0x000: the font glyph for 0
    cpu.execute(0xD001).unwrap(); // DRW V0, V0, 1: one row, 0xF0

    // first draw: pixels lit, no collision
    assert_eq!(Ok(0), cpu.regs.v(0xF));
    for x in 0..4 {
        assert!(cpu.env.pixel(x, 0));
    }
    assert!(!cpu.env.pixel(4, 0));

    // drawing the same row again collides and erases it (XOR)
    cpu.execute(0xD001).unwrap();
    assert_eq!(Ok(1), cpu.regs.v(0xF));
    for x in 0..4 {
        assert!(!cpu.env.pixel(x, 0));
    }
}

#[test]
pub fn draw_out_of_range_test() {
    let mut cpu = headless();
    cpu.execute(0xAFFF).unwrap(); // LD I, 0xFFF
    assert_eq!(Err(VmError::OutOfRange), cpu.execute(0xD002));
    // the failed draw changed nothing
    assert_eq!(Ok(0), cpu.regs.v(0xF));
}

#[test]
pub fn await_key_test() {
    let mut cpu = headless();
    cpu.mem.load_program(&[
        0xF5, 0x0A, // LD V5, K
        0x60, 0x01, // LD V0, 0x01
    ]).unwrap();

    assert_eq!(Ok(true), cpu.step());
    assert!(matches!(cpu.interrupt, Interrupt::AwaitKey(0x5)));

    // while blocked, steps do nothing
    assert_eq!(Ok(false), cpu.step());
    assert_eq!(Ok(0), cpu.regs.v(0x0));

    // a code outside the 16-key pad is ignored: still blocked
    cpu.press_key(200);
    assert!(matches!(cpu.interrupt, Interrupt::AwaitKey(0x5)));

    // a key press lands in V5 and resumes the CPU
    cpu.press_key(0x7);
    assert!(matches!(cpu.interrupt, Interrupt::Running));
    assert_eq!(Ok(0x7), cpu.regs.v(0x5));

    assert_eq!(Ok(true), cpu.step());
    assert_eq!(Ok(0x1), cpu.regs.v(0x0));
}

#[test]
pub fn key_skip_test() {
    let mut cpu = headless();
    cpu.execute(0x6004).unwrap(); // LD V0, 4

    // SKP with key 4 released: no skip
    let pc = cpu.regs.pc;
    cpu.execute(0xE09E).unwrap();
    assert_eq!(pc, cpu.regs.pc);

    // SKP with key 4 held: skip
    cpu.press_key(4);
    cpu.execute(0xE09E).unwrap();
    assert_eq!(pc + 2, cpu.regs.pc);

    // SKNP with key 4 held: no skip
    cpu.execute(0xE0A1).unwrap();
    assert_eq!(pc + 2, cpu.regs.pc);

    // after release, SKNP skips
    cpu.release_key(4);
    cpu.execute(0xE0A1).unwrap();
    assert_eq!(pc + 4, cpu.regs.pc);
}

#[test]
pub fn tick_test() {
    let mut cpu = headless();
    cpu.execute(0x6003).unwrap(); // LD V0, 3
    cpu.execute(0xF015).unwrap(); // LD DT, V0
    cpu.execute(0xF018).unwrap(); // LD ST, V0
    assert_eq!(3, cpu.regs.dt);
    assert_eq!(3, cpu.regs.st);

    for _ in 0..5 {
        cpu.tick();
    }
    // timers decay to zero and saturate there
    assert_eq!(0, cpu.regs.dt);
    assert_eq!(0, cpu.regs.st);

    cpu.execute(0x6105).unwrap(); // LD V1, 5
    cpu.execute(0xF107).unwrap(); // LD V1, DT (DT is 0 now)
    assert_eq!(Ok(0), cpu.regs.v(0x1));
}

#[test]
pub fn rnd_mask_test() {
    let mut cpu = headless();
    for _ in 0..16 {
        cpu.execute(0xC00F).unwrap(); // RND V0, 0x0F
        let v = cpu.regs.v(0x0).unwrap();
        assert_eq!(0, v & 0xF0);
    }
}

#[test]
pub fn call_ret_test() {
    let mut cpu = headless();
    cpu.mem.load_program(&[
        0x22, 0x06, // 0200 - CALL 0x206
        0x61, 0x07, // 0202 - LD V1, 0x07
        0x00, 0x00, // 0204 - halt
        0x60, 0x05, // 0206 - LD V0, 0x05
        0x00, 0xEE, // 0208 - RET
    ]).unwrap();

    cpu.run(true, MAX_STEPS).unwrap();

    assert_eq!(Ok(0x05), cpu.regs.v(0x0));
    assert_eq!(Ok(0x07), cpu.regs.v(0x1));
}

#[test]
pub fn stack_overflow_test() {
    let mut cpu = headless();
    for _ in 0..16 {
        cpu.execute(0x2200).unwrap(); // CALL 0x200
    }
    assert_eq!(Err(VmError::StackOverflow), cpu.execute(0x2200));
}

#[test]
pub fn unknown_opcode_test() {
    let mut cpu = headless();
    assert_eq!(Err(VmError::UnknownOpcode), cpu.execute(0x8008));
    assert_eq!(Err(VmError::UnknownOpcode), cpu.execute(0xE000));
    assert_eq!(Err(VmError::UnknownOpcode), cpu.execute(0xF0FF));
    // SYS (0x0NNN) matches no instruction of this machine
    assert_eq!(Err(VmError::UnknownOpcode), cpu.execute(0x0123));
}

#[test]
pub fn fetch_out_of_range_test() {
    let mut cpu = headless();
    cpu.regs.pc = 4095;
    assert_eq!(Err(VmError::OutOfRange), cpu.step());
    assert_eq!(4095, cpu.regs.pc);
}

#[test]
pub fn add_index_test() {
    let mut cpu = headless();
    cpu.execute(0x6005).unwrap(); // LD V0, 5
    cpu.execute(0xA100).unwrap(); // LD I, 0x100
    cpu.execute(0xF01E).unwrap(); // ADD I, V0
    assert_eq!(0x105, cpu.regs.i);
}

#[test]
pub fn driver_surface_test() {
    let mut cpu = headless();
    // the CPU's own driver-facing accessors mirror regs/mem/env access
    cpu.load_program(&[
        0x61, 0x42, // LD V1, 0x42
    ]).unwrap();
    assert_eq!(Ok(0x61), cpu.peek(0x200));
    assert_eq!(Ok(0x42), cpu.peek(0x201));

    cpu.run(true, MAX_STEPS).unwrap();
    assert_eq!(Ok(0x42), cpu.reg_v(0x1));
    assert_eq!(Err(VmError::InvalidRegister), cpu.reg_v(0x10));

    assert!(!cpu.pixel(0, 0));
    cpu.env.set_pixel(0, 0, true);
    assert!(cpu.pixel(0, 0));

    let too_big = vec![0xCD; 4096 - 0x200 + 1];
    assert_eq!(Err(VmError::OutOfRange), cpu.load_program(&too_big));
    assert_eq!(Ok(0x61), cpu.peek(0x200));
}
