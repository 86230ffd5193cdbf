use chip8::cpu::chars::chip8_characters;
use chip8::cpu::memory::CHIP8_MEMORY_SIZE;
use chip8::cpu::memory::Memory;
use chip8::errors::VmError;

#[test]
pub fn memory_in_range() {
    let mem = Memory::new();
    assert!(mem.in_range(0));
    assert!(!mem.in_range(CHIP8_MEMORY_SIZE));
    assert!(mem.in_range(CHIP8_MEMORY_SIZE - 1));
}

#[test]
pub fn memory_peek_poke() {
    let mut mem = Memory::new();
    assert_eq!(Ok(()), mem.poke(0x0, 8));
    assert_eq!(Err(VmError::OutOfRange), mem.poke(CHIP8_MEMORY_SIZE, 8));
    assert_eq!(Ok(8), mem.peek(0x0));
    assert_eq!(Err(VmError::OutOfRange), mem.peek(CHIP8_MEMORY_SIZE));
}

#[test]
pub fn memory_characters() {
    let mem = Memory::new();
    assert!(mem.block(0x0, 5 * 16) == Ok(chip8_characters()));
}

#[test]
pub fn memory_peek_poke_block() {
    let mut mem = Memory::new();

    if mem.load(0x0, &[1, 2, 3]).is_err() {
        panic!("write: block == None");
    }

    assert_eq!(Ok(1), mem.peek(0x0));
    assert_eq!(Ok(2), mem.peek(0x1));
    assert_eq!(Ok(3), mem.peek(0x2));

    if let Ok(block) = mem.block(0x0, 3) {
        assert_eq!(vec![1, 2, 3], block);
    } else {
        panic!("read: block == None");
    }
}

#[test]
pub fn memory_block_bounds() {
    let mem = Memory::new();
    // a block may end exactly at the memory edge, but not cross it
    assert!(mem.block_in_range(4090, 6));
    assert!(!mem.block_in_range(4090, 7));
    assert!(mem.block(4090, 6).is_ok());
    assert_eq!(Err(VmError::OutOfRange), mem.block(4090, 7));
    assert_eq!(Err(VmError::OutOfRange), mem.block(4096, 0));
}

#[test]
pub fn memory_oversized_load_is_atomic() {
    let mut mem = Memory::new();
    // the largest program that fits: 4096 - 0x200 bytes
    let fits = vec![0xAB; 4096 - 0x200];
    assert_eq!(Ok(()), mem.load_program(&fits));
    assert_eq!(Ok(0xAB), mem.peek(0x200));
    assert_eq!(Ok(0xAB), mem.peek(4095));

    // one byte more fails and leaves memory untouched
    let mut mem = Memory::new();
    let too_big = vec![0xCD; 4096 - 0x200 + 1];
    assert_eq!(Err(VmError::OutOfRange), mem.load_program(&too_big));
    for addr in [0x200, 0x300, 4095] {
        assert_eq!(Ok(0), mem.peek(addr));
    }
}

#[test]
pub fn memory_font_seeded() {
    let mem = Memory::new();
    // first font sprite is the glyph for 0
    assert_eq!(Ok(0xF0), mem.peek(0));
    assert_eq!(Ok(0x90), mem.peek(1));
    // past the font table everything starts zeroed
    assert_eq!(Ok(0), mem.peek(80));
    assert_eq!(Ok(0), mem.peek(0x200));
}
