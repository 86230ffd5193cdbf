pub mod chars;
pub mod memory;
pub mod model;
pub mod registers;

use rand::RngExt;
use vstd::prelude::*;

verus! {

use crate::cpu::memory::CHIP8_MEMORY_SIZE;
use crate::cpu::memory::Memory;
use crate::cpu::model::VmState;
use crate::cpu::model::blank_screen;
use crate::cpu::model::exec_step;
use crate::cpu::model::fetch_spec;
use crate::cpu::model::op_of;
use crate::cpu::model::initial_state;
use crate::cpu::model::key_pressed_spec;
use crate::cpu::model::lemma_nibble_bounds;
use crate::cpu::model::lemma_pix_index_in_range;
use crate::cpu::model::pix_index;
use crate::cpu::model::press_model;
use crate::cpu::model::release_model;
use crate::cpu::model::run_model;
use crate::cpu::model::step_model;
use crate::cpu::model::skipped;
use crate::cpu::model::tick_model;
use crate::cpu::registers::Registers;
use crate::errors::VmError;

/// Whether the CPU is running freely or blocked until a key press lands in
/// a general-purpose register.
#[derive(Clone, Copy, Debug, PartialEq, Eq, Structural)]
pub enum Interrupt {
    Running,
    AwaitKey(u8),
}

/// The CPU's display and input surface: a monochrome framebuffer whose
/// coordinates wrap modulo its dimensions, and the 16-key pad. No access
/// here can go out of bounds, so no error path exists.
pub struct CPUEnvironment {
    pub keyboard: [bool; 16],
    pub display: Vec<bool>,
    pub display_width: u8,
    pub display_height: u8,
}

impl CPUEnvironment {
    /// The framebuffer has non-degenerate dimensions and exactly
    /// `width * height` pixels.
    pub open spec fn wf(&self) -> bool {
        &&& self.display_width > 0
        &&& self.display_height > 0
        &&& self.display@.len() == self.display_width as int * self.display_height as int
    }

    /// A fresh surface: every pixel dark, every key released.
    pub fn new(display_width: u8, display_height: u8) -> (r: CPUEnvironment)
        requires
            display_width > 0,
            display_height > 0,
        ensures
            r.wf(),
            r.display_width == display_width,
            r.display_height == display_height,
            r.keyboard@ == Seq::new(16, |i: int| false),
            r.display@ == blank_screen(display_width, display_height),
    {
        proof {
            assert(display_width as int * display_height as int <= 65025) by (nonlinear_arith)
                requires
                    display_width <= 255,
                    display_height <= 255,
            ;
        }
        let total: usize = display_width as usize * display_height as usize;
        let mut display: Vec<bool> = Vec::new();
        while display.len() < total
            invariant
                total == display_width as int * display_height as int,
                display@.len() <= total,
                forall|i: int| 0 <= i < display@.len() ==> !display@[i],
            decreases total - display@.len(),
        {
            display.push(false);
        }
        let r = CPUEnvironment { keyboard: [false;16], display, display_width, display_height };
        proof {
            assert(r.keyboard@ =~= Seq::new(16, |i: int| false));
            assert(r.display@ =~= blank_screen(display_width, display_height));
        }
        r
    }

    /// Whether key `key` is currently held; indices outside the pad read
    /// as released.
    pub fn is_key_pressed(&self, key: u8) -> (r: bool)
        ensures
            r == key_pressed_spec(self.keyboard@, key),
    {
        if key < 16 {
            self.keyboard[key as usize]
        } else {
            false
        }
    }

    /// Writes one pixel at wrapping coordinates `(x, y)`.
    pub fn set_pixel(&mut self, x: u32, y: u32, white: bool)
        requires
            old(self).wf(),
        ensures
            final(self).wf(),
            final(self).display@ == old(self).display@.update(
                pix_index(old(self).display_width, old(self).display_height, x as int, y as int),
                white,
            ),
            final(self).keyboard@ == old(self).keyboard@,
            final(self).display_width == old(self).display_width,
            final(self).display_height == old(self).display_height,
    {
        let w = self.display_width as u32;
        let h = self.display_height as u32;
        let xi = x % w;
        let yi = y % h;
        proof {
            lemma_pix_index_in_range(self.display_width, self.display_height, x as int, y as int);
        }
        let idx = (yi * w + xi) as usize;
        self.display[idx] = white;
    }

    /// Reads one pixel at wrapping coordinates `(x, y)`.
    pub fn pixel(&self, x: u32, y: u32) -> (r: bool)
        requires
            self.wf(),
        ensures
            r == self.display@[pix_index(self.display_width, self.display_height, x as int, y as int)],
    {
        let w = self.display_width as u32;
        let h = self.display_height as u32;
        let xi = x % w;
        let yi = y % h;
        proof {
            lemma_pix_index_in_range(self.display_width, self.display_height, x as int, y as int);
        }
        let idx = (yi * w + xi) as usize;
        self.display[idx]
    }

    /// Turns every pixel of the framebuffer dark.
    pub fn clear_screen(&mut self)
        requires
            old(self).wf(),
        ensures
            final(self).wf(),
            final(self).display@ == blank_screen(old(self).display_width, old(self).display_height),
            final(self).keyboard@ == old(self).keyboard@,
            final(self).display_width == old(self).display_width,
            final(self).display_height == old(self).display_height,
    {
        let mut i: usize = 0;
        let n = self.display.len();
        while i < n
            invariant
                n == self.display@.len(),
                self.display_width == old(self).display_width,
                self.display_height == old(self).display_height,
                self.keyboard@ == old(self).keyboard@,
                self.wf(),
                i <= n,
                forall|j: int| 0 <= j < i ==> !self.display@[j],
            decreases n - i,
        {
            self.display[i] = false;
            i += 1;
        }
        proof {
            assert(self.display@ =~= blank_screen(old(self).display_width, old(self).display_height));
        }
    }
}

/// The thread-local generator of the `rand` crate, carried opaquely as the
/// CPU's randomness source for the RND instruction.
#[verifier::external_type_specification]
#[verifier::external_body]
pub struct ExThreadRng(rand::rngs::ThreadRng);

/// Relies on rand::rng: hands out the process's thread-local generator.
#[verifier::external_body]
fn fresh_rng() -> rand::rngs::ThreadRng {
    rand::rng()
}

/// Relies on rand::RngExt::random::<u8>: draws one byte from the
/// generator; nothing is assumed about its value.
#[verifier::external_body]
fn random_byte(rng: &mut rand::rngs::ThreadRng) -> u8 {
    rng.random::<u8>()
}

/// The machine: the register file, memory, display/input surface, the
/// running/awaiting state, and a randomness source. The semantics of every
/// operation is stated over the view `self@`, a `VmState`.
pub struct CPU {
    pub regs: Registers,
    pub mem: Memory,
    pub env: CPUEnvironment,
    pub interrupt: Interrupt,
    rng: rand::rngs::ThreadRng,
}

impl View for CPU {
    type V = VmState;

    closed spec fn view(&self) -> VmState {
        VmState {
            v: self.regs.v@,
            i: self.regs.i,
            dt: self.regs.dt,
            st: self.regs.st,
            pc: self.regs.pc,
            stack: self.regs.stack@,
            mem: self.mem@,
            keys: self.env.keyboard@,
            screen: self.env.display@,
            width: self.env.display_width,
            height: self.env.display_height,
            interrupt: self.interrupt,
        }
    }
}

impl CPU {
    /// The machine's structural invariants, stated over its view.
    pub open spec fn wf(&self) -> bool {
        self@.wf()
    }

    /// A fresh machine with a `display_width x display_height` framebuffer.
    pub fn new(display_width: u8, display_height: u8) -> (r: CPU)
        requires
            display_width > 0,
            display_height > 0,
        ensures
            r.wf(),
            r@ == initial_state(display_width, display_height),
    {
        let r = CPU {
            regs: Registers::new(),
            mem: Memory::new(),
            env: CPUEnvironment::new(display_width, display_height),
            interrupt: Interrupt::Running,
            rng: fresh_rng(),
        };
        proof {
            assert(r@ =~= initial_state(display_width, display_height));
        }
        r
    }

    /// Register read used by the decoder; selectors are always nibbles.
    fn v(&self, i: u8) -> (r: u8)
        requires
            i < 16,
        ensures
            r == self@.v[i as int],
    {
        self.regs.v[i as usize]
    }

    /// Register write used by the decoder; selectors are always nibbles.
    fn set_v(&mut self, i: u8, val: u8)
        requires
            i < 16,
        ensures
            final(self)@ == (VmState { v: old(self)@.v.update(i as int, val), ..old(self)@ }),
    {
        self.regs.v[i as usize] = val;
    }

    /// Repositions the program counter at a jump target.
    fn jump(&mut self, addr: u16)
        ensures
            final(self)@ == (VmState { pc: addr, ..old(self)@ }),
    {
        self.regs.pc = addr;
    }

    /// Moves the program counter one instruction (2 bytes) forward.
    fn skip(&mut self)
        ensures
            final(self)@ == skipped(old(self)@),
    {
        self.regs.pc = self.regs.pc.wrapping_add(2);
    }

    /// Pushes the current return address and jumps to `addr`; fails with
    /// `StackOverflow`, changing nothing, when the stack is full.
    fn call(&mut self, addr: u16) -> (r: Result<(), VmError>)
        ensures
            old(self)@.stack.len() < 16 ==> r == Ok::<(), VmError>(()) && final(self)@ == (VmState {
                stack: old(self)@.stack.push(old(self)@.pc),
                pc: addr,
                ..old(self)@
            }),
            old(self)@.stack.len() >= 16 ==> r == Err::<(), VmError>(VmError::StackOverflow)
                && final(self)@ == old(self)@,
    {
        let pc = self.regs.pc;
        match self.regs.push(pc) {
            Ok(()) => {
                self.regs.pc = addr;
                Ok(())
            },
            Err(e) => Err(e),
        }
    }

    /// Pops the most recent return address into the program counter; fails
    /// with `StackUnderflow`, changing nothing, on an empty stack.
    fn ret(&mut self) -> (r: Result<(), VmError>)
        ensures
            old(self)@.stack.len() == 0 ==> r == Err::<(), VmError>(VmError::StackUnderflow)
                && final(self)@ == old(self)@,
            old(self)@.stack.len() > 0 ==> r == Ok::<(), VmError>(()) && final(self)@ == (VmState {
                pc: old(self)@.stack.last(),
                stack: old(self)@.stack.drop_last(),
                ..old(self)@
            }),
    {
        match self.regs.pop() {
            Ok(addr) => {
                self.regs.pc = addr;
                Ok(())
            },
            Err(e) => Err(e),
        }
    }

    /// Reads the two bytes at PC as one big-endian opcode; fails with
    /// `OutOfRange` when they do not both lie inside memory.
    fn fetch(&self) -> (r: Result<u16, VmError>)
        ensures
            match crate::cpu::model::fetch_spec(self@.mem, self@.pc) {
                Some(op) => r == Ok::<u16, VmError>(op),
                None => r == Err::<u16, VmError>(VmError::OutOfRange),
            },
    {
        let pc = self.regs.pc as usize;
        if self.mem.block_in_range(pc, 2) {
            let b0 = match self.mem.peek(pc) {
                Ok(v) => v,
                Err(_) => 0,
            };
            let b1 = match self.mem.peek(pc + 1) {
                Ok(v) => v,
                Err(_) => 0,
            };
            Ok(b0 as u16 * 256 + b1 as u16)
        } else {
            Err(VmError::OutOfRange)
        }
    }

    /// Stores `V0..=Vx` at successive addresses from `I`, advancing `I` by
    /// one per byte written and stopping silently at the memory edge.
    fn store_regs(&mut self, x: u8)
        requires
            old(self).wf(),
            x < 16,
        ensures
            final(self).wf(),
            ({
                let sm = crate::cpu::model::store_model(
                    old(self)@.mem,
                    old(self)@.i,
                    old(self)@.v,
                    (x + 1) as nat,
                );
                final(self)@ == (VmState { mem: sm.0, i: sm.1, ..old(self)@ })
            }),
    {
        let mut k: u8 = 0;
        while k <= x
            invariant
                old(self).wf(),
                x < 16,
                k <= x + 1,
                self.wf(),
                ({
                    let sm = crate::cpu::model::store_model(
                        old(self)@.mem,
                        old(self)@.i,
                        old(self)@.v,
                        k as nat,
                    );
                    self@ == (VmState { mem: sm.0, i: sm.1, ..old(self)@ })
                }),
            decreases x + 1 - k,
        {
            if (self.regs.i as usize) < CHIP8_MEMORY_SIZE {
                let val = self.v(k);
                let _ = self.mem.poke(self.regs.i as usize, val);
                self.regs.i = self.regs.i + 1;
            }
            k += 1;
        }
    }

    /// Fills `V0..=Vx` from successive addresses from `I`, advancing `I`
    /// by one per byte read and stopping silently at the memory edge.
    fn load_regs(&mut self, x: u8)
        requires
            old(self).wf(),
            x < 16,
        ensures
            final(self).wf(),
            ({
                let lm = crate::cpu::model::load_model(
                    old(self)@.mem,
                    old(self)@.i,
                    old(self)@.v,
                    (x + 1) as nat,
                );
                final(self)@ == (VmState { v: lm.0, i: lm.1, ..old(self)@ })
            }),
    {
        let mut k: u8 = 0;
        while k <= x
            invariant
                old(self).wf(),
                x < 16,
                k <= x + 1,
                self.wf(),
                ({
                    let lm = crate::cpu::model::load_model(
                        old(self)@.mem,
                        old(self)@.i,
                        old(self)@.v,
                        k as nat,
                    );
                    self@ == (VmState { v: lm.0, i: lm.1, ..old(self)@ })
                }),
            decreases x + 1 - k,
        {
            if (self.regs.i as usize) < CHIP8_MEMORY_SIZE {
                let val = match self.mem.peek(self.regs.i as usize) {
                    Ok(b) => b,
                    Err(_) => 0,
                };
                self.set_v(k, val);
                self.regs.i = self.regs.i + 1;
            }
            k += 1;
        }
    }

    /// XOR-blits a `size`-row sprite read from memory at `addr` onto the
    /// framebuffer at wrapping position `(gx, gy)`: a set sprite bit flips
    /// its target pixel, and VF ends 1 exactly when some flip turned a lit
    /// pixel off. Fails with `OutOfRange`, changing nothing, when the
    /// sprite does not lie inside memory.
    fn draw(&mut self, gx: u8, gy: u8, addr: u16, size: u8) -> (r: Result<(), VmError>)
        requires
            old(self).wf(),
        ensures
            final(self).wf(),
            !crate::cpu::memory::block_in_range_spec(addr as int, size as int) ==> r == Err::<
                (),
                VmError,
            >(VmError::OutOfRange) && final(self)@ == old(self)@,
            crate::cpu::memory::block_in_range_spec(addr as int, size as int) ==> r == Ok::<
                (),
                VmError,
            >(()) && ({
                let sprite = old(self)@.mem.subrange(addr as int, addr as int + size as int);
                let dm = crate::cpu::model::draw_model(
                    old(self)@.screen,
                    old(self)@.width,
                    old(self)@.height,
                    gx,
                    gy,
                    sprite,
                    (8 * size) as nat,
                );
                final(self)@ == (VmState {
                    screen: dm.0,
                    v: old(self)@.v.update(0xF, if dm.1 { 1u8 } else { 0u8 }),
                    ..old(self)@
                })
            }),
    {
        let pixels = match self.mem.block(addr as usize, size as usize) {
            Ok(p) => p,
            Err(e) => {
                return Err(e);
            },
        };
        let mut collision = false;
        let mut row: usize = 0;
        while row < size as usize
            invariant
                old(self).wf(),
                self.wf(),
                row <= size as usize,
                crate::cpu::memory::block_in_range_spec(addr as int, size as int),
                pixels@ == old(self)@.mem.subrange(addr as int, addr as int + size as int),
                pixels@.len() == size as int,
                ({
                    let dm = crate::cpu::model::draw_model(
                        old(self)@.screen,
                        old(self)@.width,
                        old(self)@.height,
                        gx,
                        gy,
                        pixels@,
                        (8 * row) as nat,
                    );
                    self@ == (VmState { screen: dm.0, ..old(self)@ }) && collision == dm.1
                }),
            decreases size as usize - row,
        {
            let byte = pixels[row];
            let mut col: usize = 0;
            while col < 8
                invariant
                    old(self).wf(),
                    self.wf(),
                    row < size as usize,
                    col <= 8,
                    crate::cpu::memory::block_in_range_spec(addr as int, size as int),
                    pixels@ == old(self)@.mem.subrange(addr as int, addr as int + size as int),
                    pixels@.len() == size as int,
                    byte == pixels@[row as int],
                    ({
                        let dm = crate::cpu::model::draw_model(
                            old(self)@.screen,
                            old(self)@.width,
                            old(self)@.height,
                            gx,
                            gy,
                            pixels@,
                            (8 * row + col) as nat,
                        );
                        self@ == (VmState { screen: dm.0, ..old(self)@ }) && collision == dm.1
                    }),
                decreases 8 - col,
            {
                proof {
                    assert((8 * row + col) / 8 == row && (8 * row + col) % 8 == col)
                        by (nonlinear_arith)
                        requires
                            0 <= col < 8,
                            0 <= row,
                    ;
                }
                if byte & (0x80u8 >> (col as u8)) != 0 {
                    let lx = gx as u32 + col as u32;
                    let ly = gy as u32 + row as u32;
                    let white = self.env.pixel(lx, ly);
                    if white {
                        collision = true;
                    }
                    self.env.set_pixel(lx, ly, !white);
                }
                col += 1;
            }
            row += 1;
        }
        self.set_v(0xF, if collision { 1 } else { 0 });
        Ok(())
    }

    /// Decays both timers by one, saturating at zero; the driver calls
    /// this at 60 Hz, independently of the instruction rate.
    pub fn tick(&mut self)
        ensures
            final(self)@ == tick_model(old(self)@),
    {
        self.regs.dt = self.regs.dt.saturating_sub(1);
        self.regs.st = self.regs.st.saturating_sub(1);
    }

    /// Decodes and executes one opcode. On success the machine moves to
    /// exactly the state the transition model `exec_step` gives (for RND,
    /// under some byte the randomness source supplied); on failure the
    /// model's error is reported and the machine is left unchanged.
    pub fn execute(&mut self, opcode: u16) -> (r: Result<(), VmError>)
        requires
            old(self).wf(),
        ensures
            final(self).wf(),
            (match r {
                Ok(_) => if op_of(opcode) == 0xC {
                    exists|rnd: u8|
                        exec_step(old(self)@, opcode, rnd) == Ok::<VmState, VmError>(final(self)@)
                } else {
                    exec_step(old(self)@, opcode, 0) == Ok::<VmState, VmError>(final(self)@)
                },
                Err(e) => exec_step(old(self)@, opcode, 0) == Err::<VmState, VmError>(e)
                    && final(self)@ == old(self)@,
            }),
    {
        proof {
            lemma_nibble_bounds(opcode);
        }
        let op: u8 = ((opcode >> 12) & 0xF) as u8;
        let x: u8 = ((opcode >> 8) & 0xF) as u8;
        let y: u8 = ((opcode >> 4) & 0xF) as u8;
        let n: u8 = (opcode & 0xF) as u8;
        let nn: u8 = (opcode & 0xFF) as u8;
        let nnn: u16 = opcode & 0xFFF;
        match op {
            // CLS, RET; other 0x0NNN codes match no instruction
            0x0 => {
                if nn == 0xE0 {
                    self.env.clear_screen();
                    Ok(())
                } else if nn == 0xEE {
                    self.ret()
                } else {
                    Err(VmError::UnknownOpcode)
                }
            },
            // JP nnn
            0x1 => {
                self.jump(nnn);
                Ok(())
            },
            // CALL nnn
            0x2 => self.call(nnn),
            // SE Vx, nn
            0x3 => {
                let vx = self.v(x);
                if vx == nn {
                    self.skip();
                }
                Ok(())
            },
            // SNE Vx, nn
            0x4 => {
                let vx = self.v(x);
                if vx != nn {
                    self.skip();
                }
                Ok(())
            },
            // SE Vx, Vy
            0x5 => {
                let vx = self.v(x);
                let vy = self.v(y);
                if vx == vy {
                    self.skip();
                }
                Ok(())
            },
            // LD Vx, nn
            0x6 => {
                self.set_v(x, nn);
                Ok(())
            },
            // ADD Vx, nn: wraps, VF unaffected
            0x7 => {
                let vx = self.v(x);
                self.set_v(x, vx.wrapping_add(nn));
                Ok(())
            },
            0x8 => {
                let vx = self.v(x);
                let vy = self.v(y);
                match n {
                    // LD Vx, Vy
                    0x0 => {
                        self.set_v(x, vy);
                        Ok(())
                    },
                    // OR Vx, Vy
                    0x1 => {
                        self.set_v(x, vx | vy);
                        Ok(())
                    },
                    // AND Vx, Vy
                    0x2 => {
                        self.set_v(x, vx & vy);
                        Ok(())
                    },
                    // XOR Vx, Vy
                    0x3 => {
                        self.set_v(x, vx ^ vy);
                        Ok(())
                    },
                    // ADD Vx, Vy: VF carries
                    0x4 => {
                        let carry: u8 = if vx as u16 + vy as u16 > 0xFF {
                            1
                        } else {
                            0
                        };
                        self.set_v(0xF, carry);
                        self.set_v(x, vx.wrapping_add(vy));
                        Ok(())
                    },
                    // SUB Vx, Vy: VF = 1 when no borrow (Vx >= Vy)
                    0x5 => {
                        let no_borrow: u8 = if vx >= vy {
                            1
                        } else {
                            0
                        };
                        self.set_v(0xF, no_borrow);
                        self.set_v(x, vx.wrapping_sub(vy));
                        Ok(())
                    },
                    // SUBN Vx, Vy: VF = 1 when no borrow (Vy >= Vx)
                    0x7 => {
                        let no_borrow: u8 = if vy >= vx {
                            1
                        } else {
                            0
                        };
                        self.set_v(0xF, no_borrow);
                        self.set_v(x, vy.wrapping_sub(vx));
                        Ok(())
                    },
                    // SHR Vx, Vy
                    0x6 => {
                        self.set_v(0xF, vy & 1);
                        self.set_v(x, vy >> 1u8);
                        Ok(())
                    },
                    // SHL Vx, Vy
                    0xE => {
                        self.set_v(0xF, (vy & 0x80) >> 7u8);
                        self.set_v(x, vy << 1u8);
                        Ok(())
                    },
                    _ => Err(VmError::UnknownOpcode),
                }
            },
            // SNE Vx, Vy
            0x9 => {
                let vx = self.v(x);
                let vy = self.v(y);
                if vx != vy {
                    self.skip();
                }
                Ok(())
            },
            // LD I, nnn
            0xA => {
                self.regs.i = nnn;
                Ok(())
            },
            // JP V0, nnn
            0xB => {
                let v0 = self.v(0);
                self.jump(nnn + v0 as u16);
                Ok(())
            },
            // RND Vx, nn
            0xC => {
                let rb = random_byte(&mut self.rng);
                self.set_v(x, rb & nn);
                proof {
                    assert(exec_step(old(self)@, opcode, rb) == Ok::<VmState, VmError>(self@));
                }
                Ok(())
            },
            // DRW Vx, Vy, n
            0xD => {
                let vx = self.v(x);
                let vy = self.v(y);
                let i = self.regs.i;
                self.draw(vx, vy, i, n)
            },
            // SKP Vx / SKNP Vx
            0xE => {
                if nn == 0x9E {
                    let vx = self.v(x);
                    if self.env.is_key_pressed(vx) {
                        self.skip();
                    }
                    Ok(())
                } else if nn == 0xA1 {
                    let vx = self.v(x);
                    if !self.env.is_key_pressed(vx) {
                        self.skip();
                    }
                    Ok(())
                } else {
                    Err(VmError::UnknownOpcode)
                }
            },
            0xF => {
                // LD Vx, DT
                if nn == 0x07 {
                    let dt = self.regs.dt;
                    self.set_v(x, dt);
                    Ok(())
                    // LD Vx, K: block until a key press arrives
                } else if nn == 0x0A {
                    self.interrupt = Interrupt::AwaitKey(x);
                    Ok(())
                    // LD DT, Vx
                } else if nn == 0x15 {
                    self.regs.dt = self.v(x);
                    Ok(())
                    // LD ST, Vx
                } else if nn == 0x18 {
                    self.regs.st = self.v(x);
                    Ok(())
                    // ADD I, Vx
                } else if nn == 0x1E {
                    let vx = self.v(x);
                    self.regs.i = self.regs.i.wrapping_add(vx as u16);
                    Ok(())
                    // LD F, Vx: address of the font glyph for digit Vx
                } else if nn == 0x29 {
                    let vx = self.v(x);
                    self.regs.i = 5 * vx as u16;
                    Ok(())
                    // LD B, Vx: BCD of Vx into memory at I
                } else if nn == 0x33 {
                    let vx = self.v(x);
                    if self.mem.block_in_range(self.regs.i as usize, 3) {
                        let i = self.regs.i as usize;
                        let _ = self.mem.poke(i, vx / 100);
                        let _ = self.mem.poke(i + 1, (vx / 10) % 10);
                        let _ = self.mem.poke(i + 2, vx % 10);
                        Ok(())
                    } else {
                        Err(VmError::OutOfRange)
                    }
                    // LD [I], Vx
                } else if nn == 0x55 {
                    self.store_regs(x);
                    Ok(())
                    // LD Vx, [I]
                } else if nn == 0x65 {
                    self.load_regs(x);
                    Ok(())
                } else {
                    Err(VmError::UnknownOpcode)
                }
            },
            _ => Err(VmError::UnknownOpcode),
        }
    }

    /// Loads a program image at the canonical start address 0x200: the
    /// driver-facing route to `Memory::load_program`, stated over the
    /// machine's view. Fails atomically with `OutOfRange`, changing
    /// nothing, when the program is larger than the space above 0x200.
    pub fn load_program(&mut self, program: &[u8]) -> (r: Result<(), VmError>)
        ensures
            program@.len() <= 3584 ==> r == Ok::<(), VmError>(()) && final(self)@ == (VmState {
                mem: crate::cpu::memory::loaded(old(self)@.mem, 0x200, program@),
                ..old(self)@
            }),
            program@.len() > 3584 ==> r == Err::<(), VmError>(VmError::OutOfRange)
                && final(self)@ == old(self)@,
    {
        self.mem.load_program(program)
    }

    /// Reads the byte of memory at `addr`: driver-facing debugging access.
    pub fn peek(&self, addr: usize) -> (r: Result<u8, VmError>)
        ensures
            r == crate::cpu::memory::peek_spec(self@.mem, addr as int),
    {
        self.mem.peek(addr)
    }

    /// The value of register `Vi`, or `InvalidRegister` when `i` is out of
    /// bounds: driver-facing debugging access to the register file.
    pub fn reg_v(&self, i: u8) -> (r: Result<u8, VmError>)
        ensures
            i <= 0xF ==> r == Ok::<u8, VmError>(self@.v[i as int]),
            i > 0xF ==> r == Err::<u8, VmError>(VmError::InvalidRegister),
    {
        self.regs.v(i as usize)
    }

    /// Reads one framebuffer pixel at wrapping coordinates `(x, y)`:
    /// driver-facing access for a renderer.
    pub fn pixel(&self, x: u32, y: u32) -> (r: bool)
        requires
            self.wf(),
        ensures
            r == self@.screen[pix_index(self@.width, self@.height, x as int, y as int)],
    {
        self.env.pixel(x, y)
    }

    /// One unit of work: when running, fetches the opcode at PC, advances
    /// PC past it, and executes it; when blocked awaiting a key, does
    /// nothing. Returns whether an instruction ran; on an error the machine
    /// is left exactly as it was.
    pub fn step(&mut self) -> (r: Result<bool, VmError>)
        requires
            old(self).wf(),
        ensures
            final(self).wf(),
            (old(self)@.interrupt matches Interrupt::AwaitKey(_)) ==> r == Ok::<bool, VmError>(
                false,
            ) && final(self)@ == old(self)@,
            old(self)@.interrupt == Interrupt::Running ==> match fetch_spec(
                old(self)@.mem,
                old(self)@.pc,
            ) {
                Option::None => r == Err::<bool, VmError>(VmError::OutOfRange) && final(self)@
                    == old(self)@,
                Option::Some(opcode) => {
                    let s2 = VmState { pc: (old(self)@.pc + 2) as u16, ..old(self)@ };
                    match r {
                        Ok(ran) => ran && (if op_of(opcode) == 0xC {
                            exists|rnd: u8|
                                exec_step(s2, opcode, rnd) == Ok::<VmState, VmError>(final(self)@)
                        } else {
                            exec_step(s2, opcode, 0) == Ok::<VmState, VmError>(final(self)@)
                        }),
                        Err(e) => exec_step(s2, opcode, 0) == Err::<VmState, VmError>(e)
                            && final(self)@ == old(self)@,
                    }
                },
            },
    {
        match self.interrupt {
            Interrupt::Running => {
                let opcode = match self.fetch() {
                    Ok(o) => o,
                    Err(e) => {
                        return Err(e);
                    },
                };
                self.regs.pc = self.regs.pc + 2;
                match self.execute(opcode) {
                    Ok(_) => Ok(true),
                    Err(e) => {
                        self.regs.pc = self.regs.pc - 2;
                        proof {
                            assert(self@ =~= old(self)@);
                        }
                        Err(e)
                    },
                }
            },
            Interrupt::AwaitKey(_) => Ok(false),
        }
    }

    /// Repeatedly steps the machine, at most `max_steps` times: the final
    /// state and the result are exactly what the fold `run_model` gives for
    /// the bytes the randomness source supplied. With `stop_at_zero` set it
    /// halts successfully, returning true, as soon as the opcode at PC is
    /// 0x0000 (a test and debugging convenience); otherwise it returns
    /// false once the budget is spent.
    pub fn run(&mut self, stop_at_zero: bool, max_steps: usize) -> (r: Result<bool, VmError>)
        requires
            old(self).wf(),
        ensures
            final(self).wf(),
            exists|rnds: Seq<u8>|
                {
                    let rm = #[trigger] run_model(old(self)@, stop_at_zero, rnds, max_steps as nat);
                    final(self)@ == rm.0 && r == rm.1
                },
            (r matches Ok(halted) && halted ==> stop_at_zero && fetch_spec(
                final(self)@.mem,
                final(self)@.pc,
            ) == Some(0u16)),
            stop_at_zero && max_steps > 0 && fetch_spec(old(self)@.mem, old(self)@.pc) == Some(
                0u16,
            ) ==> r == Ok::<bool, VmError>(true) && final(self)@ == old(self)@,
            max_steps == 0 ==> r == Ok::<bool, VmError>(false) && final(self)@ == old(self)@,
    {
        let mut steps: usize = 0;
        let ghost mut used: Seq<u8> = Seq::<u8>::empty();
        proof {
            assert forall|rest: Seq<u8>|
                run_model(old(self)@, stop_at_zero, #[trigger] (used + rest), max_steps as nat)
                    == run_model(self@, stop_at_zero, rest, (max_steps - steps) as nat) by {
                assert(used + rest =~= rest);
            }
        }
        while steps < max_steps
            invariant
                self.wf(),
                steps <= max_steps,
                used.len() == steps,
                steps == 0 ==> self@ == old(self)@,
                steps > 0 ==> !(stop_at_zero && fetch_spec(old(self)@.mem, old(self)@.pc) == Some(
                    0u16,
                )),
                forall|rest: Seq<u8>|
                    run_model(old(self)@, stop_at_zero, #[trigger] (used + rest), max_steps as nat)
                        == run_model(self@, stop_at_zero, rest, (max_steps - steps) as nat),
            decreases max_steps - steps,
        {
            let ghost sprev = self@;
            let ghost fuel = (max_steps - steps) as nat;
            if stop_at_zero {
                let opcode = match self.fetch() {
                    Ok(o) => o,
                    Err(e) => {
                        proof {
                            assert(used + Seq::<u8>::empty() =~= used);
                            assert(run_model(old(self)@, stop_at_zero, used, max_steps as nat) == (
                                self@,
                                Err::<bool, VmError>(VmError::OutOfRange),
                            ));
                        }
                        return Err(e);
                    },
                };
                if opcode == 0 {
                    proof {
                        assert(used + Seq::<u8>::empty() =~= used);
                        assert(run_model(old(self)@, stop_at_zero, used, max_steps as nat) == (
                            self@,
                            Ok::<bool, VmError>(true),
                        ));
                    }
                    return Ok(true);
                }
            }
            match self.step() {
                Ok(_) => {},
                Err(e) => {
                    proof {
                        let ext = seq![0u8];
                        assert(used + ext =~= used.push(0u8));
                        assert(ext[0] == 0u8);
                        assert(step_model(sprev, 0u8) == (sprev, Err::<bool, VmError>(e)));
                        assert(run_model(old(self)@, stop_at_zero, used.push(0u8), max_steps as nat)
                            == (self@, Err::<bool, VmError>(e)));
                    }
                    return Err(e);
                },
            }
            proof {
                // the byte this step consumed: for RND the witness from
                // execute's contract, anything otherwise
                let opcode = match fetch_spec(sprev.mem, sprev.pc) {
                    Option::Some(o) => o,
                    Option::None => 0u16,
                };
                let s2 = VmState { pc: (sprev.pc + 2) as u16, ..sprev };
                let rbyte: u8 = match sprev.interrupt {
                    Interrupt::Running => if op_of(opcode) == 0xC {
                        choose|rnd: u8| exec_step(s2, opcode, rnd) == Ok::<VmState, VmError>(self@)
                    } else {
                        0u8
                    },
                    Interrupt::AwaitKey(_) => 0u8,
                };
                assert forall|rest: Seq<u8>|
                    run_model(
                        old(self)@,
                        stop_at_zero,
                        #[trigger] (used.push(rbyte) + rest),
                        max_steps as nat,
                    ) == run_model(self@, stop_at_zero, rest, (fuel - 1) as nat) by {
                    let ext = seq![rbyte] + rest;
                    assert(used + ext =~= used.push(rbyte) + rest);
                    assert(ext[0] == rbyte);
                    assert(ext.skip(1) =~= rest);
                    assert(run_model(old(self)@, stop_at_zero, used + ext, max_steps as nat)
                        == run_model(sprev, stop_at_zero, ext, fuel));
                    match sprev.interrupt {
                        Interrupt::AwaitKey(_) => {
                            assert(self@ == sprev);
                            assert(step_model(sprev, rbyte) == (sprev, Ok::<bool, VmError>(false)));
                        },
                        Interrupt::Running => {
                            assert(exec_step(s2, opcode, rbyte) == Ok::<VmState, VmError>(self@));
                            assert(step_model(sprev, rbyte) == (self@, Ok::<bool, VmError>(true)));
                        },
                    }
                    assert(run_model(sprev, stop_at_zero, ext, fuel) == run_model(
                        self@,
                        stop_at_zero,
                        rest,
                        (fuel - 1) as nat,
                    ));
                }
                used = used.push(rbyte);
            }
            steps += 1;
        }
        proof {
            assert(used + Seq::<u8>::empty() =~= used);
            assert(run_model(old(self)@, stop_at_zero, used, max_steps as nat) == (
                self@,
                Ok::<bool, VmError>(false),
            ));
        }
        Ok(false)
    }

    /// A key press from the driver: records the key as held and, when the
    /// CPU is blocked awaiting a key, writes the key code into the awaited
    /// register and resumes. Codes outside the 16-key pad are ignored.
    pub fn press_key(&mut self, key: u8)
        requires
            old(self).wf(),
        ensures
            final(self).wf(),
            final(self)@ == press_model(old(self)@, key),
    {
        if key < 16 {
            self.env.keyboard[key as usize] = true;
            match self.interrupt {
                Interrupt::AwaitKey(reg) => {
                    self.set_v(reg, key);
                    self.interrupt = Interrupt::Running;
                },
                Interrupt::Running => {},
            }
        }
    }

    /// A key release from the driver: clears the keypad flag that
    /// `is_key_pressed` reads. Codes outside the 16-key pad are ignored.
    pub fn release_key(&mut self, key: u8)
        ensures
            final(self)@ == release_model(old(self)@, key),
    {
        if key < 16 {
            self.env.keyboard[key as usize] = false;
        }
    }
}

} // verus!
