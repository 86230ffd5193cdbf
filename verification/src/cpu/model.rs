use vstd::prelude::*;

verus! {

use crate::cpu::Interrupt;
use crate::cpu::memory::block_in_range_spec;
use crate::cpu::memory::mem_init;
use crate::errors::VmError;

/// The mathematical state of the whole machine: the register file, the
/// call stack, memory, the keypad and framebuffer, and the running/awaiting
/// interrupt state. Every public operation of the CPU is specified as a
/// function on this state.
#[verifier::ext_equal]
pub ghost struct VmState {
    pub v: Seq<u8>,
    pub i: u16,
    pub dt: u8,
    pub st: u8,
    pub pc: u16,
    pub stack: Seq<u16>,
    pub mem: Seq<u8>,
    pub keys: Seq<bool>,
    pub screen: Seq<bool>,
    pub width: u8,
    pub height: u8,
    pub interrupt: Interrupt,
}

impl VmState {
    /// Structural invariants: 16 registers, 4096 bytes of memory, 16 keys,
    /// a non-degenerate screen of `width * height` pixels, a call stack of
    /// at most 16 return addresses, and an awaited register index below 16.
    pub open spec fn wf(self) -> bool {
        &&& self.v.len() == 16
        &&& self.mem.len() == 4096
        &&& self.keys.len() == 16
        &&& self.width > 0
        &&& self.height > 0
        &&& self.screen.len() == self.width as int * self.height as int
        &&& self.stack.len() <= 16
        &&& (self.interrupt matches Interrupt::AwaitKey(r) ==> r < 16)
    }
}

/// Opcode fields: the operation selector (bits 12-15).
pub open spec fn op_of(opcode: u16) -> u8 {
    ((opcode >> 12) & 0xF) as u8
}

/// Opcode fields: the first register selector (bits 8-11).
pub open spec fn x_of(opcode: u16) -> u8 {
    ((opcode >> 8) & 0xF) as u8
}

/// Opcode fields: the second register selector (bits 4-7).
pub open spec fn y_of(opcode: u16) -> u8 {
    ((opcode >> 4) & 0xF) as u8
}

/// Opcode fields: the low nibble (bits 0-3).
pub open spec fn n_of(opcode: u16) -> u8 {
    (opcode & 0xF) as u8
}

/// Opcode fields: the low byte (bits 0-7).
pub open spec fn nn_of(opcode: u16) -> u8 {
    (opcode & 0xFF) as u8
}

/// Opcode fields: the low 12 bits, an address.
pub open spec fn nnn_of(opcode: u16) -> u16 {
    opcode & 0xFFF
}

/// The opcode fields are bounded as their widths dictate; in particular
/// both register selectors are valid register indices.
pub proof fn lemma_nibble_bounds(opcode: u16)
    by (bit_vector)
    ensures
        (opcode >> 12) & 0xF < 16,
        (opcode >> 8) & 0xF < 16,
        (opcode >> 4) & 0xF < 16,
        opcode & 0xF < 16,
        opcode & 0xFF < 256,
        opcode & 0xFFF < 0x1000,
{
}

/// An all-dark framebuffer of the given dimensions.
pub open spec fn blank_screen(width: u8, height: u8) -> Seq<bool> {
    Seq::new(width as nat * height as nat, |i: int| false)
}

/// Whether key `key` is held: indices outside the 16-key pad read as
/// released.
pub open spec fn key_pressed_spec(keys: Seq<bool>, key: u8) -> bool {
    key < 16 && keys[key as int]
}

/// The framebuffer cell addressed by wrapping coordinates `(x, y)`.
pub open spec fn pix_index(width: u8, height: u8, x: int, y: int) -> int {
    (y % height as int) * width as int + (x % width as int)
}

/// A wrapping pixel address always lands inside the framebuffer.
pub proof fn lemma_pix_index_in_range(width: u8, height: u8, x: int, y: int)
    requires
        width > 0,
        height > 0,
        x >= 0,
        y >= 0,
    ensures
        0 <= pix_index(width, height, x, y) < width as int * height as int,
        width as int * height as int <= 65025,
{
    let xm = x % width as int;
    let ym = y % height as int;
    assert(0 <= xm < width as int);
    assert(0 <= ym < height as int);
    assert(ym * width as int + xm < width as int * height as int && width as int * height as int
        <= 65025) by (nonlinear_arith)
        requires
            0 <= xm < width as int,
            0 <= ym < height as int,
            width <= 255,
            height <= 255,
    ;
}

/// The machine right after construction: cleared registers, the program
/// counter at the canonical start address, font-seeded memory, a dark
/// screen, no keys held, running.
pub open spec fn initial_state(width: u8, height: u8) -> VmState {
    VmState {
        v: Seq::new(16, |i: int| 0u8),
        i: 0,
        dt: 0,
        st: 0,
        pc: 0x200,
        stack: Seq::<u16>::empty(),
        mem: mem_init(),
        keys: Seq::new(16, |i: int| false),
        screen: blank_screen(width, height),
        width: width,
        height: height,
        interrupt: Interrupt::Running,
    }
}

/// The state after a skip: the program counter moves one instruction
/// (2 bytes) forward, wrapping in 16 bits.
pub open spec fn skipped(s: VmState) -> VmState {
    VmState { pc: s.pc.wrapping_add(2), ..s }
}

/// Whether the sprite row byte `b` has its pixel bit set in column `c`
/// (column 0 is the most significant bit).
pub open spec fn sprite_bit(b: u8, c: u8) -> bool {
    b & (0x80u8 >> c) != 0
}

/// The framebuffer and collision flag after the first `k` sprite cells
/// have been XOR-blitted. Cells are processed row-major: cell `j` is row
/// `j / 8`, column `j % 8` of the sprite; a set bit flips the wrapped
/// target pixel, and the collision flag records whether any flip turned a
/// lit pixel off.
pub open spec fn draw_model(
    screen: Seq<bool>,
    width: u8,
    height: u8,
    gx: u8,
    gy: u8,
    sprite: Seq<u8>,
    k: nat,
) -> (Seq<bool>, bool)
    decreases k,
{
    if k == 0 {
        (screen, false)
    } else {
        let prev = draw_model(screen, width, height, gx, gy, sprite, (k - 1) as nat);
        let j = k - 1;
        let row = j / 8;
        let col = j % 8;
        if sprite_bit(sprite[row], col as u8) {
            let idx = pix_index(width, height, gx + col, gy + row);
            let was = prev.0[idx];
            (prev.0.update(idx, !was), prev.1 || was)
        } else {
            prev
        }
    }
}

/// Blitting never changes the framebuffer's size.
pub proof fn lemma_draw_model_len(
    screen: Seq<bool>,
    width: u8,
    height: u8,
    gx: u8,
    gy: u8,
    sprite: Seq<u8>,
    k: nat,
)
    requires
        width > 0,
        height > 0,
        screen.len() == width as int * height as int,
    ensures
        draw_model(screen, width, height, gx, gy, sprite, k).0.len() == screen.len(),
    decreases k,
{
    if k > 0 {
        lemma_draw_model_len(screen, width, height, gx, gy, sprite, (k - 1) as nat);
        let j = k - 1;
        lemma_pix_index_in_range(width, height, gx + j % 8, gy + j / 8);
    }
}

/// Memory and index register after the first `k` of the registers
/// `V0..=Vx` have been stored at successive addresses from `I`, stopping
/// (without an error) as soon as the address leaves memory.
pub open spec fn store_model(mem: Seq<u8>, i: u16, v: Seq<u8>, k: nat) -> (Seq<u8>, u16)
    decreases k,
{
    if k == 0 {
        (mem, i)
    } else {
        let prev = store_model(mem, i, v, (k - 1) as nat);
        if prev.1 < 4096 {
            (prev.0.update(prev.1 as int, v[k - 1]), (prev.1 + 1) as u16)
        } else {
            prev
        }
    }
}

/// Register file and index register after the first `k` of the registers
/// `V0..=Vx` have been filled from successive addresses from `I`, with the
/// same early stop at the memory edge.
pub open spec fn load_model(mem: Seq<u8>, i: u16, v: Seq<u8>, k: nat) -> (Seq<u8>, u16)
    decreases k,
{
    if k == 0 {
        (v, i)
    } else {
        let prev = load_model(mem, i, v, (k - 1) as nat);
        if prev.1 < 4096 {
            (prev.0.update(k - 1, mem[prev.1 as int]), (prev.1 + 1) as u16)
        } else {
            prev
        }
    }
}

/// The big-endian 16-bit opcode at `pc`, or nothing when the two bytes do
/// not both lie inside memory.
pub open spec fn fetch_spec(mem: Seq<u8>, pc: u16) -> Option<u16> {
    if block_in_range_spec(pc as int, 2) {
        Some((mem[pc as int] as u16 * 256 + mem[pc as int + 1] as u16) as u16)
    } else {
        None
    }
}

/// One instruction, as a function on machine states: decodes `opcode`,
/// applies its documented effect, and reports the error the machine
/// surfaces when the instruction cannot run. `rnd` is the byte an outside
/// randomness source supplies; only the RND instruction reads it.
pub open spec fn exec_step(s: VmState, opcode: u16, rnd: u8) -> Result<VmState, VmError> {
    let op = op_of(opcode);
    let x = x_of(opcode) as int;
    let y = y_of(opcode) as int;
    let n = n_of(opcode);
    let nn = nn_of(opcode);
    let nnn = nnn_of(opcode);
    let vx = s.v[x];
    let vy = s.v[y];
    if op == 0x0 {
        if nn == 0xE0 {
            Ok(VmState { screen: blank_screen(s.width, s.height), ..s })
        } else if nn == 0xEE {
            if s.stack.len() == 0 {
                Err(VmError::StackUnderflow)
            } else {
                Ok(VmState { pc: s.stack.last(), stack: s.stack.drop_last(), ..s })
            }
        } else {
            Err(VmError::UnknownOpcode)
        }
    } else if op == 0x1 {
        Ok(VmState { pc: nnn, ..s })
    } else if op == 0x2 {
        if s.stack.len() >= 16 {
            Err(VmError::StackOverflow)
        } else {
            Ok(VmState { stack: s.stack.push(s.pc), pc: nnn, ..s })
        }
    } else if op == 0x3 {
        Ok(if vx == nn { skipped(s) } else { s })
    } else if op == 0x4 {
        Ok(if vx != nn { skipped(s) } else { s })
    } else if op == 0x5 {
        Ok(if vx == vy { skipped(s) } else { s })
    } else if op == 0x6 {
        Ok(VmState { v: s.v.update(x, nn), ..s })
    } else if op == 0x7 {
        Ok(VmState { v: s.v.update(x, vx.wrapping_add(nn)), ..s })
    } else if op == 0x8 {
        if n == 0x0 {
            Ok(VmState { v: s.v.update(x, vy), ..s })
        } else if n == 0x1 {
            Ok(VmState { v: s.v.update(x, vx | vy), ..s })
        } else if n == 0x2 {
            Ok(VmState { v: s.v.update(x, vx & vy), ..s })
        } else if n == 0x3 {
            Ok(VmState { v: s.v.update(x, vx ^ vy), ..s })
        } else if n == 0x4 {
            let carry: u8 = if vx + vy > 0xFF { 1 } else { 0 };
            Ok(VmState { v: s.v.update(0xF, carry).update(x, vx.wrapping_add(vy)), ..s })
        } else if n == 0x5 {
            let no_borrow: u8 = if vx >= vy { 1 } else { 0 };
            Ok(VmState { v: s.v.update(0xF, no_borrow).update(x, vx.wrapping_sub(vy)), ..s })
        } else if n == 0x7 {
            let no_borrow: u8 = if vy >= vx { 1 } else { 0 };
            Ok(VmState { v: s.v.update(0xF, no_borrow).update(x, vy.wrapping_sub(vx)), ..s })
        } else if n == 0x6 {
            Ok(VmState { v: s.v.update(0xF, vy & 1).update(x, vy >> 1u8), ..s })
        } else if n == 0xE {
            Ok(VmState { v: s.v.update(0xF, (vy & 0x80) >> 7u8).update(x, vy << 1u8), ..s })
        } else {
            Err(VmError::UnknownOpcode)
        }
    } else if op == 0x9 {
        Ok(if vx != vy { skipped(s) } else { s })
    } else if op == 0xA {
        Ok(VmState { i: nnn, ..s })
    } else if op == 0xB {
        Ok(VmState { pc: (nnn + s.v[0] as int) as u16, ..s })
    } else if op == 0xC {
        Ok(VmState { v: s.v.update(x, rnd & nn), ..s })
    } else if op == 0xD {
        if !block_in_range_spec(s.i as int, n as int) {
            Err(VmError::OutOfRange)
        } else {
            let sprite = s.mem.subrange(s.i as int, s.i as int + n as int);
            let dm = draw_model(s.screen, s.width, s.height, vx, vy, sprite, 8 * n as nat);
            Ok(
                VmState {
                    screen: dm.0,
                    v: s.v.update(0xF, if dm.1 { 1u8 } else { 0u8 }),
                    ..s
                },
            )
        }
    } else if op == 0xE {
        if nn == 0x9E {
            Ok(if key_pressed_spec(s.keys, vx) { skipped(s) } else { s })
        } else if nn == 0xA1 {
            Ok(if !key_pressed_spec(s.keys, vx) { skipped(s) } else { s })
        } else {
            Err(VmError::UnknownOpcode)
        }
    } else if op == 0xF {
        if nn == 0x07 {
            Ok(VmState { v: s.v.update(x, s.dt), ..s })
        } else if nn == 0x0A {
            Ok(VmState { interrupt: Interrupt::AwaitKey(x_of(opcode)), ..s })
        } else if nn == 0x15 {
            Ok(VmState { dt: vx, ..s })
        } else if nn == 0x18 {
            Ok(VmState { st: vx, ..s })
        } else if nn == 0x1E {
            Ok(VmState { i: s.i.wrapping_add(vx as u16), ..s })
        } else if nn == 0x29 {
            Ok(VmState { i: (5 * vx as int) as u16, ..s })
        } else if nn == 0x33 {
            if !block_in_range_spec(s.i as int, 3) {
                Err(VmError::OutOfRange)
            } else {
                Ok(
                    VmState {
                        mem: s.mem.update(s.i as int, vx / 100).update(
                            s.i as int + 1,
                            (vx / 10) % 10,
                        ).update(s.i as int + 2, vx % 10),
                        ..s
                    },
                )
            }
        } else if nn == 0x55 {
            let sm = store_model(s.mem, s.i, s.v, (x + 1) as nat);
            Ok(VmState { mem: sm.0, i: sm.1, ..s })
        } else if nn == 0x65 {
            let lm = load_model(s.mem, s.i, s.v, (x + 1) as nat);
            Ok(VmState { v: lm.0, i: lm.1, ..s })
        } else {
            Err(VmError::UnknownOpcode)
        }
    } else {
        Err(VmError::UnknownOpcode)
    }
}

/// One unit of work at the state level: what `step` does, with `rnd` the
/// byte the randomness source would supply. A machine awaiting a key does
/// nothing; a running machine fetches the opcode at PC, advances PC past
/// it, and applies `exec_step`; an error leaves the state as it was.
pub open spec fn step_model(s: VmState, rnd: u8) -> (VmState, Result<bool, VmError>) {
    match s.interrupt {
        Interrupt::AwaitKey(_) => (s, Ok(false)),
        Interrupt::Running => match fetch_spec(s.mem, s.pc) {
            Option::None => (s, Err(VmError::OutOfRange)),
            Option::Some(opcode) => {
                let s2 = VmState { pc: (s.pc + 2) as u16, ..s };
                match exec_step(s2, opcode, rnd) {
                    Ok(s3) => (s3, Ok(true)),
                    Err(e) => (s, Err(e)),
                }
            },
        },
    }
}

/// Repeated stepping with a budget, as a fold of `step_model`: what `run`
/// does. Each round first spends the budget (`Ok(false)` when exhausted);
/// with `stop_at_zero` it then reads the opcode at PC, failing on an
/// unreadable one and halting with `Ok(true)` on 0x0000; otherwise one
/// step runs, consuming the head of `rnds`, and an erring step ends the
/// run with its state and error.
pub open spec fn run_model(s: VmState, stop_at_zero: bool, rnds: Seq<u8>, fuel: nat) -> (
    VmState,
    Result<bool, VmError>,
)
    decreases fuel,
{
    if fuel == 0 {
        (s, Ok(false))
    } else if stop_at_zero && fetch_spec(s.mem, s.pc) is None {
        (s, Err(VmError::OutOfRange))
    } else if stop_at_zero && fetch_spec(s.mem, s.pc) == Some(0u16) {
        (s, Ok(true))
    } else {
        let sm = step_model(s, rnds[0]);
        match sm.1 {
            Ok(_) => run_model(sm.0, stop_at_zero, rnds.skip(1), (fuel - 1) as nat),
            Err(e) => (s, Err(e)),
        }
    }
}

/// Law: a RET (opcode 0x00EE) executed with an empty call stack fails with
/// `StackUnderflow`; since `CPU::execute` leaves the machine unchanged on
/// every error, the program counter is never corrupted by such a return.
pub proof fn lemma_ret_on_empty_stack(s: VmState, rnd: u8)
    requires
        s.stack.len() == 0,
    ensures
        exec_step(s, 0x00EE, rnd) == Err::<VmState, VmError>(VmError::StackUnderflow),
{
    assert((0x00EEu16 >> 12) & 0xF == 0 && 0x00EEu16 & 0xFF == 0xEE) by (bit_vector);
}

/// Law: after CLS (opcode 0x00E0) reading any pixel of the framebuffer
/// returns false, whatever wrapping coordinates are read.
pub proof fn lemma_cls_clears_screen(s: VmState, rnd: u8, x: int, y: int)
    requires
        s.wf(),
        x >= 0,
        y >= 0,
    ensures
        exec_step(s, 0x00E0, rnd) matches Ok(s2) && !s2.screen[pix_index(s.width, s.height, x, y)],
{
    assert((0x00E0u16 >> 12) & 0xF == 0 && 0x00E0u16 & 0xFF == 0xE0) by (bit_vector);
    lemma_pix_index_in_range(s.width, s.height, x, y);
}

/// The framebuffer cell that sprite cell `j` of a draw at `(gx, gy)`
/// lands on.
pub open spec fn cell_target(width: u8, height: u8, gx: u8, gy: u8, j: int) -> int {
    pix_index(width, height, gx + j % 8, gy + j / 8)
}

/// Whether sprite cell `j` paints, i.e. has its sprite bit set.
pub open spec fn cell_set(sprite: Seq<u8>, j: int) -> bool {
    sprite_bit(sprite[j / 8], (j % 8) as u8)
}

/// A pixel that no painting cell in `k1..k2` targets keeps, at step `k2`,
/// the value it had at step `k1`.
pub proof fn lemma_draw_model_frame(
    screen: Seq<bool>,
    width: u8,
    height: u8,
    gx: u8,
    gy: u8,
    sprite: Seq<u8>,
    k1: nat,
    k2: nat,
    p: int,
)
    requires
        width > 0,
        height > 0,
        screen.len() == width as int * height as int,
        0 <= p < screen.len(),
        k1 <= k2,
        forall|j: int|
            k1 <= j < k2 && cell_set(sprite, j) ==> cell_target(width, height, gx, gy, j) != p,
    ensures
        draw_model(screen, width, height, gx, gy, sprite, k2).0[p] == draw_model(
            screen,
            width,
            height,
            gx,
            gy,
            sprite,
            k1,
        ).0[p],
    decreases k2 - k1,
{
    if k2 > k1 {
        lemma_draw_model_frame(screen, width, height, gx, gy, sprite, k1, (k2 - 1) as nat, p);
        lemma_draw_model_len(screen, width, height, gx, gy, sprite, (k2 - 1) as nat);
        let j = k2 - 1;
        let prev = draw_model(screen, width, height, gx, gy, sprite, (k2 - 1) as nat);
        lemma_pix_index_in_range(width, height, gx + j % 8, gy + j / 8);
        if cell_set(sprite, j) {
            let idx = cell_target(width, height, gx, gy, j);
            assert(idx != p);
            assert(draw_model(screen, width, height, gx, gy, sprite, k2).0 == prev.0.update(
                idx,
                !prev.0[idx],
            ));
        } else {
            assert(draw_model(screen, width, height, gx, gy, sprite, k2).0 == prev.0);
        }
    }
}

/// Once the collision flag is raised it stays raised for the rest of the
/// draw.
pub proof fn lemma_draw_model_collision_monotone(
    screen: Seq<bool>,
    width: u8,
    height: u8,
    gx: u8,
    gy: u8,
    sprite: Seq<u8>,
    k1: nat,
    k2: nat,
)
    requires
        k1 <= k2,
        draw_model(screen, width, height, gx, gy, sprite, k1).1,
    ensures
        draw_model(screen, width, height, gx, gy, sprite, k2).1,
    decreases k2 - k1,
{
    if k2 > k1 {
        lemma_draw_model_collision_monotone(
            screen,
            width,
            height,
            gx,
            gy,
            sprite,
            k1,
            (k2 - 1) as nat,
        );
    }
}

/// Law: when a sprite cell paints a pixel that is lit before the draw, and
/// no other cell of the same draw targets that pixel, the draw reports a
/// collision (the source of VF = 1) and the pixel ends dark: XOR
/// semantics. (When several cells of one draw land on the same pixel the
/// flips can cancel, so the hypothesis rules that out.)
pub proof fn lemma_draw_collision(
    screen: Seq<bool>,
    width: u8,
    height: u8,
    gx: u8,
    gy: u8,
    sprite: Seq<u8>,
    j: int,
)
    requires
        width > 0,
        height > 0,
        screen.len() == width as int * height as int,
        0 <= j < 8 * sprite.len(),
        cell_set(sprite, j),
        screen[cell_target(width, height, gx, gy, j)],
        forall|j2: int|
            0 <= j2 < 8 * sprite.len() && j2 != j && cell_set(sprite, j2) ==> cell_target(
                width,
                height,
                gx,
                gy,
                j2,
            ) != cell_target(width, height, gx, gy, j),
    ensures
        ({
            let dm = draw_model(screen, width, height, gx, gy, sprite, (8 * sprite.len()) as nat);
            dm.1 && !dm.0[cell_target(width, height, gx, gy, j)]
        }),
{
    let p = cell_target(width, height, gx, gy, j);
    let total = (8 * sprite.len()) as nat;
    lemma_pix_index_in_range(width, height, gx + j % 8, gy + j / 8);
    lemma_draw_model_len(screen, width, height, gx, gy, sprite, j as nat);
    lemma_draw_model_frame(screen, width, height, gx, gy, sprite, 0, j as nat, p);
    assert(draw_model(screen, width, height, gx, gy, sprite, j as nat).0[p]);
    let after = draw_model(screen, width, height, gx, gy, sprite, (j + 1) as nat);
    assert(after.1 && !after.0[p]);
    lemma_draw_model_collision_monotone(
        screen,
        width,
        height,
        gx,
        gy,
        sprite,
        (j + 1) as nat,
        total,
    );
    lemma_draw_model_frame(screen, width, height, gx, gy, sprite, (j + 1) as nat, total, p);
}

/// Law: a DRW instruction whose sprite cell `j` paints a pixel lit before
/// the draw sets VF to 1 and turns that pixel off (XOR semantics),
/// provided no other cell of the same draw lands on the same wrapped
/// pixel (otherwise the flips can cancel).
pub proof fn lemma_drw_collision(s: VmState, opcode: u16, rnd: u8, j: int)
    requires
        s.wf(),
        op_of(opcode) == 0xD,
        block_in_range_spec(s.i as int, n_of(opcode) as int),
        ({
            let sprite = s.mem.subrange(s.i as int, s.i as int + n_of(opcode) as int);
            let gx = s.v[x_of(opcode) as int];
            let gy = s.v[y_of(opcode) as int];
            &&& 0 <= j < 8 * sprite.len()
            &&& cell_set(sprite, j)
            &&& s.screen[cell_target(s.width, s.height, gx, gy, j)]
            &&& (forall|j2: int|
                0 <= j2 < 8 * sprite.len() && j2 != j && cell_set(sprite, j2) ==> cell_target(
                    s.width,
                    s.height,
                    gx,
                    gy,
                    j2,
                ) != cell_target(s.width, s.height, gx, gy, j))
        }),
    ensures
        ({
            let sprite = s.mem.subrange(s.i as int, s.i as int + n_of(opcode) as int);
            let gx = s.v[x_of(opcode) as int];
            let gy = s.v[y_of(opcode) as int];
            exec_step(s, opcode, rnd) matches Ok(s2) && s2.v[0xF] == 1 && !s2.screen[cell_target(
                s.width,
                s.height,
                gx,
                gy,
                j,
            )]
        }),
{
    let sprite = s.mem.subrange(s.i as int, s.i as int + n_of(opcode) as int);
    let gx = s.v[x_of(opcode) as int];
    let gy = s.v[y_of(opcode) as int];
    lemma_draw_collision(s.screen, s.width, s.height, gx, gy, sprite, j);
}

/// What a key press does: an index outside the pad is ignored; otherwise
/// the key is marked held and, if the CPU is blocked awaiting a key, the
/// key code lands in the awaited register and the CPU resumes.
pub open spec fn press_model(s: VmState, key: u8) -> VmState {
    if key < 16 {
        let held = VmState { keys: s.keys.update(key as int, true), ..s };
        match s.interrupt {
            Interrupt::AwaitKey(r) => VmState {
                v: held.v.update(r as int, key),
                interrupt: Interrupt::Running,
                ..held
            },
            Interrupt::Running => held,
        }
    } else {
        s
    }
}

/// What a key release does: the keypad flag is cleared; indices outside
/// the pad are ignored.
pub open spec fn release_model(s: VmState, key: u8) -> VmState {
    if key < 16 {
        VmState { keys: s.keys.update(key as int, false), ..s }
    } else {
        s
    }
}

/// What a 60 Hz timer tick does: both timers decay by one, saturating at
/// zero.
pub open spec fn tick_model(s: VmState) -> VmState {
    VmState { dt: s.dt.saturating_sub(1), st: s.st.saturating_sub(1), ..s }
}

} // verus!
