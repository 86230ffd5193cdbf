use vstd::prelude::*;

verus! {

use crate::cpu::chars::font_seq;
use crate::errors::VmError;

/// Number of addressable bytes: valid addresses are `0..4096`.
pub const CHIP8_MEMORY_SIZE: usize = 4096;

/// The machine's flat byte store: exactly 4096 addressable bytes, with the
/// built-in font seeded in `0x000..0x050` at construction. Every access is
/// bounds-checked and rejected with `OutOfRange` rather than panicking.
pub struct Memory {
    mem: [u8; CHIP8_MEMORY_SIZE],
}

impl View for Memory {
    type V = Seq<u8>;

    closed spec fn view(&self) -> Seq<u8> {
        self.mem@
    }
}

/// The memory contents right after construction: the font table at the
/// bottom, zeroes everywhere else.
pub open spec fn mem_init() -> Seq<u8> {
    Seq::new(4096, |i: int| if i < 80 { font_seq()[i] } else { 0u8 })
}

/// Whether one byte address is valid.
pub open spec fn addr_in_range_spec(addr: int) -> bool {
    0 <= addr < 4096
}

/// Whether a contiguous block of `size` bytes starting at `addr` lies
/// entirely inside memory (a block must not run past the end).
pub open spec fn block_in_range_spec(addr: int, size: int) -> bool {
    0 <= addr < 4096 && addr + size <= 4096
}

/// What a read at `addr` returns.
pub open spec fn peek_spec(m: Seq<u8>, addr: int) -> Result<u8, VmError> {
    if addr_in_range_spec(addr) {
        Ok(m[addr])
    } else {
        Err(VmError::OutOfRange)
    }
}

/// What memory looks like after a write of `v` at `addr`.
pub open spec fn poke_spec(m: Seq<u8>, addr: int, v: u8) -> Result<Seq<u8>, VmError> {
    if addr_in_range_spec(addr) {
        Ok(m.update(addr, v))
    } else {
        Err(VmError::OutOfRange)
    }
}

/// Memory after a buffer `data` has been copied in starting at `addr`.
pub open spec fn loaded(m: Seq<u8>, addr: int, data: Seq<u8>) -> Seq<u8> {
    Seq::new(4096, |j: int| if addr <= j < addr + data.len() { data[j - addr] } else { m[j] })
}

impl Memory {
    /// A fresh memory: all 4096 bytes exist, the font table occupies the
    /// first 80 bytes, and the rest is zero.
    pub fn new() -> (r: Memory)
        ensures
            r@ == mem_init(),
    {
        let mut mem: [u8; CHIP8_MEMORY_SIZE] = [0u8; CHIP8_MEMORY_SIZE];
        let font = crate::cpu::chars::chip8_characters();
        let mut i: usize = 0;
        while i < 80
            invariant
                i <= 80,
                font@ == font_seq(),
                forall|j: int| 0 <= j < i ==> mem@[j] == font_seq()[j],
                forall|j: int| i <= j < 4096 ==> mem@[j] == 0u8,
            decreases 80 - i,
        {
            mem[i] = font[i];
            i += 1;
        }
        let r = Memory { mem };
        proof {
            assert(r@ =~= mem_init());
        }
        r
    }

    /// Every memory value has exactly 4096 bytes: the length of the view
    /// is an invariant of the type, available to any caller.
    pub proof fn lemma_len(&self)
        ensures
            self@.len() == 4096,
    {
    }

    /// Whether `addr` is a valid byte address.
    pub fn in_range(&self, addr: usize) -> (r: bool)
        ensures
            r == addr_in_range_spec(addr as int),
    {
        addr < CHIP8_MEMORY_SIZE
    }

    /// Whether the block `addr..addr + size` lies entirely inside memory.
    pub fn block_in_range(&self, addr: usize, size: usize) -> (r: bool)
        ensures
            r == block_in_range_spec(addr as int, size as int),
    {
        addr < CHIP8_MEMORY_SIZE && size <= CHIP8_MEMORY_SIZE - addr
    }

    /// A copy of the `size` bytes starting at `addr`, or `OutOfRange` if the
    /// block does not fit.
    pub fn block(&self, addr: usize, size: usize) -> (r: Result<Vec<u8>, VmError>)
        ensures
            block_in_range_spec(addr as int, size as int) ==> (r matches Ok(b)
                && b@ == self@.subrange(addr as int, addr as int + size as int)),
            !block_in_range_spec(addr as int, size as int) ==> r == Err::<Vec<u8>, VmError>(
                VmError::OutOfRange,
            ),
    {
        if self.block_in_range(addr, size) {
            let s = vstd::slice::slice_subrange(self.mem.as_slice(), addr, addr + size);
            Ok(vstd::slice::slice_to_vec(s))
        } else {
            Err(VmError::OutOfRange)
        }
    }

    /// The byte at `addr`, or `OutOfRange`.
    pub fn peek(&self, addr: usize) -> (r: Result<u8, VmError>)
        ensures
            r == peek_spec(self@, addr as int),
    {
        if self.in_range(addr) {
            Ok(self.mem[addr])
        } else {
            Err(VmError::OutOfRange)
        }
    }

    /// Writes `v` at `addr`; fails with `OutOfRange` leaving memory
    /// untouched when `addr` is out of bounds.
    pub fn poke(&mut self, addr: usize, v: u8) -> (r: Result<(), VmError>)
        ensures
            match poke_spec(old(self)@, addr as int, v) {
                Ok(m2) => r == Ok::<(), VmError>(()) && final(self)@ == m2,
                Err(e) => r == Err::<(), VmError>(e) && final(self)@ == old(self)@,
            },
    {
        if self.in_range(addr) {
            self.mem[addr] = v;
            Ok(())
        } else {
            Err(VmError::OutOfRange)
        }
    }

    /// Copies `data` into memory starting at `addr`. The copy is atomic: if
    /// any byte of the block would fall outside memory, nothing is written
    /// and the call fails with `OutOfRange`.
    pub fn load(&mut self, addr: usize, data: &[u8]) -> (r: Result<(), VmError>)
        ensures
            block_in_range_spec(addr as int, data@.len() as int) ==> r == Ok::<(), VmError>(())
                && final(self)@ == loaded(old(self)@, addr as int, data@),
            !block_in_range_spec(addr as int, data@.len() as int) ==> r == Err::<(), VmError>(
                VmError::OutOfRange,
            ) && final(self)@ == old(self)@,
    {
        let size = data.len();
        if self.block_in_range(addr, size) {
            let mut i: usize = 0;
            while i < size
                invariant
                    i <= size,
                    size == data@.len(),
                    block_in_range_spec(addr as int, size as int),
                    self@.len() == 4096,
                    forall|j: int| 0 <= j < i ==> self@[addr + j] == data@[j],
                    forall|j: int|
                        0 <= j < 4096 && !(addr <= j < addr + i) ==> self@[j] == old(self)@[j],
                decreases size - i,
            {
                self.mem[addr + i] = *vstd::slice::slice_index_get(data, i);
                i += 1;
            }
            proof {
                assert(self@ =~= loaded(old(self)@, addr as int, data@));
            }
            Ok(())
        } else {
            Err(VmError::OutOfRange)
        }
    }

    /// Loads a program image at the canonical start address `0x200`. Fails
    /// atomically with `OutOfRange` when the program is larger than the
    /// `4096 - 0x200` bytes available, leaving memory unmodified.
    pub fn load_program(&mut self, program: &[u8]) -> (r: Result<(), VmError>)
        ensures
            program@.len() <= 3584 ==> r == Ok::<(), VmError>(()) && final(self)@ == loaded(
                old(self)@,
                0x200,
                program@,
            ),
            program@.len() > 3584 ==> r == Err::<(), VmError>(VmError::OutOfRange)
                && final(self)@ == old(self)@,
    {
        self.load(0x200, program)
    }
}

/// Law: for every address in `0..4095`, a poke followed by a peek at the
/// same address reads back the byte that was written; at address 4096 both
/// poke and peek fail with `OutOfRange`.
pub proof fn lemma_poke_then_peek(m: Seq<u8>, a: int, v: u8)
    requires
        m.len() == 4096,
    ensures
        0 <= a < 4096 ==> poke_spec(m, a, v) == Ok::<Seq<u8>, VmError>(m.update(a, v)),
        0 <= a < 4096 ==> peek_spec(m.update(a, v), a) == Ok::<u8, VmError>(v),
        poke_spec(m, 4096, v) == Err::<Seq<u8>, VmError>(VmError::OutOfRange),
        peek_spec(m, 4096) == Err::<u8, VmError>(VmError::OutOfRange),
{
}

} // verus!
