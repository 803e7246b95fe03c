//! The 4096-byte addressable store of the machine.
//!
//! Addresses `0x050`..=`0x09F` are filled once, at construction, with the 16
//! five-byte hex-glyph bitmaps; program bytes load at `0x200`. Address 0 is
//! reserved: it is never a valid target for the general reads and writes, and
//! out-of-range accesses degrade to defaults (a read yields 0, a write is
//! refused) rather than halting the machine.

use vstd::prelude::*;

verus! {

/// The struct that holds our memory. All memory is readable and writable.
pub struct Mem {
    pub data: [u8; 4096],
}

pub const _INTERP_START: usize = 0x00;
pub const _INTERP_END: usize = 0x1FF;
pub const _PROG_START: usize = 0x200;
pub const _PROG_END: usize = 0x1FFF;
pub const _FONT_START: usize = 0x050;
pub const _FONT_END: usize = 0x09F;

/// The 16 five-byte glyph bitmaps for the hex digits 0-F, in order.
pub const FONTS: [u8; 80] = [
    0xF0, 0x90, 0x90, 0x90, 0xF0, // 0
    0x20, 0x60, 0x20, 0x20, 0x70, // 1
    0xF0, 0x10, 0xF0, 0x80, 0xF0, // 2
    0xF0, 0x10, 0xF0, 0x10, 0xF0, // 3
    0x90, 0x90, 0xF0, 0x10, 0x10, // 4
    0xF0, 0x80, 0xF0, 0x10, 0xF0, // 5
    0xF0, 0x80, 0xF0, 0x90, 0xF0, // 6
    0xF0, 0x10, 0x20, 0x40, 0x40, // 7
    0xF0, 0x90, 0xF0, 0x90, 0xF0, // 8
    0xF0, 0x90, 0xF0, 0x10, 0xF0, // 9
    0xF0, 0x90, 0xF0, 0x90, 0x90, // A
    0xE0, 0x90, 0xE0, 0x90, 0xE0, // B
    0xF0, 0x80, 0x80, 0x80, 0xF0, // C
    0xE0, 0x90, 0x90, 0x90, 0xE0, // D
    0xF0, 0x80, 0xF0, 0x80, 0xF0, // E
    0xF0, 0x80, 0xF0, 0x80, 0x80, // F
];

/// What a one-byte read at `addr` yields: the stored byte inside the general
/// range 1..=4095, and the default 0 everywhere else.
pub open spec fn byte_at(m: Seq<u8>, addr: int) -> u8 {
    if 1 <= addr && addr <= 4095 {
        m[addr]
    } else {
        0
    }
}

/// The store a one-byte write at `addr` leaves behind: updated inside
/// 1..=4095, untouched everywhere else.
pub open spec fn mem_store(m: Seq<u8>, addr: int, v: u8) -> Seq<u8> {
    if 1 <= addr && addr <= 4095 {
        m.update(addr, v)
    } else {
        m
    }
}

/// What a two-byte read at `addr` yields: the two consecutive stored bytes
/// inside the range 1..=4094, and `[0, 0]` everywhere else.
pub open spec fn word_at(m: Seq<u8>, addr: int) -> Seq<u8> {
    if 1 <= addr && addr <= 4094 {
        seq![m[addr], m[addr + 1]]
    } else {
        seq![0u8, 0u8]
    }
}

/// A fresh memory: all zero except the font region, which holds the 16 glyph
/// bitmaps back to back.
pub fn make_memory() -> (m: Mem)
    ensures
        forall|i: int|
            _FONT_START <= i <= _FONT_END ==> m.data@[i] == FONTS[i - _FONT_START],
        forall|i: int|
            0 <= i < 4096 && !(_FONT_START <= i <= _FONT_END) ==> m.data@[i] == 0,
{
    let data: [u8; 4096] = [0x0; 4096];
    let mut new_mem: Mem = Mem { data: data };

    /* Store the fonts into the memory */
    let mut i: usize = _FONT_START;
    while i <= _FONT_END
        invariant
            _FONT_START <= i <= _FONT_END + 1,
            forall|j: int| _FONT_START <= j < i ==> new_mem.data@[j] == FONTS[j - _FONT_START],
            forall|j: int|
                0 <= j < 4096 && !(_FONT_START <= j < i) ==> new_mem.data@[j] == 0,
        decreases _FONT_END + 1 - i,
    {
        new_mem.data[i] = FONTS[i - _FONT_START];
        i += 1;
    }
    new_mem
}

impl Mem {
    /// Store one byte; refused (returning false) outside 1..=4095.
    pub fn write8(&mut self, address: usize, data: u8) -> (r: bool)
        ensures
            r == (1 <= address <= 4095),
            final(self).data@ == mem_store(old(self).data@, address as int, data),
    {
        if (address < 1) || (address > 4096 - 1) {
            return false;
        }
        self.data[address] = data;
        true
    }

    /// Store two consecutive bytes; refused (returning false) outside 1..=4094,
    /// so that no partial write is ever observable.
    pub fn write16(&mut self, address: usize, data: [u8; 2]) -> (r: bool)
        ensures
            r == (1 <= address <= 4094),
            final(self).data@ == if 1 <= address <= 4094 {
                old(self).data@.update(address as int, data@[0]).update(address + 1, data@[1])
            } else {
                old(self).data@
            },
    {
        if (address < 1) || (address > 4096 - 2) {
            return false;
        }
        self.data[address] = data[0];
        self.data[address + 1] = data[1];
        true
    }

    /// Read one byte; 0 outside 1..=4095.
    pub fn read8(&mut self, address: usize) -> (out: u8)
        ensures
            out == byte_at(old(self).data@, address as int),
            *final(self) == *old(self),
    {
        if (address < 1) || (address > 4096 - 1) {
            return 0x00;
        }
        self.data[address]
    }

    /// Read two consecutive bytes; `[0, 0]` outside 1..=4094.
    pub fn read16(&self, address: usize) -> (out: [u8; 2])
        ensures
            out@ == word_at(self.data@, address as int),
    {
        if (address < 1) || (address > 4096 - 2) {
            return [0x00, 0x00];
        }
        [self.data[address], self.data[address + 1]]
    }

    /// Copy a program image into memory starting at `_PROG_START`, byte for
    /// byte. An image longer than the space above `_PROG_START` cannot be
    /// stored; callers must reject such a program as a load error.
    pub fn store_game(&mut self, contents: Vec<u8>)
        requires
            contents@.len() <= 4096 - _PROG_START,
        ensures
            forall|i: int|
                0 <= i < contents@.len() ==> final(self).data@[_PROG_START + i] == contents@[i],
            forall|i: int|
                0 <= i < 4096 && !(_PROG_START <= i < _PROG_START + contents@.len())
                    ==> final(self).data@[i] == old(self).data@[i],
    {
        let mut i: usize = 0;
        while i < contents.len()
            invariant
                0 <= i <= contents@.len(),
                contents@.len() <= 4096 - _PROG_START,
                forall|j: int| 0 <= j < i ==> self.data@[_PROG_START + j] == contents@[j],
                forall|j: int|
                    0 <= j < 4096 && !(_PROG_START <= j < _PROG_START + i)
                        ==> self.data@[j] == old(self).data@[j],
            decreases contents@.len() - i,
        {
            self.data[_PROG_START + i] = contents[i];
            i += 1;
        }
    }
}

} // verus!
