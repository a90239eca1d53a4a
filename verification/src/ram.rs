use crate::Chip8Error;
use vstd::prelude::*;

verus! {

/// Bytes of the flat, byte-addressable store.
pub const MEM_SIZE: usize = 4096;

/// The built-in glyph sprites: sixteen 5-byte digit glyphs, placed at the
/// bottom of memory, below the program origin.
pub open spec fn font_sprites() -> Seq<u8> {
    seq![
        0xF0u8, 0x90, 0x90, 0x90, 0xF0,
        0x20, 0x60, 0x20, 0x20, 0x70,
        0xF0, 0x10, 0xF0, 0x80, 0xF0,
        0xF0, 0x10, 0xF0, 0x10, 0xF0,
        0x90, 0x90, 0xF0, 0x10, 0x10,
        0xF0, 0x80, 0xF0, 0x10, 0xF0,
        0xF0, 0x80, 0xF0, 0x90, 0xF0,
        0xF0, 0x10, 0x20, 0x40, 0x40,
        0xF0, 0x90, 0xF0, 0x90, 0xF0,
        0xF0, 0x90, 0xF0, 0x10, 0xF0,
        0xF0, 0x90, 0xF0, 0x90, 0x90,
        0xE0, 0x90, 0xE0, 0x90, 0xE0,
        0xF0, 0x80, 0x80, 0x80, 0xF0,
        0xE0, 0x90, 0x90, 0x90, 0xE0,
        0xF0, 0x80, 0xF0, 0x80, 0xF0,
        0xF0, 0x80, 0xF0, 0x80, 0x80,
    ]
}

/// Memory as the machine starts: the glyph sprites at the bottom, every
/// other byte zero.
pub open spec fn ram_init() -> Seq<u8> {
    Seq::new(4096, |a: int| if 0 <= a < 80 { font_sprites()[a] } else { 0u8 })
}

/// The first out-of-range address of an ascending run of addresses that
/// starts at `base` and reaches past the end of memory.
pub open spec fn first_oob(base: u16) -> u16 {
    if base >= 4096 { base } else { 4096u16 }
}

/// Flat byte-addressable store of fixed size; pure read and write, with
/// out-of-bounds addresses rejected.
pub struct Ram {
    bytes: Vec<u8>,
}

impl View for Ram {
    type V = Seq<u8>;

    closed spec fn view(&self) -> Seq<u8> {
        self.bytes@
    }
}

impl Ram {
    /// Exactly one byte per address.
    pub open spec fn wf(&self) -> bool {
        self@.len() == 4096
    }

    /// Fresh memory holding only the built-in glyph sprites.
    pub fn new() -> (r: Ram)
        ensures
            r.wf(),
            r@ == ram_init(),
    {
        let mut bytes: Vec<u8> = Vec::new();
        bytes.push(0xF0);
        bytes.push(0x90);
        bytes.push(0x90);
        bytes.push(0x90);
        bytes.push(0xF0);
        bytes.push(0x20);
        bytes.push(0x60);
        bytes.push(0x20);
        bytes.push(0x20);
        bytes.push(0x70);
        bytes.push(0xF0);
        bytes.push(0x10);
        bytes.push(0xF0);
        bytes.push(0x80);
        bytes.push(0xF0);
        bytes.push(0xF0);
        bytes.push(0x10);
        bytes.push(0xF0);
        bytes.push(0x10);
        bytes.push(0xF0);
        bytes.push(0x90);
        bytes.push(0x90);
        bytes.push(0xF0);
        bytes.push(0x10);
        bytes.push(0x10);
        bytes.push(0xF0);
        bytes.push(0x80);
        bytes.push(0xF0);
        bytes.push(0x10);
        bytes.push(0xF0);
        bytes.push(0xF0);
        bytes.push(0x80);
        bytes.push(0xF0);
        bytes.push(0x90);
        bytes.push(0xF0);
        bytes.push(0xF0);
        bytes.push(0x10);
        bytes.push(0x20);
        bytes.push(0x40);
        bytes.push(0x40);
        bytes.push(0xF0);
        bytes.push(0x90);
        bytes.push(0xF0);
        bytes.push(0x90);
        bytes.push(0xF0);
        bytes.push(0xF0);
        bytes.push(0x90);
        bytes.push(0xF0);
        bytes.push(0x10);
        bytes.push(0xF0);
        bytes.push(0xF0);
        bytes.push(0x90);
        bytes.push(0xF0);
        bytes.push(0x90);
        bytes.push(0x90);
        bytes.push(0xE0);
        bytes.push(0x90);
        bytes.push(0xE0);
        bytes.push(0x90);
        bytes.push(0xE0);
        bytes.push(0xF0);
        bytes.push(0x80);
        bytes.push(0x80);
        bytes.push(0x80);
        bytes.push(0xF0);
        bytes.push(0xE0);
        bytes.push(0x90);
        bytes.push(0x90);
        bytes.push(0x90);
        bytes.push(0xE0);
        bytes.push(0xF0);
        bytes.push(0x80);
        bytes.push(0xF0);
        bytes.push(0x80);
        bytes.push(0xF0);
        bytes.push(0xF0);
        bytes.push(0x80);
        bytes.push(0xF0);
        bytes.push(0x80);
        bytes.push(0x80);
        proof {
            assert forall|a: int| 0 <= a < 80 implies bytes@[a] == font_sprites()[a] by {}
        }
        while bytes.len() < 4096
            invariant
                80 <= bytes@.len() <= 4096,
                forall|a: int| 0 <= a < 80 ==> bytes@[a] == font_sprites()[a],
                forall|a: int| 80 <= a < bytes@.len() ==> bytes@[a] == 0,
            decreases 4096 - bytes.len(),
        {
            bytes.push(0);
        }
        proof {
            assert(bytes@ =~= ram_init());
        }
        Ram { bytes }
    }

    /// The byte at `address`, or the out-of-bounds error for an address
    /// past the end of memory.
    pub fn read_byte(&self, address: u16) -> (r: Result<u8, Chip8Error>)
        requires
            self.wf(),
        ensures
            address < 4096 ==> r == Ok::<u8, Chip8Error>(self@[address as int]),
            address >= 4096 ==> r == Err::<u8, Chip8Error>(Chip8Error::MemoryOutOfBounds(address)),
    {
        if (address as usize) < MEM_SIZE {
            Ok(self.bytes[address as usize])
        } else {
            Err(Chip8Error::MemoryOutOfBounds(address))
        }
    }

    /// Stores `value` at `address`, or reports the out-of-bounds error and
    /// leaves memory unchanged.
    pub fn write_byte(&mut self, address: u16, value: u8) -> (r: Result<(), Chip8Error>)
        requires
            old(self).wf(),
        ensures
            final(self).wf(),
            address < 4096 ==> r == Ok::<(), Chip8Error>(()) && final(self)@ == old(self)@.update(
                address as int,
                value,
            ),
            address >= 4096 ==> r == Err::<(), Chip8Error>(Chip8Error::MemoryOutOfBounds(address))
                && final(self)@ == old(self)@,
    {
        if (address as usize) < MEM_SIZE {
            self.bytes[address as usize] = value;
            Ok(())
        } else {
            Err(Chip8Error::MemoryOutOfBounds(address))
        }
    }
}

} // verus!
