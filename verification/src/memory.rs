//! The device memory: 64 KiB of bytes holding the system font at the start
//! and the program from `PROGRAM_START` on.

use vstd::prelude::*;
use crate::fonts::{FontData, FontName, FontSize, font_data, small_font, small_font_len};
use crate::PROGRAM_START;

verus! {

/// Size of the memory. The extended (XO-CHIP) address space is always
/// provided, so this is 65536 rather than the 4096 of plain CHIP-8.
pub const MAX_MEMORY: usize = 65536;

/// Device memory
#[derive(Debug)]
pub struct Memory {
    /// Memory data
    pub data: Vec<u8>,
    /// Default system font
    pub system_font: FontName,
    /// Enable extensions
    pub enable_xo: bool,
}

/// `mem` with the bytes from `start` on replaced by `bytes`.
pub open spec fn overwrite(mem: Seq<u8>, start: int, bytes: Seq<u8>) -> Seq<u8> {
    Seq::new(mem.len(), |i: int| if start <= i < start + bytes.len() { bytes[i - start] } else { mem[i] })
}

impl Memory {
    /// The memory is 64 KiB long.
    pub open spec fn wf(&self) -> bool {
        self.data@.len() == MAX_MEMORY
    }

    /// Copies `bytes` into memory from `start` on.
    fn write_bytes(&mut self, start: usize, bytes: &Vec<u8>)
        requires
            start + bytes@.len() <= old(self).data@.len(),
        ensures
            final(self).data@ == overwrite(old(self).data@, start as int, bytes@),
            final(self).system_font == old(self).system_font,
            final(self).enable_xo == old(self).enable_xo,
    {
        let n = bytes.len();
        let total = self.data.len();
        let mut i: usize = 0;
        while i < n
            invariant
                n == bytes@.len(),
                total == old(self).data@.len(),
                start + n <= old(self).data@.len(),
                i <= n,
                self.data@.len() == old(self).data@.len(),
                self.system_font == old(self).system_font,
                self.enable_xo == old(self).enable_xo,
                forall|j: int| 0 <= j < self.data@.len() ==> #[trigger] self.data@[j] == (
                    if start <= j < start + i { bytes@[j - start] } else { old(self).data@[j] }),
            decreases n - i,
        {
            self.data.set(start + i, bytes[i]);
            i += 1;
        }
        assert(self.data@ =~= overwrite(old(self).data@, start as int, bytes@));
    }

    /// Load small font data into memory, at address 0.
    pub fn load_font_small(&mut self, data: FontData)
        requires
            data.small_data@.len() <= old(self).data@.len(),
        ensures
            final(self).data@ == overwrite(old(self).data@, 0, data.small_data@),
            final(self).system_font == data.name,
            final(self).enable_xo == old(self).enable_xo,
    {
        self.write_bytes(0, &data.small_data);
        self.system_font = data.name;
    }

    /// Load large font data into memory, right after the small font of the
    /// current system font. Only done when the XO extension is enabled.
    pub fn load_font_large(&mut self, data: FontData)
        requires
            old(self).enable_xo ==> small_font(old(self).system_font).len() + data.large_data@.len()
                <= old(self).data@.len(),
        ensures
            final(self).data@ == (if old(self).enable_xo {
                overwrite(old(self).data@, small_font(old(self).system_font).len() as int, data.large_data@)
            } else {
                old(self).data@
            }),
            final(self).system_font == old(self).system_font,
            final(self).enable_xo == old(self).enable_xo,
    {
        if self.enable_xo {
            let start = small_font_len(self.system_font);
            self.write_bytes(start, &data.large_data);
        }
    }

    /// Load font data into memory
    pub fn load_font(&mut self, data: FontData, size: FontSize)
        requires
            size is Small ==> data.small_data@.len() <= old(self).data@.len(),
            size is Large && old(self).enable_xo ==> small_font(old(self).system_font).len()
                + data.large_data@.len() <= old(self).data@.len(),
        ensures
            final(self).data@ == match size {
                FontSize::Small => overwrite(old(self).data@, 0, data.small_data@),
                FontSize::Large => if old(self).enable_xo {
                    overwrite(old(self).data@, small_font(old(self).system_font).len() as int, data.large_data@)
                } else {
                    old(self).data@
                },
            },
            final(self).system_font == (if size is Small { data.name } else { old(self).system_font }),
            final(self).enable_xo == old(self).enable_xo,
    {
        match size {
            FontSize::Small => self.load_font_small(data),
            FontSize::Large => self.load_font_large(data),
        }
    }

    /// Load font data into memory by name
    pub fn load_font_name(&mut self, name: FontName, size: FontSize)
        requires
            old(self).wf(),
        ensures
            final(self).wf(),
            final(self).data@ == match size {
                FontSize::Small => overwrite(old(self).data@, 0, small_font(name)),
                FontSize::Large => if old(self).enable_xo {
                    overwrite(old(self).data@, small_font(old(self).system_font).len() as int, crate::fonts::large_font(name))
                } else {
                    old(self).data@
                },
            },
            final(self).system_font == (if size is Small { name } else { old(self).system_font }),
            final(self).enable_xo == old(self).enable_xo,
    {
        let data = font_data(name);
        proof {
            reveal_font_lengths(name);
            reveal_font_lengths(old(self).system_font);
        }
        self.load_font(data, size);
    }

    /// Load ROM data into memory at `PROGRAM_START`. Empty ROM data is
    /// refused and leaves memory unchanged.
    pub fn load_rom(&mut self, data: Vec<u8>)
        requires
            PROGRAM_START + data@.len() <= old(self).data@.len(),
        ensures
            final(self).data@ == (if data@.len() == 0 {
                old(self).data@
            } else {
                overwrite(old(self).data@, PROGRAM_START as int, data@)
            }),
            final(self).system_font == old(self).system_font,
            final(self).enable_xo == old(self).enable_xo,
    {
        if data.len() == 0 {
            return;
        }
        self.write_bytes(PROGRAM_START as usize, &data);
    }
}

/// The lengths of the font tables: at most 80 small bytes and 160 large.
pub proof fn reveal_font_lengths(name: FontName)
    ensures
        small_font(name).len() <= 80,
        crate::fonts::large_font(name).len() <= 160,
{
}

/// Memory of zeros except for the small CHIP-8 font at address 0.
pub open spec fn initial_memory() -> Seq<u8> {
    overwrite(Seq::new(MAX_MEMORY as nat, |i: int| 0u8), 0, small_font(FontName::CHIP8))
}

impl Default for Memory {
    fn default() -> (memory: Self)
        ensures
            memory.wf(),
            memory.data@ == initial_memory(),
            memory.system_font == FontName::CHIP8,
            !memory.enable_xo,
    {
        let mut memory = Memory { data: vec![0u8; MAX_MEMORY], system_font: FontName::CHIP8, enable_xo: false };
        assert(memory.data@ =~= Seq::new(MAX_MEMORY as nat, |i: int| 0u8));
        memory.load_font_small(font_data(FontName::CHIP8));
        memory
    }
}

} // verus!
