//! A cartridge: the raw bytes of a program image in a fixed-size buffer,
//! ready to be loaded into the machine. Reading the image from storage is
//! the caller's concern; this type only holds and truncates bytes.

use vstd::prelude::*;

verus! {

/// Capacity of the cartridge buffer: the memory that lies above the program
/// entry address.
pub const BUFFER_SIZE: usize = 3584;

/// A program image: up to `BUFFER_SIZE` bytes, zero-padded, with the count
/// of meaningful bytes.
pub struct Cartridge {
    pub rom: [u8; BUFFER_SIZE],
    pub size: usize,
}

impl Cartridge {
    /// Build a cartridge from the raw bytes of a program image. Bytes
    /// beyond the buffer capacity are dropped, the rest of the buffer is
    /// zero, and `size` records how many bytes were kept.
    pub fn new(data: &[u8]) -> (c: Cartridge)
        ensures
            c.size == if data@.len() < BUFFER_SIZE {
                data@.len() as int
            } else {
                BUFFER_SIZE as int
            },
            forall|i: int| 0 <= i < c.size ==> c.rom@[i] == data@[i],
            forall|i: int| c.size <= i < BUFFER_SIZE ==> c.rom@[i] == 0u8,
    {
        let mut rom: [u8; BUFFER_SIZE] = [0; 3584];
        let n = if data.len() < BUFFER_SIZE {
            data.len()
        } else {
            BUFFER_SIZE
        };
        let mut i: usize = 0;
        while i < n
            invariant
                n <= data@.len(),
                n <= BUFFER_SIZE,
                i <= n,
                forall|j: int| 0 <= j < i ==> rom@[j] == data@[j],
                forall|j: int| i <= j < BUFFER_SIZE ==> rom@[j] == 0u8,
            decreases n - i,
        {
            rom[i] = data[i];
            i = i + 1;
        }
        Cartridge { rom, size: n }
    }
}

} // verus!
