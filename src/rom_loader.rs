//! A program image held in a buffer of fixed size, ready to be copied into memory.

use vstd::prelude::*;
use crate::ROM_SIZE;

verus! {

/// Why a program image was refused.
#[derive(Clone, Copy, Debug, PartialEq, Eq, Structural)]
pub enum RomError {
    /// The image, of the given length, does not fit between 0x200 and the end of memory.
    TooLarge(usize),
}

/// A program image: its bytes, then zeros up to `ROM_SIZE`.
pub struct RomLoader {
    data: [u8; ROM_SIZE],
    length: usize,
}

impl View for RomLoader {
    type V = Seq<u8>;

    /// The program bytes.
    closed spec fn view(&self) -> Seq<u8> {
        self.data@.subrange(0, self.length as int)
    }
}

impl RomLoader {
    /// The length fits the buffer and the buffer is zero past the program.
    pub closed spec fn wf(&self) -> bool {
        &&& self.length <= ROM_SIZE
        &&& forall|k: int| self.length <= k < ROM_SIZE ==> self.data@[k] == 0
    }

    /// Holds a program image; refuses one longer than `ROM_SIZE` bytes.
    pub fn new(bytes: &[u8]) -> (r: Result<RomLoader, RomError>)
        ensures
            bytes@.len() <= ROM_SIZE <==> r is Ok,
            r matches Ok(rom) ==> rom.wf() && rom@ == bytes@,
            r matches Err(e) ==> e == RomError::TooLarge(bytes@.len() as usize),
    {
        if bytes.len() > ROM_SIZE {
            return Err(RomError::TooLarge(bytes.len()));
        }
        let mut data: [u8; ROM_SIZE] = [0u8; ROM_SIZE];
        let mut length: usize = 0;
        while length < bytes.len()
            invariant
                length <= bytes@.len() <= ROM_SIZE,
                forall|k: int| 0 <= k < length ==> data@[k] == bytes@[k],
                forall|k: int| length <= k < ROM_SIZE ==> data@[k] == 0,
            decreases bytes@.len() - length,
        {
            data[length] = bytes[length];
            length = length + 1;
        }
        let rom = RomLoader { data, length };
        assert(rom@ =~= bytes@);
        Ok(rom)
    }

    /// The whole buffer: the program, then zeros.
    pub fn get_data(&self) -> (r: [u8; ROM_SIZE])
        requires
            self.wf(),
        ensures
            forall|k: int| 0 <= k < self@.len() ==> r@[k] == self@[k],
            forall|k: int| self@.len() <= k < ROM_SIZE ==> r@[k] == 0,
    {
        self.data
    }

    /// The length of the program in bytes.
    pub fn get_length(&self) -> (r: usize)
        requires
            self.wf(),
        ensures
            r == self@.len(),
            r <= ROM_SIZE,
    {
        self.length
    }
}

} // verus!
