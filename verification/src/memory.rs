//! Flat, bounds-checked byte memory.

use vstd::prelude::*;

verus! {

/// Number of addressable bytes.
pub const MEMORY_SIZE: usize = 4096;

#[derive(Debug, PartialEq, Eq, Structural, Clone, Copy)]
pub enum MemoryError {
    /// The address lies at or beyond `MEMORY_SIZE`.
    AddressOutOfBounds,
}

/// The machine's RAM. Its view is the sequence of its `MEMORY_SIZE` bytes.
#[derive(Debug)]
pub struct Memory {
    memory: [u8; MEMORY_SIZE],
}

impl View for Memory {
    type V = Seq<u8>;

    closed spec fn view(&self) -> Seq<u8> {
        self.memory@
    }
}

/// What a read at `address` yields.
pub open spec fn read(memory: Seq<u8>, address: int) -> Result<u8, MemoryError> {
    if 0 <= address < MEMORY_SIZE {
        Ok(memory[address])
    } else {
        Err(MemoryError::AddressOutOfBounds)
    }
}

/// The bytes after a write at `address`: a write outside the memory
/// changes nothing.
pub open spec fn written(memory: Seq<u8>, address: int, value: u8) -> Seq<u8> {
    if 0 <= address < MEMORY_SIZE {
        memory.update(address, value)
    } else {
        memory
    }
}

/// What a write at `address` reports.
pub open spec fn write_result(address: int) -> Result<(), MemoryError> {
    if 0 <= address < MEMORY_SIZE {
        Ok(())
    } else {
        Err(MemoryError::AddressOutOfBounds)
    }
}

/// A byte written within the memory is the byte read back from there,
/// and every other address reads as before. Outside the memory a write
/// and a read both report the address and the bytes stay as they were.
pub proof fn lemma_write_then_read(memory: Seq<u8>, address: int, value: u8)
    requires
        memory.len() == MEMORY_SIZE,
    ensures
        0 <= address < MEMORY_SIZE ==> read(written(memory, address, value), address) == Ok::<
            u8,
            MemoryError,
        >(value),
        forall|other: int|
            other != address ==> read(written(memory, address, value), other) == read(
                memory,
                other,
            ),
        !(0 <= address < MEMORY_SIZE) ==> {
            &&& write_result(address) == Err::<(), MemoryError>(MemoryError::AddressOutOfBounds)
            &&& read(memory, address) == Err::<u8, MemoryError>(MemoryError::AddressOutOfBounds)
            &&& written(memory, address, value) == memory
        },
{
}

impl Memory {
    /// A memory whose every byte is zero.
    pub fn new() -> (memory: Memory)
        ensures
            memory@ == Seq::new(MEMORY_SIZE as nat, |a: int| 0u8),
    {
        let memory = Memory { memory: [0; MEMORY_SIZE] };
        assert(memory@ =~= Seq::new(MEMORY_SIZE as nat, |a: int| 0u8));
        memory
    }

    /// The length of the view never changes.
    pub proof fn lemma_len(&self)
        ensures
            self@.len() == MEMORY_SIZE,
    {
    }

    /// Reads the byte at `address`, or reports an address outside the memory.
    pub fn read_byte(&self, address: usize) -> (res: Result<u8, MemoryError>)
        ensures
            self@.len() == MEMORY_SIZE,
            res == read(self@, address as int),
    {
        if address >= MEMORY_SIZE {
            Err(MemoryError::AddressOutOfBounds)
        } else {
            Ok(self.memory[address])
        }
    }

    /// Stores `value` at `address`. An address outside the memory is
    /// reported and leaves every byte as it was.
    pub fn write_byte(&mut self, address: usize, value: u8) -> (res: Result<(), MemoryError>)
        ensures
            final(self)@.len() == MEMORY_SIZE,
            final(self)@ == written(old(self)@, address as int, value),
            res == write_result(address as int),
    {
        if address >= MEMORY_SIZE {
            Err(MemoryError::AddressOutOfBounds)
        } else {
            self.memory[address] = value;
            Ok(())
        }
    }
}

} // verus!
