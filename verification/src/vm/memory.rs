use vstd::prelude::*;

use crate::vm::address::Address;

verus! {

/// Why a memory access failed.
#[derive(Debug, Clone, Copy, PartialEq, Eq, Structural)]
pub enum MemoryError {
    /// The address lies outside the memory.
    InvalidAddr(Address),
    /// The address is inside the memory but the run of bytes from it is not.
    OutOfRange(Address, usize),
}

/// What reading `len` bytes at `address` of `mem` gives.
pub open spec fn read_bytes(mem: Seq<u8>, address: Address, len: usize) -> Result<Seq<u8>, MemoryError> {
    if address@ >= mem.len() {
        Err(MemoryError::InvalidAddr(address))
    } else if address@ + len > mem.len() {
        Err(MemoryError::OutOfRange(address, len))
    } else {
        Ok(mem.subrange(address@ as int, address@ + len))
    }
}

/// The memory after writing `values` at `address`, or why that fails.
pub open spec fn write_bytes(mem: Seq<u8>, address: Address, values: Seq<u8>) -> Result<Seq<u8>, MemoryError> {
    if address@ >= mem.len() {
        Err(MemoryError::InvalidAddr(address))
    } else if address@ + values.len() > mem.len() {
        Err(MemoryError::OutOfRange(address, values.len() as usize))
    } else {
        Ok(mem.take(address@ as int) + values + mem.skip(address@ + values.len()))
    }
}

/// The machine's memory: a fixed run of bytes, addressed from zero.
pub struct Memory {
    data: Vec<u8>,
}

impl View for Memory {
    type V = Seq<u8>;

    closed spec fn view(&self) -> Seq<u8> {
        self.data@
    }
}

impl Memory {
    /// A memory holding `data`.
    pub fn new(data: Vec<u8>) -> (r: Memory)
        ensures
            r@ == data@,
    {
        Memory { data }
    }

    /// The number of bytes.
    pub fn len(&self) -> (r: usize)
        ensures
            r == self@.len(),
    {
        self.data.len()
    }

    /// The byte at `address`.
    pub fn mem_get(&self, address: Address) -> (r: Result<u8, MemoryError>)
        ensures
            r == (if address@ < self@.len() {
                Ok::<u8, MemoryError>(self@[address@ as int])
            } else {
                Err(MemoryError::InvalidAddr(address))
            }),
    {
        let a = address.get_raw();
        if a < self.data.len() {
            Ok(self.data[a])
        } else {
            Err(MemoryError::InvalidAddr(address))
        }
    }

    /// The `len` bytes from `address` on.
    pub fn mem_gets(&self, address: Address, len: usize) -> (r: Result<Vec<u8>, MemoryError>)
        ensures
            match read_bytes(self@, address, len) {
                Ok(bytes) => r matches Ok(v) && v@ == bytes,
                Err(e) => r == Err::<Vec<u8>, MemoryError>(e),
            },
    {
        let a = address.get_raw();
        if a >= self.data.len() {
            return Err(MemoryError::InvalidAddr(address));
        }
        if len > self.data.len() - a {
            return Err(MemoryError::OutOfRange(address, len));
        }
        let v = vstd::slice::slice_subrange(self.data.as_slice(), a, a + len);
        Ok(vstd::slice::slice_to_vec(v))
    }

    /// Writes `value` at `address`.
    pub fn mem_set(&mut self, address: Address, value: u8) -> (r: Result<(), MemoryError>)
        ensures
            address@ < old(self)@.len() ==> r is Ok && final(self)@ == old(self)@.update(
                address@ as int,
                value,
            ),
            address@ >= old(self)@.len() ==> r == Err::<(), MemoryError>(
                MemoryError::InvalidAddr(address),
            ) && final(self)@ == old(self)@,
    {
        let a = address.get_raw();
        if a < self.data.len() {
            self.data.set(a, value);
            Ok(())
        } else {
            Err(MemoryError::InvalidAddr(address))
        }
    }

    /// Writes `values` from `address` on.
    pub fn mem_sets(&mut self, address: Address, values: &[u8]) -> (r: Result<(), MemoryError>)
        ensures
            match write_bytes(old(self)@, address, values@) {
                Ok(m) => r is Ok && final(self)@ == m,
                Err(e) => r == Err::<(), MemoryError>(e) && final(self)@ == old(self)@,
            },
    {
        let a = address.get_raw();
        if a >= self.data.len() {
            return Err(MemoryError::InvalidAddr(address));
        }
        if values.len() > self.data.len() - a {
            return Err(MemoryError::OutOfRange(address, values.len()));
        }
        let ghost before = self.data@;
        let end = a + values.len();
        let mut i: usize = 0;
        while i < values.len()
            invariant
                end == a + values@.len(),
                a + values@.len() <= before.len(),
                i <= values@.len(),
                self.data@.len() == before.len(),
                forall|k: int| 0 <= k < a ==> self.data@[k] == before[k],
                forall|k: int| 0 <= k < i ==> self.data@[a + k] == values@[k],
                forall|k: int| a + i <= k < before.len() ==> self.data@[k] == before[k],
            decreases values@.len() - i,
        {
            self.data.set(a + i, values[i]);
            i = i + 1;
        }
        assert(self.data@ =~= before.take(a as int) + values@ + before.skip(a + values@.len()));
        Ok(())
    }
}

} // verus!
