use vstd::prelude::*;

verus! {

/// A location in the machine's memory.
#[derive(PartialEq, Eq, Structural, Debug, Clone, Copy)]
pub struct Address(pub usize);

impl View for Address {
    type V = usize;

    open spec fn view(&self) -> usize {
        self.0
    }
}

impl Address {
    pub fn new(addr: usize) -> (r: Address)
        ensures
            r@ == addr,
    {
        Address(addr)
    }

    pub fn get_raw(&self) -> (r: usize)
        ensures
            r == self@,
    {
        self.0
    }

    /// The address `rhs` bytes further on.
    pub fn add(self, rhs: usize) -> (r: Address)
        requires
            self@ + rhs <= usize::MAX,
        ensures
            r@ == self@ + rhs,
    {
        Address(self.0 + rhs)
    }

    /// Moves this address `rhs` bytes further on.
    pub fn add_assign(&mut self, rhs: usize)
        requires
            old(self)@ + rhs <= usize::MAX,
        ensures
            final(self)@ == old(self)@ + rhs,
    {
        self.0 = self.0 + rhs;
    }

    /// The address written as lower-case hexadecimal with a `0x` prefix.
    pub fn to_hex_string(&self) -> (s: String)
        ensures
            s@ == seq!['0', 'x'] + crate::text::hex_digits(self@ as nat),
    {
        proof {
            reveal_strlit("0x");
        }
        let mut s = crate::text::string_from_literal("0x");
        let digits = crate::text::usize_to_hex(self.0);
        crate::text::string_append(&mut s, &digits);
        s
    }
}

} // verus!
