use vstd::prelude::*;

use crate::vm::address::Address;
use crate::vm::token::{spec_register_byte, RegisterType};

verus! {

/// Why an instruction's argument could not be read.
#[derive(Debug, Clone, Copy, PartialEq, Eq, Structural)]
pub enum ArgumentParseError {
    /// The argument ends before the value.
    EndOfArgument,
    /// The byte names no register.
    InvalidRegister(u8),
}

/// The register that a byte encodes, if any.
pub open spec fn register_from_byte(b: u8) -> Option<RegisterType> {
    if b == 1 {
        Some(RegisterType::A8)
    } else if b == 2 {
        Some(RegisterType::A16)
    } else if b == 3 {
        Some(RegisterType::A32)
    } else if b == 4 {
        Some(RegisterType::A64)
    } else if b == 5 {
        Some(RegisterType::B8)
    } else if b == 6 {
        Some(RegisterType::B16)
    } else if b == 7 {
        Some(RegisterType::B32)
    } else if b == 8 {
        Some(RegisterType::B64)
    } else if b == 9 {
        Some(RegisterType::C8)
    } else if b == 10 {
        Some(RegisterType::C16)
    } else if b == 11 {
        Some(RegisterType::C32)
    } else if b == 12 {
        Some(RegisterType::C64)
    } else if b == 13 {
        Some(RegisterType::D8)
    } else if b == 14 {
        Some(RegisterType::D16)
    } else if b == 15 {
        Some(RegisterType::D32)
    } else if b == 16 {
        Some(RegisterType::D64)
    } else if b == 254 {
        Some(RegisterType::SP)
    } else if b == 255 {
        Some(RegisterType::IP)
    } else {
        None
    }
}

/// Each register is read back from the byte that encodes it.
pub proof fn law_register_byte_round_trip(r: RegisterType)
    ensures
        register_from_byte(spec_register_byte(r)) == Some(r),
{
}

/// `256` to the power `n`.
pub open spec fn pow256(n: nat) -> nat
    decreases n,
{
    if n == 0 {
        1
    } else {
        256 * pow256((n - 1) as nat)
    }
}

/// The number that bytes encode, least significant first.
pub open spec fn le_value(s: Seq<u8>) -> nat
    decreases s.len(),
{
    if s.len() == 0 {
        0
    } else {
        s[0] as nat + 256 * le_value(s.drop_first())
    }
}

/// The byte at `p`, and where the argument goes on.
pub open spec fn arg_u8(args: Seq<u8>, p: int) -> Result<(u8, int), ArgumentParseError> {
    if 0 <= p < args.len() {
        Ok((args[p], p + 1))
    } else {
        Err(ArgumentParseError::EndOfArgument)
    }
}

/// The register named at `p`, and where the argument goes on.
pub open spec fn arg_register(args: Seq<u8>, p: int) -> Result<(RegisterType, int), ArgumentParseError> {
    match arg_u8(args, p) {
        Ok((b, q)) => match register_from_byte(b) {
            Some(r) => Ok((r, q)),
            None => Err(ArgumentParseError::InvalidRegister(b)),
        },
        Err(e) => Err(e),
    }
}

/// The eight-byte address at `p`, and where the argument goes on.
pub open spec fn arg_address(args: Seq<u8>, p: int) -> Result<(Address, int), ArgumentParseError> {
    if 0 <= p && p + 8 <= args.len() {
        Ok((Address(le_value(args.subrange(p, p + 8)) as usize), p + 8))
    } else {
        Err(ArgumentParseError::EndOfArgument)
    }
}

/// The `n`-byte number at `p`, least significant byte first, and where the
/// argument goes on.
pub open spec fn arg_number(args: Seq<u8>, p: int, n: nat) -> Result<(u64, int), ArgumentParseError> {
    if 0 <= p && p + n <= args.len() {
        Ok((le_value(args.subrange(p, p + n)) as u64, p + n))
    } else {
        Err(ArgumentParseError::EndOfArgument)
    }
}

/// Bytes encode a number below `256` to the power of their count.
pub proof fn lemma_le_value_bound(s: Seq<u8>)
    ensures
        le_value(s) < pow256(s.len()),
    decreases s.len(),
{
    if s.len() > 0 {
        lemma_le_value_bound(s.drop_first());
        assert(le_value(s) < pow256(s.len())) by (nonlinear_arith)
            requires
                le_value(s) == s[0] + 256 * le_value(s.drop_first()),
                le_value(s.drop_first()) + 1 <= pow256(s.drop_first().len()),
                pow256(s.len()) == 256 * pow256(s.drop_first().len()),
                s[0] < 256,
        ;
    }
}

/// Powers of 256 grow with the exponent.
pub proof fn lemma_pow256_monotonic(m: nat, n: nat)
    requires
        m <= n,
    ensures
        pow256(m) <= pow256(n),
    decreases n,
{
    if m < n {
        lemma_pow256_monotonic(m, (n - 1) as nat);
    }
}

/// The number that up to eight bytes encode, least significant first.
pub fn le_to_u64(bytes: &[u8]) -> (r: u64)
    requires
        bytes@.len() <= 8,
    ensures
        r == le_value(bytes@),
{
    let n = bytes.len();
    let mut v: u64 = 0;
    let mut i: usize = n;
    assert(bytes@.subrange(n as int, n as int) =~= Seq::<u8>::empty());
    assert(pow256(8) == 0x1_0000_0000_0000_0000) by {
        reveal_with_fuel(pow256, 9);
    }
    while i > 0
        invariant
            n == bytes@.len(),
            n <= 8,
            pow256(8) == 0x1_0000_0000_0000_0000,
            i <= n,
            v == le_value(bytes@.subrange(i as int, n as int)),
        decreases i,
    {
        i = i - 1;
        let ghost rest = bytes@.subrange(i + 1, n as int);
        let ghost here = bytes@.subrange(i as int, n as int);
        assert(here.drop_first() =~= rest);
        proof {
            lemma_le_value_bound(rest);
            lemma_pow256_monotonic(rest.len(), 7);
            assert(pow256(8) == 256 * pow256(7));
            assert(v * 256 + bytes@[i as int] < 0x1_0000_0000_0000_0000) by (nonlinear_arith)
                requires
                    v < pow256(7),
                    pow256(8) == 256 * pow256(7),
                    pow256(8) == 0x1_0000_0000_0000_0000,
                    bytes@[i as int] < 256,
            ;
        }
        v = v * 256 + bytes[i] as u64;
    }
    assert(bytes@.subrange(0, n as int) =~= bytes@);
    v
}

/// Reads an instruction's argument bytes in order.
pub struct Argument<'a> {
    data: &'a [u8],
    pos: usize,
}

impl<'a> Argument<'a> {
    /// The argument bytes.
    pub closed spec fn bytes(&self) -> Seq<u8> {
        self.data@
    }

    /// How many bytes have been read.
    pub closed spec fn position(&self) -> int {
        self.pos as int
    }

    pub fn new(argument: &'a [u8]) -> (r: Argument<'a>)
        ensures
            r.bytes() == argument@,
            r.position() == 0,
    {
        Argument { data: argument, pos: 0 }
    }

    /// The next byte.
    pub fn parse_u8(&mut self) -> (r: Result<u8, ArgumentParseError>)
        requires
            old(self).position() <= old(self).bytes().len(),
        ensures
            final(self).bytes() == old(self).bytes(),
            final(self).position() <= final(self).bytes().len(),
            match arg_u8(old(self).bytes(), old(self).position()) {
                Ok((b, q)) => r == Ok::<u8, ArgumentParseError>(b) && final(self).position() == q,
                Err(e) => r == Err::<u8, ArgumentParseError>(e) && final(self).position()
                    == old(self).position(),
            },
    {
        if self.pos < self.data.len() {
            let b = self.data[self.pos];
            self.pos = self.pos + 1;
            Ok(b)
        } else {
            Err(ArgumentParseError::EndOfArgument)
        }
    }

    /// The register named by the next byte.
    pub fn parse_register(&mut self) -> (r: Result<RegisterType, ArgumentParseError>)
        requires
            old(self).position() <= old(self).bytes().len(),
        ensures
            final(self).bytes() == old(self).bytes(),
            final(self).position() <= final(self).bytes().len(),
            match arg_register(old(self).bytes(), old(self).position()) {
                Ok((reg, q)) => r == Ok::<RegisterType, ArgumentParseError>(reg)
                    && final(self).position() == q,
                Err(e) => r == Err::<RegisterType, ArgumentParseError>(e),
            },
    {
        let b = match self.parse_u8() {
            Ok(b) => b,
            Err(e) => {
                return Err(e);
            },
        };
        match b {
            1 => Ok(RegisterType::A8),
            2 => Ok(RegisterType::A16),
            3 => Ok(RegisterType::A32),
            4 => Ok(RegisterType::A64),
            5 => Ok(RegisterType::B8),
            6 => Ok(RegisterType::B16),
            7 => Ok(RegisterType::B32),
            8 => Ok(RegisterType::B64),
            9 => Ok(RegisterType::C8),
            10 => Ok(RegisterType::C16),
            11 => Ok(RegisterType::C32),
            12 => Ok(RegisterType::C64),
            13 => Ok(RegisterType::D8),
            14 => Ok(RegisterType::D16),
            15 => Ok(RegisterType::D32),
            16 => Ok(RegisterType::D64),
            254 => Ok(RegisterType::SP),
            255 => Ok(RegisterType::IP),
            _ => Err(ArgumentParseError::InvalidRegister(b)),
        }
    }

    /// The number in the next `n` bytes, least significant first.
    pub fn parse_number(&mut self, n: usize) -> (r: Result<u64, ArgumentParseError>)
        requires
            old(self).position() <= old(self).bytes().len(),
            n <= 8,
        ensures
            final(self).bytes() == old(self).bytes(),
            final(self).position() <= final(self).bytes().len(),
            match arg_number(old(self).bytes(), old(self).position(), n as nat) {
                Ok((v, q)) => r == Ok::<u64, ArgumentParseError>(v) && final(self).position() == q,
                Err(e) => r == Err::<u64, ArgumentParseError>(e) && final(self).position()
                    == old(self).position(),
            },
    {
        if self.data.len() - self.pos < n {
            return Err(ArgumentParseError::EndOfArgument);
        }
        let bytes = vstd::slice::slice_subrange(self.data, self.pos, self.pos + n);
        let v = le_to_u64(bytes);
        self.pos = self.pos + n;
        Ok(v)
    }

    /// The address in the next eight bytes, least significant first.
    pub fn parse_address(&mut self) -> (r: Result<Address, ArgumentParseError>)
        requires
            old(self).position() <= old(self).bytes().len(),
        ensures
            final(self).bytes() == old(self).bytes(),
            final(self).position() <= final(self).bytes().len(),
            match arg_address(old(self).bytes(), old(self).position()) {
                Ok((a, q)) => r == Ok::<Address, ArgumentParseError>(a) && final(self).position()
                    == q,
                Err(e) => r == Err::<Address, ArgumentParseError>(e) && final(self).position()
                    == old(self).position(),
            },
    {
        if self.data.len() - self.pos < 8 {
            return Err(ArgumentParseError::EndOfArgument);
        }
        let bytes = vstd::slice::slice_subrange(self.data, self.pos, self.pos + 8);
        let v = le_to_u64(bytes);
        self.pos = self.pos + 8;
        Ok(Address(#[verifier::truncate] (v as usize)))
    }
}

} // verus!
