use vstd::prelude::*;

use crate::vm::address::Address;

verus! {

/// Byte, half-word and word widths of the sub-registers, as moduli.
pub const WIDTH_8: u64 = 0x100;
pub const WIDTH_16: u64 = 0x1_0000;
pub const WIDTH_32: u64 = 0x1_0000_0000;

/// The part of `full` that a sub-register of modulus `width` reads: its low bits.
pub open spec fn low_part(full: u64, width: u64) -> int {
    (full % width) as int
}

/// `full` with its low bits (below modulus `width`) replaced by `data`,
/// the high bits left as they were.
pub open spec fn with_low_part(full: u64, data: int, width: u64) -> int {
    full - full % width + data
}

/// The contents of a register file.
pub struct RegisterValues {
    pub a: u64,
    pub b: u64,
    pub c: u64,
    pub d: u64,
    pub ip: usize,
}

/// Simple register file
///
/// Pattern:
/// "{register_name}{bits_amount}"
///
/// Registers:
/// 'a8' lower 8 bit of 'a' register
/// 'a16' lower 16 bit of 'a' register
/// 'a32' lower 32 bit of 'a' register
/// 'a64' full 64 bit of 'a' register
/// ...
/// 'ip' instruction pointer. bits amount depends on target arch
///
pub struct Register {
    a: u64,
    b: u64,
    c: u64,
    d: u64,
    ip: Address,
}

impl View for Register {
    type V = RegisterValues;

    closed spec fn view(&self) -> RegisterValues {
        RegisterValues { a: self.a, b: self.b, c: self.c, d: self.d, ip: self.ip@ }
    }
}

/// The sub-register widths.
pub open spec fn is_sub_width(width: u64) -> bool {
    width == WIDTH_8 || width == WIDTH_16 || width == WIDTH_32
}

/// Writing `data` into the low part of a register and reading that part back
/// gives `data`; the bits above the part are unchanged; the written value
/// still fits in 64 bits.
pub proof fn law_sub_register_write_read(full: u64, data: int, width: u64)
    requires
        is_sub_width(width),
        0 <= data < width,
    ensures
        0 <= with_low_part(full, data, width) <= u64::MAX,
        low_part(with_low_part(full, data, width) as u64, width) == data,
        with_low_part(full, data, width) / (width as int) == (full as int) / (width as int),
{
    let w = width as int;
    let f = full as int;
    assert(0 <= f % w < w);
    assert(f == w * (f / w) + f % w) by (nonlinear_arith)
        requires
            w > 0,
    ;
    let v = f - f % w + data;
    assert(v == w * (f / w) + data);
    assert(v % w == data && v / w == f / w) by (nonlinear_arith)
        requires
            v == w * (f / w) + data,
            0 <= data < w,
            w > 0,
    ;
    assert(f / w <= (u64::MAX as int) / w) by (nonlinear_arith)
        requires
            0 <= f <= u64::MAX,
            w > 0,
    ;
    assert(w * ((u64::MAX as int) / w) + w - 1 <= u64::MAX) by {
        if width == WIDTH_8 {
            assert(0x100 * (0xFFFF_FFFF_FFFF_FFFFint / 0x100) + 0xFF <= u64::MAX);
        } else if width == WIDTH_16 {
            assert(0x10000 * (0xFFFF_FFFF_FFFF_FFFFint / 0x10000) + 0xFFFF <= u64::MAX);
        } else {
            assert(0x1_0000_0000 * (0xFFFF_FFFF_FFFF_FFFFint / 0x1_0000_0000) + 0xFFFF_FFFF
                <= u64::MAX);
        }
    }
    assert(v <= u64::MAX) by (nonlinear_arith)
        requires
            v == w * (f / w) + data,
            f / w <= (u64::MAX as int) / w,
            w * ((u64::MAX as int) / w) + w - 1 <= u64::MAX,
            data < w,
            w > 0,
    ;
}

/// Two writes to the same sub-register: the second one wins.
pub proof fn law_sub_register_last_write_wins(full: u64, first: int, second: int, width: u64)
    requires
        is_sub_width(width),
        0 <= first < width,
        0 <= second < width,
    ensures
        with_low_part(with_low_part(full, first, width) as u64, second, width) == with_low_part(
            full,
            second,
            width,
        ),
{
    law_sub_register_write_read(full, first, width);
    let once = with_low_part(full, first, width);
    let w = width as int;
    assert(once % w == first);
}

proof fn lemma_set_low8(x: u64, data: u8)
    ensures
        (x & 0xFFFFFFFFFFFFFF00) | (data as u64) == with_low_part(x, data as int, WIDTH_8),
{
    assert((x & 0xFFFFFFFFFFFFFF00) | (data as u64) == x - x % 0x100 + data) by (bit_vector);
}

proof fn lemma_set_low16(x: u64, data: u16)
    ensures
        (x & 0xFFFFFFFFFFFF0000) | (data as u64) == with_low_part(x, data as int, WIDTH_16),
{
    assert((x & 0xFFFFFFFFFFFF0000) | (data as u64) == x - x % 0x10000 + data) by (bit_vector);
}

proof fn lemma_set_low32(x: u64, data: u32)
    ensures
        (x & 0xFFFFFFFF00000000) | (data as u64) == with_low_part(x, data as int, WIDTH_32),
{
    assert((x & 0xFFFFFFFF00000000) | (data as u64) == x - x % 0x100000000 + data)
        by (bit_vector);
}

proof fn lemma_get_low(x: u64)
    ensures
        (x & 0xFF) == x % 0x100,
        (x & 0xFFFF) == x % 0x10000,
        (x & 0xFFFFFFFF) == x % 0x100000000,
{
    assert((x & 0xFF) == x % 0x100) by (bit_vector);
    assert((x & 0xFFFF) == x % 0x10000) by (bit_vector);
    assert((x & 0xFFFFFFFF) == x % 0x100000000) by (bit_vector);
}

impl Register {
    pub fn new() -> (r: Register)
        ensures
            r@ == (RegisterValues { a: 0, b: 0, c: 0, d: 0, ip: 0 }),
    {
        Self { a: 0, b: 0, c: 0, d: 0, ip: Address::new(0x0) }
    }

    pub fn set_ip(&mut self, data: Address)
        ensures
            final(self)@ == (RegisterValues { ip: data@, ..old(self)@ }),
    {
        self.ip = data;
    }

    pub fn get_ip(&self) -> (r: Address)
        ensures
            r@ == self@.ip,
    {
        self.ip
    }

    /// Increment 'ip' by perfered value and return increased 'ip'
    pub fn inc_ip(&mut self, amount: usize) -> (r: Address)
        requires
            old(self)@.ip + amount <= usize::MAX,
        ensures
            r@ == old(self)@.ip + amount,
            final(self)@ == (RegisterValues { ip: r@, ..old(self)@ }),
    {
        let inc_ip = self.ip.add(amount);
        self.ip = inc_ip;
        inc_ip
    }

    pub fn set_a8(&mut self, data: u8)
        ensures
            final(self)@ == (RegisterValues {
                a: with_low_part(old(self)@.a, data as int, WIDTH_8) as u64,
                ..old(self)@
            }),
    {
        proof {
            lemma_set_low8(self.a, data);
        }
        self.a = (self.a & 0xFFFFFFFFFFFFFF00) | data as u64;
    }

    pub fn set_a16(&mut self, data: u16)
        ensures
            final(self)@ == (RegisterValues {
                a: with_low_part(old(self)@.a, data as int, WIDTH_16) as u64,
                ..old(self)@
            }),
    {
        proof {
            lemma_set_low16(self.a, data);
        }
        self.a = (self.a & 0xFFFFFFFFFFFF0000) | data as u64;
    }

    pub fn set_a32(&mut self, data: u32)
        ensures
            final(self)@ == (RegisterValues {
                a: with_low_part(old(self)@.a, data as int, WIDTH_32) as u64,
                ..old(self)@
            }),
    {
        proof {
            lemma_set_low32(self.a, data);
        }
        self.a = (self.a & 0xFFFFFFFF00000000) | data as u64;
    }

    pub fn set_a64(&mut self, data: u64)
        ensures
            final(self)@ == (RegisterValues { a: data, ..old(self)@ }),
    {
        self.a = data;
    }

    pub fn get_a8(&self) -> (r: u8)
        ensures
            r == low_part(self@.a, WIDTH_8),
    {
        proof {
            lemma_get_low(self.a);
        }
        (self.a & 0xFF) as u8
    }

    pub fn get_a16(&self) -> (r: u16)
        ensures
            r == low_part(self@.a, WIDTH_16),
    {
        proof {
            lemma_get_low(self.a);
        }
        (self.a & 0xFFFF) as u16
    }

    pub fn get_a32(&self) -> (r: u32)
        ensures
            r == low_part(self@.a, WIDTH_32),
    {
        proof {
            lemma_get_low(self.a);
        }
        (self.a & 0xFFFFFFFF) as u32
    }

    pub fn get_a64(&self) -> (r: u64)
        ensures
            r == self@.a,
    {
        self.a
    }

    pub fn set_b8(&mut self, data: u8)
        ensures
            final(self)@ == (RegisterValues {
                b: with_low_part(old(self)@.b, data as int, WIDTH_8) as u64,
                ..old(self)@
            }),
    {
        proof {
            lemma_set_low8(self.b, data);
        }
        self.b = (self.b & 0xFFFFFFFFFFFFFF00) | data as u64;
    }

    pub fn set_b16(&mut self, data: u16)
        ensures
            final(self)@ == (RegisterValues {
                b: with_low_part(old(self)@.b, data as int, WIDTH_16) as u64,
                ..old(self)@
            }),
    {
        proof {
            lemma_set_low16(self.b, data);
        }
        self.b = (self.b & 0xFFFFFFFFFFFF0000) | data as u64;
    }

    pub fn set_b32(&mut self, data: u32)
        ensures
            final(self)@ == (RegisterValues {
                b: with_low_part(old(self)@.b, data as int, WIDTH_32) as u64,
                ..old(self)@
            }),
    {
        proof {
            lemma_set_low32(self.b, data);
        }
        self.b = (self.b & 0xFFFFFFFF00000000) | data as u64;
    }

    pub fn set_b64(&mut self, data: u64)
        ensures
            final(self)@ == (RegisterValues { b: data, ..old(self)@ }),
    {
        self.b = data;
    }

    pub fn get_b8(&self) -> (r: u8)
        ensures
            r == low_part(self@.b, WIDTH_8),
    {
        proof {
            lemma_get_low(self.b);
        }
        (self.b & 0xFF) as u8
    }

    pub fn get_b16(&self) -> (r: u16)
        ensures
            r == low_part(self@.b, WIDTH_16),
    {
        proof {
            lemma_get_low(self.b);
        }
        (self.b & 0xFFFF) as u16
    }

    pub fn get_b32(&self) -> (r: u32)
        ensures
            r == low_part(self@.b, WIDTH_32),
    {
        proof {
            lemma_get_low(self.b);
        }
        (self.b & 0xFFFFFFFF) as u32
    }

    pub fn get_b64(&self) -> (r: u64)
        ensures
            r == self@.b,
    {
        self.b
    }

    pub fn set_c8(&mut self, data: u8)
        ensures
            final(self)@ == (RegisterValues {
                c: with_low_part(old(self)@.c, data as int, WIDTH_8) as u64,
                ..old(self)@
            }),
    {
        proof {
            lemma_set_low8(self.c, data);
        }
        self.c = (self.c & 0xFFFFFFFFFFFFFF00) | data as u64;
    }

    pub fn set_c16(&mut self, data: u16)
        ensures
            final(self)@ == (RegisterValues {
                c: with_low_part(old(self)@.c, data as int, WIDTH_16) as u64,
                ..old(self)@
            }),
    {
        proof {
            lemma_set_low16(self.c, data);
        }
        self.c = (self.c & 0xFFFFFFFFFFFF0000) | data as u64;
    }

    pub fn set_c32(&mut self, data: u32)
        ensures
            final(self)@ == (RegisterValues {
                c: with_low_part(old(self)@.c, data as int, WIDTH_32) as u64,
                ..old(self)@
            }),
    {
        proof {
            lemma_set_low32(self.c, data);
        }
        self.c = (self.c & 0xFFFFFFFF00000000) | data as u64;
    }

    pub fn set_c64(&mut self, data: u64)
        ensures
            final(self)@ == (RegisterValues { c: data, ..old(self)@ }),
    {
        self.c = data;
    }

    pub fn get_c8(&self) -> (r: u8)
        ensures
            r == low_part(self@.c, WIDTH_8),
    {
        proof {
            lemma_get_low(self.c);
        }
        (self.c & 0xFF) as u8
    }

    pub fn get_c16(&self) -> (r: u16)
        ensures
            r == low_part(self@.c, WIDTH_16),
    {
        proof {
            lemma_get_low(self.c);
        }
        (self.c & 0xFFFF) as u16
    }

    pub fn get_c32(&self) -> (r: u32)
        ensures
            r == low_part(self@.c, WIDTH_32),
    {
        proof {
            lemma_get_low(self.c);
        }
        (self.c & 0xFFFFFFFF) as u32
    }

    pub fn get_c64(&self) -> (r: u64)
        ensures
            r == self@.c,
    {
        self.c
    }

    pub fn set_d8(&mut self, data: u8)
        ensures
            final(self)@ == (RegisterValues {
                d: with_low_part(old(self)@.d, data as int, WIDTH_8) as u64,
                ..old(self)@
            }),
    {
        proof {
            lemma_set_low8(self.d, data);
        }
        self.d = (self.d & 0xFFFFFFFFFFFFFF00) | data as u64;
    }

    pub fn set_d16(&mut self, data: u16)
        ensures
            final(self)@ == (RegisterValues {
                d: with_low_part(old(self)@.d, data as int, WIDTH_16) as u64,
                ..old(self)@
            }),
    {
        proof {
            lemma_set_low16(self.d, data);
        }
        self.d = (self.d & 0xFFFFFFFFFFFF0000) | data as u64;
    }

    pub fn set_d32(&mut self, data: u32)
        ensures
            final(self)@ == (RegisterValues {
                d: with_low_part(old(self)@.d, data as int, WIDTH_32) as u64,
                ..old(self)@
            }),
    {
        proof {
            lemma_set_low32(self.d, data);
        }
        self.d = (self.d & 0xFFFFFFFF00000000) | data as u64;
    }

    pub fn set_d64(&mut self, data: u64)
        ensures
            final(self)@ == (RegisterValues { d: data, ..old(self)@ }),
    {
        self.d = data;
    }

    pub fn get_d8(&self) -> (r: u8)
        ensures
            r == low_part(self@.d, WIDTH_8),
    {
        proof {
            lemma_get_low(self.d);
        }
        (self.d & 0xFF) as u8
    }

    pub fn get_d16(&self) -> (r: u16)
        ensures
            r == low_part(self@.d, WIDTH_16),
    {
        proof {
            lemma_get_low(self.d);
        }
        (self.d & 0xFFFF) as u16
    }

    pub fn get_d32(&self) -> (r: u32)
        ensures
            r == low_part(self@.d, WIDTH_32),
    {
        proof {
            lemma_get_low(self.d);
        }
        (self.d & 0xFFFFFFFF) as u32
    }

    pub fn get_d64(&self) -> (r: u64)
        ensures
            r == self@.d,
    {
        self.d
    }
}

} // verus!
