//! Text helpers shared by the lexers, the code generator and error messages:
//! digit strings in a given base and appending characters to a `String`.

use vstd::prelude::*;

verus! {

/// The character that writes digit `d` (below sixteen) in lower case.
pub open spec fn digit_char(d: nat) -> char {
    if d < 10 {
        (48 + d) as char
    } else {
        (87 + d) as char
    }
}

/// The digits of `n` written in `base`, most significant first, with no
/// leading zeros (zero itself is the single digit `0`).
pub open spec fn digits_in_base(n: nat, base: nat) -> Seq<char>
    recommends
        2 <= base <= 16,
    decreases n,
{
    if base < 2 || n < base {
        seq![digit_char(n)]
    } else {
        proof {
            lemma_quotient_smaller(n, base);
        }
        digits_in_base(n / base, base).push(digit_char(n % base))
    }
}

/// Dividing by a base of two or more makes a number of at least that base smaller.
pub proof fn lemma_quotient_smaller(n: nat, base: nat)
    requires
        2 <= base <= n,
    ensures
        n / base < n,
{
    assert(n / base < n) by (nonlinear_arith)
        requires
            2 <= base <= n,
    ;
}

/// `n` in decimal.
pub open spec fn decimal_digits(n: nat) -> Seq<char> {
    digits_in_base(n, 10)
}

/// `n` in lower-case hexadecimal, without prefix.
pub open spec fn hex_digits(n: nat) -> Seq<char> {
    digits_in_base(n, 16)
}

/// std's `String::push`: the string afterwards holds its old characters
/// followed by `c`, which is all the contract claims.
#[verifier::external_body]
pub(crate) fn string_push(s: &mut String, c: char)
    ensures
        final(s)@ == old(s)@.push(c),
{
    s.push(c)
}

/// The owned copy of a string slice.
pub fn string_from_literal(lit: &str) -> (s: String)
    ensures
        s@ == lit@,
{
    String::from_str(lit)
}

/// Appends a string slice to a `String`.
pub fn string_push_str(s: &mut String, other: &str)
    ensures
        final(s)@ == old(s)@ + other@,
{
    s.append(other);
}

/// Appends a whole `String` to another.
pub fn string_append(s: &mut String, other: &String)
    ensures
        final(s)@ == old(s)@ + other@,
{
    s.append(other.as_str());
}

fn digit_to_char(d: u64) -> (c: char)
    requires
        d < 16,
    ensures
        c == digit_char(d as nat),
{
    let b: u8 = d as u8;
    if b < 10 {
        (48u8 + b) as char
    } else {
        (87u8 + b) as char
    }
}

/// Appends the digits of `n` in `base` to `s`.
pub fn push_digits(s: &mut String, n: u64, base: u64)
    requires
        2 <= base <= 16,
    ensures
        final(s)@ == old(s)@ + digits_in_base(n as nat, base as nat),
    decreases n,
{
    if n < base {
        string_push(s, digit_to_char(n));
    } else {
        proof {
            lemma_quotient_smaller(n as nat, base as nat);
        }
        push_digits(s, n / base, base);
        string_push(s, digit_to_char(n % base));
        proof {
            assert(old(s)@ + digits_in_base((n / base) as nat, base as nat).push(
                digit_char((n % base) as nat),
            ) =~= old(s)@ + digits_in_base(n as nat, base as nat));
        }
    }
}

/// `n` written in decimal.
pub fn u64_to_decimal(n: u64) -> (s: String)
    ensures
        s@ == decimal_digits(n as nat),
{
    let mut s = String::new();
    push_digits(&mut s, n, 10);
    assert(s@ =~= decimal_digits(n as nat));
    s
}

/// `n` written in lower-case hexadecimal.
pub fn usize_to_hex(n: usize) -> (s: String)
    ensures
        s@ == hex_digits(n as nat),
{
    let mut s = String::new();
    push_digits(&mut s, n as u64, 16);
    assert(s@ =~= hex_digits(n as nat));
    s
}

/// The number that the digits `s` write in `radix`, most significant first.
pub open spec fn radix_value(s: Seq<u8>, radix: nat) -> nat
    decreases s.len(),
{
    if s.len() == 0 {
        0
    } else {
        radix_value(s.drop_last(), radix) * radix + crate::chars::digit_value(s.last())
    }
}

/// Every byte of `s` is a digit of `radix`.
pub open spec fn all_digits(s: Seq<u8>, radix: nat) -> bool {
    forall|i: int| 0 <= i < s.len() ==> #[trigger] crate::chars::digit_value(s[i]) < radix
}

/// A longer run of digits never writes a smaller number.
pub proof fn lemma_radix_value_prefix(s: Seq<u8>, radix: nat, k: int)
    requires
        0 <= k <= s.len(),
        radix >= 1,
    ensures
        radix_value(s.take(k), radix) <= radix_value(s, radix),
    decreases s.len() - k,
{
    if k < s.len() {
        lemma_radix_value_prefix(s.drop_last(), radix, k);
        assert(s.drop_last().take(k) =~= s.take(k));
        let p = radix_value(s.drop_last(), radix);
        assert(p <= p * radix) by (nonlinear_arith)
            requires
                radix >= 1,
        ;
    } else {
        assert(s.take(k) =~= s);
    }
}

/// Reads the digits `s` as a number in `radix` (std `u64::from_str_radix`
/// on a string of digits only): `None` where there are no digits or the
/// number does not fit in 64 bits.
pub fn parse_radix(s: &[u8], radix: u64) -> (r: Option<u64>)
    requires
        2 <= radix <= 36,
        all_digits(s@, radix as nat),
    ensures
        r is Some <==> s@.len() > 0 && radix_value(s@, radix as nat) <= u64::MAX,
        r matches Some(v) ==> v == radix_value(s@, radix as nat),
{
    if s.len() == 0 {
        return None;
    }
    let mut value: u64 = 0;
    let mut i: usize = 0;
    while i < s.len()
        invariant
            2 <= radix <= 36,
            all_digits(s@, radix as nat),
            i <= s@.len(),
            value == radix_value(s@.take(i as int), radix as nat),
        decreases s@.len() - i,
    {
        let d = crate::chars::digit(s[i]);
        assert(d < radix);
        proof {
            assert(s@.take(i + 1).drop_last() =~= s@.take(i as int));
            lemma_radix_value_prefix(s@, radix as nat, i + 1);
        }
        match value.checked_mul(radix) {
            Some(m) => match m.checked_add(d as u64) {
                Some(next) => {
                    value = next;
                },
                None => {
                    return None;
                },
            },
            None => {
                proof {
                    assert(value * radix <= radix_value(s@.take(i + 1), radix as nat)) by (
                    nonlinear_arith)
                        requires
                            radix_value(s@.take(i + 1), radix as nat) == value * radix
                                + crate::chars::digit_value(s@[i as int]),
                    ;
                }
                return None;
            },
        }
        i = i + 1;
    }
    assert(s@.take(s@.len() as int) =~= s@);
    Some(value)
}

} // verus!
