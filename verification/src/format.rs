//! Number formatting and the stable hash that names files and folders.
use vstd::prelude::*;

use crate::text::{char_from_ascii, push_char};

verus! {

/// The ASCII character of a decimal digit.
pub open spec fn digit_char(d: int) -> char {
    ('0' as int + d) as char
}

/// `n` in decimal, as `u64`'s `Display` writes it.
pub open spec fn decimal(n: u64) -> Seq<char>
    decreases n,
{
    if n < 10 {
        seq![digit_char(n as int)]
    } else {
        decimal((n / 10) as u64).push(digit_char((n % 10) as int))
    }
}

pub fn decimal_text(n: u64) -> (r: String)
    ensures
        r@ == decimal(n),
    decreases n,
{
    if n < 10 {
        let mut s = String::new();
        push_char(&mut s, char_from_ascii(48 + n as u8));
        proof {
            assert(s@ =~= seq![digit_char(n as int)]);
        }
        s
    } else {
        let mut s = decimal_text(n / 10);
        push_char(&mut s, char_from_ascii(48 + (n % 10) as u8));
        s
    }
}

/// The lower-case hexadecimal character of a value below 16.
pub open spec fn hex_char(d: int) -> char {
    if d < 10 {
        ('0' as int + d) as char
    } else {
        ('a' as int + (d - 10)) as char
    }
}

pub open spec fn pow16(n: nat) -> int
    decreases n,
{
    if n == 0 {
        1
    } else {
        16 * pow16((n - 1) as nat)
    }
}

/// `h` as 16 lower-case hexadecimal digits, zero-padded: `format!("{h:016x}")`.
pub open spec fn hex16(h: u64) -> Seq<char> {
    Seq::new(16, |k: int| hex_char((h as int / pow16((15 - k) as nat)) % 16))
}

pub const FNV_OFFSET_BASIS: u64 = 0xcbf29ce484222325;

pub const FNV_PRIME: u64 = 0x100000001b3;

/// The 64-bit FNV-1a hash of `bytes`.
pub open spec fn fnv1a(bytes: Seq<u8>) -> u64
    decreases bytes.len(),
{
    if bytes.len() == 0 {
        FNV_OFFSET_BASIS
    } else {
        (((fnv1a(bytes.drop_last()) ^ (bytes.last() as u64)) as int * FNV_PRIME as int)
            % 0x1_0000_0000_0000_0000) as u64
    }
}

/// The 64-bit FNV-1a hash of `bytes` as 16 lower-case hexadecimal digits.
pub fn stable_hash(bytes: &[u8]) -> (r: String)
    ensures
        r@ == hex16(fnv1a(bytes@)),
{
    let mut hash: u64 = FNV_OFFSET_BASIS;
    let mut i: usize = 0;
    while i < bytes.len()
        invariant
            i <= bytes@.len(),
            hash == fnv1a(bytes@.subrange(0, i as int)),
        decreases bytes@.len() - i,
    {
        proof {
            assert(bytes@.subrange(0, i + 1).drop_last() =~= bytes@.subrange(0, i as int));
        }
        let mixed = hash ^ (bytes[i] as u64);
        hash = ((mixed as u128 * FNV_PRIME as u128) % 0x1_0000_0000_0000_0000) as u64;
        i = i + 1;
    }
    proof {
        assert(bytes@.subrange(0, bytes@.len() as int) =~= bytes@);
    }
    hex_text(hash)
}

fn hex_text(h: u64) -> (r: String)
    ensures
        r@ == hex16(h),
{
    let mut out = String::new();
    let mut divisor: u64 = 0x1000_0000_0000_0000;
    let mut k: usize = 0;
    proof {
        reveal_with_fuel(pow16, 16);
    }
    while k < 16
        invariant
            k <= 16,
            divisor as int == pow16((15 - k) as nat) || (k == 16 && divisor == 0),
            out@ == hex16(h).subrange(0, k as int),
        decreases 16 - k,
    {
        proof {
            reveal_with_fuel(pow16, 16);
        }
        let d = (h / divisor) % 16;
        let c = if d < 10 {
            char_from_ascii(48 + d as u8)
        } else {
            char_from_ascii(87 + d as u8)
        };
        push_char(&mut out, c);
        proof {
            assert(out@ =~= hex16(h).subrange(0, k + 1));
        }
        divisor = divisor / 16;
        k = k + 1;
    }
    proof {
        assert(hex16(h).subrange(0, 16) =~= hex16(h));
    }
    out
}

} // verus!
