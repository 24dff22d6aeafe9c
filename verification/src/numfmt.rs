//! Decimal and hexadecimal rendering of integers.

use vstd::prelude::*;

verus! {

/// The lower-case digit for a value below sixteen.
pub open spec fn digit_char(d: nat) -> char {
    if d < 10 {
        (48 + d) as char
    } else {
        (87 + d) as char
    }
}

/// Decimal digits of `n`, as `Display` renders an unsigned integer.
pub open spec fn dec(n: nat) -> Seq<char>
    decreases n,
{
    if n < 10 {
        seq![digit_char(n)]
    } else {
        dec(n / 10).push(digit_char(n % 10))
    }
}

/// Lower-case hexadecimal digits of `n`, as `{:x}` renders an unsigned integer.
pub open spec fn hex(n: nat) -> Seq<char>
    decreases n,
{
    if n < 16 {
        seq![digit_char(n)]
    } else {
        hex(n / 16).push(digit_char(n % 16))
    }
}

/// Decimal rendering of a signed integer.
pub open spec fn dec_signed(n: int) -> Seq<char> {
    if n < 0 {
        seq!['-'] + dec((-n) as nat)
    } else {
        dec(n as nat)
    }
}

/// Two lower-case hex digits per byte, as `{:x}` renders a digest.
pub open spec fn hex_bytes(bs: Seq<u8>) -> Seq<char>
    decreases bs.len(),
{
    if bs.len() == 0 {
        Seq::empty()
    } else {
        hex_bytes(bs.drop_last()) + seq![
            digit_char((bs.last() / 16) as nat),
            digit_char((bs.last() % 16) as nat),
        ]
    }
}

pub fn digit(d: u8) -> (c: char)
    requires
        d < 16,
    ensures
        c == digit_char(d as nat),
{
    if d < 10 {
        (48u8 + d) as char
    } else {
        (87u8 + d) as char
    }
}

fn dec_u128_chars(n: u128) -> (res: Vec<char>)
    ensures
        res@ == dec(n as nat),
    decreases n,
{
    if n < 10 {
        let mut v = Vec::new();
        v.push(digit(n as u8));
        v
    } else {
        let mut v = dec_u128_chars(n / 10);
        v.push(digit((n % 10) as u8));
        v
    }
}

fn hex_u128_chars(n: u128) -> (res: Vec<char>)
    ensures
        res@ == hex(n as nat),
    decreases n,
{
    if n < 16 {
        let mut v = Vec::new();
        v.push(digit(n as u8));
        v
    } else {
        let mut v = hex_u128_chars(n / 16);
        v.push(digit((n % 16) as u8));
        v
    }
}

/// Decimal rendering of a `u128`.
pub fn dec_u128_chars_pub(n: u128) -> (res: Vec<char>)
    ensures
        res@ == dec(n as nat),
{
    dec_u128_chars(n)
}

/// `u64::to_string`.
pub fn u64_to_chars(n: u64) -> (res: Vec<char>)
    ensures
        res@ == dec(n as nat),
{
    dec_u128_chars(n as u128)
}

/// `usize::to_string`.
pub fn usize_to_chars(n: usize) -> (res: Vec<char>)
    ensures
        res@ == dec(n as nat),
{
    dec_u128_chars(n as u128)
}

/// `u128` in lower-case hexadecimal (`{:x}`).
pub fn u128_to_hex_chars(n: u128) -> (res: Vec<char>)
    ensures
        res@ == hex(n as nat),
{
    hex_u128_chars(n)
}

/// `i32::to_string`.
pub fn i32_to_chars(n: i32) -> (res: Vec<char>)
    ensures
        res@ == dec_signed(n as int),
{
    if n < 0 {
        let m: u128 = (0i64 - (n as i64)) as u128;
        let d = dec_u128_chars(m);
        let mut v: Vec<char> = Vec::new();
        v.push('-');
        let mut i: usize = 0;
        while i < d.len()
            invariant
                i <= d.len(),
                v@ =~= seq!['-'] + d@.take(i as int),
            decreases d.len() - i,
        {
            v.push(d[i]);
            i = i + 1;
        }
        assert(d@.take(d.len() as int) =~= d@);
        v
    } else {
        dec_u128_chars(n as u128)
    }
}

/// Lower-case hexadecimal rendering of a byte string.
pub fn hex_of_bytes(bs: &Vec<u8>) -> (res: Vec<char>)
    ensures
        res@ == hex_bytes(bs@),
{
    let mut v: Vec<char> = Vec::new();
    let mut i: usize = 0;
    while i < bs.len()
        invariant
            i <= bs.len(),
            v@ == hex_bytes(bs@.take(i as int)),
        decreases bs.len() - i,
    {
        let b = bs[i];
        assert(bs@.take(i + 1).drop_last() =~= bs@.take(i as int));
        v.push(digit(b / 16));
        v.push(digit(b % 16));
        assert(v@ =~= hex_bytes(bs@.take(i + 1)));
        i = i + 1;
    }
    assert(bs@.take(bs.len() as int) =~= bs@);
    v
}

} // verus!
