//! Text a console prints: hexadecimal and decimal renderings of numbers.

use vstd::prelude::*;

verus! {

/// Lowercase hexadecimal digit of a nibble.
pub open spec fn hex_digit(n: u64) -> u8 {
    if n < 10 { (0x30 + n) as u8 } else { (0x57 + n) as u8 }
}

/// The 16 hex digits of `value`, most significant first.
pub open spec fn hex16(value: u64) -> Seq<u8> {
    Seq::new(16, |i: int| hex_digit((value >> ((15 - i) * 4) as u64) & 0xF))
}

/// The 16 lowercase hex digits that print `value` (zero-padded).
pub fn uart_put_hex(value: u64) -> (r: [u8; 16])
    ensures
        r@ == hex16(value),
{
    let digits: [u8; 16] = [0x30, 0x31, 0x32, 0x33, 0x34, 0x35, 0x36, 0x37, 0x38, 0x39, 0x61, 0x62, 0x63, 0x64, 0x65, 0x66];
    let mut buf = [0u8; 16];
    let mut i: usize = 0;
    while i < 16
        invariant
            i <= 16,
            forall|k: int| 0 <= k < 16 ==> #[trigger] digits@[k] == hex_digit(k as u64),
            forall|k: int| 0 <= k < i ==> #[trigger] buf@[k] == hex16(value)[k],
        decreases 16 - i,
    {
        let shift = ((15 - i) * 4) as u64;
        let nibble = (value >> shift) & 0xF;
        assert(nibble < 16) by (bit_vector) requires nibble == (value >> shift) & 0xF;
        buf[i] = digits[nibble as usize];
        i = i + 1;
    }
    assert(buf@ =~= hex16(value));
    buf
}

/// Decimal digits of `n`, most significant first ("0" for zero).
pub open spec fn dec_digits(n: u64) -> Seq<u8>
    decreases n,
{
    if n < 10 {
        seq![(0x30 + n) as u8]
    } else {
        dec_digits(n / 10).push((0x30 + n % 10) as u8)
    }
}

/// The decimal digits that print `value`.
pub fn uart_put_u64(value: u64) -> (r: Vec<u8>)
    ensures
        r@ == dec_digits(value),
    decreases value,
{
    if value < 10 {
        let mut v: Vec<u8> = Vec::new();
        v.push((0x30 + value) as u8);
        assert(v@ =~= dec_digits(value));
        v
    } else {
        let mut v = uart_put_u64(value / 10);
        v.push((0x30 + value % 10) as u8);
        v
    }
}

/// Append `s` to `v`.
pub fn push_all(v: &mut Vec<u8>, s: &[u8])
    ensures
        final(v)@ == old(v)@ + s@,
{
    let ghost v0 = v@;
    let mut i: usize = 0;
    while i < s.len()
        invariant
            i <= s@.len(),
            v@ == v0 + s@.take(i as int),
        decreases s@.len() - i,
    {
        v.push(s[i]);
        i = i + 1;
        assert(v@ =~= v0 + s@.take(i as int));
    }
    assert(s@.take(s@.len() as int) =~= s@);
}

} // verus!
