//! Building reply lines: literal text and decimal numbers, as ASCII bytes.
use vstd::prelude::*;
use vstd::string::StringSliceAdditionalSpecFns;

verus! {

/// The bytes of a piece of text.
pub open spec fn text(s: &str) -> Seq<u8> {
    s.spec_bytes()
}

/// The decimal digits of a natural number, most significant first.
pub open spec fn decimal(n: nat) -> Seq<u8>
    decreases n,
{
    if n < 10 {
        seq![(0x30 + n) as u8]
    } else {
        decimal(n / 10).push((0x30 + n % 10) as u8)
    }
}

/// A signed number in decimal, with a leading minus sign when negative.
pub open spec fn signed_decimal(v: int) -> Seq<u8> {
    if v < 0 {
        seq![0x2du8] + decimal((-v) as nat)
    } else {
        decimal(v as nat)
    }
}

/// Append the bytes of a piece of text.
pub fn push_text(out: &mut Vec<u8>, s: &str)
    ensures
        final(out)@ == old(out)@ + text(s),
{
    let bytes = s.as_bytes();
    let mut i: usize = 0;
    while i < bytes.len()
        invariant
            bytes@ == text(s),
            i <= bytes@.len(),
            out@ == old(out)@ + bytes@.subrange(0, i as int),
        decreases bytes@.len() - i,
    {
        out.push(bytes[i]);
        i = i + 1;
        assert(out@ =~= old(out)@ + bytes@.subrange(0, i as int));
    }
    assert(bytes@.subrange(0, i as int) =~= bytes@);
}

/// Append a byte-sized number in decimal.
pub fn push_decimal(out: &mut Vec<u8>, n: u8)
    ensures
        final(out)@ == old(out)@ + decimal(n as nat),
{
    proof {
        reveal_with_fuel(decimal, 3);
    }
    if n >= 100 {
        out.push(0x30 + n / 100);
        out.push(0x30 + (n / 10) % 10);
        out.push(0x30 + n % 10);
        assert(decimal(n as nat / 10) == decimal(n as nat / 100).push((0x30 + (n as nat / 10) % 10) as u8));
        assert(final(out)@ =~= old(out)@ + decimal(n as nat));
    } else if n >= 10 {
        out.push(0x30 + n / 10);
        out.push(0x30 + n % 10);
        assert(final(out)@ =~= old(out)@ + decimal(n as nat));
    } else {
        out.push(0x30 + n);
        assert(final(out)@ =~= old(out)@ + decimal(n as nat));
    }
}

/// Append a signed byte in decimal.
pub fn push_signed_decimal(out: &mut Vec<u8>, v: i8)
    ensures
        final(out)@ == old(out)@ + signed_decimal(v as int),
{
    if v < 0 {
        out.push(0x2d);
        let magnitude: u8 = if v == -128 { 128 } else { (-v) as u8 };
        push_decimal(out, magnitude);
        assert(final(out)@ =~= old(out)@ + signed_decimal(v as int));
    } else {
        push_decimal(out, v as u8);
    }
}

} // verus!
