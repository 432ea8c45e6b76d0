//! Two-digit hexadecimal bytes, as used by command arguments and replies.
use vstd::prelude::*;

verus! {

/// The value of one ASCII hex digit (either case), if it is one.
pub open spec fn hex_digit_value(c: u8) -> Option<u8> {
    if 0x30 <= c && c <= 0x39 {
        Some((c - 0x30) as u8)
    } else if 0x41 <= c && c <= 0x46 {
        Some((c - 0x41 + 10) as u8)
    } else if 0x61 <= c && c <= 0x66 {
        Some((c - 0x61 + 10) as u8)
    } else {
        None
    }
}

/// The byte written by exactly two hex digits.
pub open spec fn hex_byte(s: Seq<u8>) -> Option<u8> {
    if s.len() == 2 && hex_digit_value(s[0]) is Some && hex_digit_value(s[1]) is Some {
        Some((hex_digit_value(s[0]).unwrap() * 16 + hex_digit_value(s[1]).unwrap()) as u8)
    } else {
        None
    }
}

/// The bytes written by a run of two-digit hex pairs, if every pair is one.
pub open spec fn hex_bytes(s: Seq<u8>) -> Option<Seq<u8>>
    decreases s.len(),
{
    if s.len() == 0 {
        Some(Seq::empty())
    } else if s.len() < 2 {
        None
    } else {
        match (hex_byte(s.subrange(0, 2)), hex_bytes(s.subrange(2, s.len() as int))) {
            (Some(b), Some(rest)) => Some(seq![b] + rest),
            _ => None,
        }
    }
}

/// The lower-case hex digit for a value below sixteen.
pub open spec fn hex_digit_char(n: u8) -> u8 {
    if n < 10 {
        (0x30 + n) as u8
    } else {
        (0x61 + n - 10) as u8
    }
}

/// A byte written as two lower-case hex digits.
pub open spec fn hex_pair(b: u8) -> Seq<u8> {
    seq![hex_digit_char(b / 16), hex_digit_char(b % 16)]
}

fn digit_value(c: u8) -> (r: Option<u8>)
    ensures
        r == hex_digit_value(c),
{
    if 0x30 <= c && c <= 0x39 {
        Some(c - 0x30)
    } else if 0x41 <= c && c <= 0x46 {
        Some(c - 0x41 + 10)
    } else if 0x61 <= c && c <= 0x66 {
        Some(c - 0x61 + 10)
    } else {
        None
    }
}

/// Parse two hex digits into a byte. Returns None if the input is not a valid
/// hex byte.
pub fn parse_hex_byte(input: &[u8]) -> (r: Option<u8>)
    ensures
        r == hex_byte(input@),
{
    if input.len() != 2 {
        return None;
    }
    match (digit_value(input[0]), digit_value(input[1])) {
        (Some(hi), Some(lo)) => Some(hi * 16 + lo),
        _ => None,
    }
}

proof fn lemma_hex_bytes_split(s: Seq<u8>, k: int)
    requires
        0 <= k,
        2 * k + 2 <= s.len(),
        s.len() % 2 == 0,
        hex_bytes(s.subrange(0, 2 * k)) is Some,
        hex_byte(s.subrange(2 * k, 2 * k + 2)) is Some,
    ensures
        hex_bytes(s.subrange(0, 2 * k + 2)) == Some(
            hex_bytes(s.subrange(0, 2 * k)).unwrap() + seq![
                hex_byte(s.subrange(2 * k, 2 * k + 2)).unwrap(),
            ],
        ),
    decreases k,
{
    let t = s.subrange(0, 2 * k + 2);
    if k == 0 {
        assert(t.subrange(0, 2) =~= s.subrange(0, 2));
        assert(t.subrange(2, t.len() as int) =~= Seq::<u8>::empty());
        assert(hex_bytes(Seq::<u8>::empty()) == Some(Seq::<u8>::empty()));
        assert(s.subrange(0, 0) =~= Seq::<u8>::empty());
        assert(seq![hex_byte(t.subrange(0, 2)).unwrap()] + Seq::<u8>::empty() =~= seq![
            hex_byte(t.subrange(0, 2)).unwrap(),
        ]);
        assert(Seq::<u8>::empty() + seq![hex_byte(t.subrange(0, 2)).unwrap()] =~= seq![
            hex_byte(t.subrange(0, 2)).unwrap(),
        ]);
    } else {
        let u = s.subrange(2, s.len() as int);
        assert(u.subrange(0, 2 * (k - 1)) =~= s.subrange(2, 2 * k));
        assert(u.subrange(2 * (k - 1), 2 * (k - 1) + 2) =~= s.subrange(2 * k, 2 * k + 2));
        assert(s.subrange(0, 2 * k).subrange(0, 2) =~= s.subrange(0, 2));
        assert(s.subrange(0, 2 * k).subrange(2, 2 * k) =~= s.subrange(2, 2 * k));
        lemma_hex_bytes_split(u, k - 1);
        assert(u.subrange(0, 2 * (k - 1) + 2) =~= s.subrange(2, 2 * k + 2));
        assert(t.subrange(0, 2) =~= s.subrange(0, 2));
        assert(t.subrange(2, t.len() as int) =~= s.subrange(2, 2 * k + 2));
        let b0 = hex_byte(s.subrange(0, 2)).unwrap();
        let mid = hex_bytes(s.subrange(2, 2 * k)).unwrap();
        let last = hex_byte(s.subrange(2 * k, 2 * k + 2)).unwrap();
        assert(seq![b0] + (mid + seq![last]) =~= (seq![b0] + mid) + seq![last]);
    }
}

proof fn lemma_hex_bytes_fail(s: Seq<u8>, k: int)
    requires
        0 <= k,
        2 * k + 2 <= s.len(),
        s.len() % 2 == 0,
        hex_byte(s.subrange(2 * k, 2 * k + 2)) is None,
    ensures
        hex_bytes(s) is None,
    decreases k,
{
    let u = s.subrange(2, s.len() as int);
    if k == 0 {
        assert(s.subrange(0, 2) =~= s.subrange(2 * k, 2 * k + 2));
    } else {
        assert(u.subrange(2 * (k - 1), 2 * (k - 1) + 2) =~= s.subrange(2 * k, 2 * k + 2));
        lemma_hex_bytes_fail(u, k - 1);
    }
}

/// Parse a run of two-digit hex pairs into bytes; None unless the input has
/// an even length and every pair is a hex byte.
pub fn parse_hex_bytes(input: &[u8]) -> (r: Option<Vec<u8>>)
    ensures
        r matches Some(v) ==> hex_bytes(input@) == Some(v@),
        r is None ==> hex_bytes(input@) is None,
{
    if input.len() % 2 != 0 {
        proof {
            lemma_hex_bytes_odd(input@);
        }
        return None;
    }
    let mut out: Vec<u8> = Vec::new();
    let mut i: usize = 0;
    while i < input.len()
        invariant
            input@.len() % 2 == 0,
            i % 2 == 0,
            i <= input@.len(),
            hex_bytes(input@.subrange(0, i as int)) == Some(out@),
        decreases input@.len() - i,
    {
        let pair = slice_pair(input, i);
        match parse_hex_byte(pair) {
            Some(b) => {
                proof {
                    lemma_hex_bytes_split(input@, i as int / 2);
                }
                out.push(b);
                proof {
                    assert(out@ =~= hex_bytes(input@.subrange(0, i as int)).unwrap() + seq![b]);
                }
                i = i + 2;
            },
            None => {
                proof {
                    lemma_hex_bytes_fail(input@, i as int / 2);
                }
                return None;
            },
        }
    }
    assert(input@.subrange(0, i as int) =~= input@);
    Some(out)
}

proof fn lemma_hex_bytes_odd(s: Seq<u8>)
    requires
        s.len() % 2 == 1,
    ensures
        hex_bytes(s) is None,
    decreases s.len(),
{
    if s.len() >= 2 {
        lemma_hex_bytes_odd(s.subrange(2, s.len() as int));
    }
}

fn slice_pair(input: &[u8], i: usize) -> (r: &[u8])
    requires
        i + 2 <= input@.len(),
    ensures
        r@ == input@.subrange(i as int, i + 2),
{
    let n = input.len();
    assert(i + 2 <= n);
    vstd::slice::slice_subrange(input, i, i + 2)
}

fn digit_char(n: u8) -> (r: u8)
    requires
        n < 16,
    ensures
        r == hex_digit_char(n),
{
    if n < 10 {
        0x30 + n
    } else {
        0x61 + n - 10
    }
}

/// Append a byte as two lower-case hex digits.
pub fn push_hex_pair(out: &mut Vec<u8>, b: u8)
    ensures
        final(out)@ == old(out)@ + hex_pair(b),
{
    out.push(digit_char(b / 16));
    out.push(digit_char(b % 16));
    assert(final(out)@ =~= old(out)@ + hex_pair(b));
}

/// A run of hex pairs gives one byte per pair.
pub proof fn lemma_hex_bytes_len(s: Seq<u8>)
    ensures
        hex_bytes(s) matches Some(b) ==> b.len() * 2 == s.len(),
    decreases s.len(),
{
    if s.len() >= 2 {
        lemma_hex_bytes_len(s.subrange(2, s.len() as int));
    }
}

/// A copy of a run of bytes.
pub fn to_vec(s: &[u8]) -> (r: Vec<u8>)
    ensures
        r@ == s@,
{
    let mut out: Vec<u8> = Vec::new();
    let mut i: usize = 0;
    while i < s.len()
        invariant
            i <= s@.len(),
            out@ == s@.subrange(0, i as int),
        decreases s@.len() - i,
    {
        out.push(s[i]);
        i = i + 1;
        assert(out@ =~= s@.subrange(0, i as int));
    }
    assert(s@.subrange(0, i as int) =~= s@);
    out
}

} // verus!
