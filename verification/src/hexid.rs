//! Lowercase hexadecimal encoding and key-identifier derivation.
//!
//! A key identifier is derived deterministically from a key's public
//! material: it is the hexadecimal form of the leading eight bytes of the
//! fingerprint.  The fingerprint display form is the hexadecimal form of the
//! whole fingerprint.

use vstd::prelude::*;
use vstd::string::StringExecFns;

verus! {

/// The lowercase hexadecimal digit for a value below 16.
pub open spec fn hex_digit(d: u8) -> char
    recommends
        d < 16,
{
    if d == 0 {
        '0'
    } else if d == 1 {
        '1'
    } else if d == 2 {
        '2'
    } else if d == 3 {
        '3'
    } else if d == 4 {
        '4'
    } else if d == 5 {
        '5'
    } else if d == 6 {
        '6'
    } else if d == 7 {
        '7'
    } else if d == 8 {
        '8'
    } else if d == 9 {
        '9'
    } else if d == 10 {
        'a'
    } else if d == 11 {
        'b'
    } else if d == 12 {
        'c'
    } else if d == 13 {
        'd'
    } else if d == 14 {
        'e'
    } else {
        'f'
    }
}

/// The lowercase hexadecimal encoding of a byte sequence: two digits per
/// byte, high nibble first.
pub open spec fn hex_of(b: Seq<u8>) -> Seq<char>
    decreases b.len(),
{
    if b.len() == 0 {
        Seq::empty()
    } else {
        hex_of(b.drop_last()) + seq![hex_digit(b.last() / 16), hex_digit(b.last() % 16)]
    }
}

/// The key identifier derived from fingerprint bytes: the hexadecimal form
/// of the first eight bytes (or of everything, for shorter material).
pub open spec fn spec_key_identifier(b: Seq<u8>) -> Seq<char> {
    if b.len() >= 8 {
        hex_of(b.take(8))
    } else {
        hex_of(b)
    }
}

/// Hexadecimal encoding of a prefix is a prefix of the encoding.
pub proof fn lemma_hex_of_take(b: Seq<u8>, n: int)
    requires
        0 <= n <= b.len(),
    ensures
        hex_of(b).len() == 2 * b.len(),
        hex_of(b.take(n)) == hex_of(b).take(2 * n),
    decreases b.len(),
{
    if b.len() == 0 {
        assert(b.take(n) =~= b);
        assert(hex_of(b).take(2 * n) =~= hex_of(b));
    } else {
        lemma_hex_of_take(b.drop_last(), if n <= b.len() - 1 { n } else { b.len() - 1 });
        if n == b.len() {
            assert(b.take(n) =~= b);
            assert(hex_of(b).take(2 * n) =~= hex_of(b));
        } else {
            assert(b.take(n) =~= b.drop_last().take(n));
            assert(hex_of(b).take(2 * n) =~= hex_of(b.drop_last()).take(2 * n));
        }
    }
}

/// Re-deriving the key identifier from the same public material always
/// yields the same identifier: derivation is a mathematical function of the
/// fingerprint bytes alone.
pub proof fn lemma_identifier_rederivation_stable(b: Seq<u8>, r1: Seq<char>, r2: Seq<char>)
    requires
        r1 == spec_key_identifier(b),
        r2 == spec_key_identifier(b),
    ensures
        r1 == r2,
{
}

/// The key identifier is the first sixteen hexadecimal digits of the
/// fingerprint's display form.
pub proof fn lemma_identifier_prefix_of_fingerprint(b: Seq<u8>)
    requires
        b.len() >= 8,
    ensures
        spec_key_identifier(b) == hex_of(b).take(16),
{
    lemma_hex_of_take(b, 8);
}

/// Appends the hexadecimal digit for `d` to `s`.
fn push_hex_digit(s: &mut String, d: u8)
    requires
        d < 16,
    ensures
        final(s)@ == old(s)@ + seq![hex_digit(d)],
{
    proof {
        reveal_strlit("0");
        reveal_strlit("1");
        reveal_strlit("2");
        reveal_strlit("3");
        reveal_strlit("4");
        reveal_strlit("5");
        reveal_strlit("6");
        reveal_strlit("7");
        reveal_strlit("8");
        reveal_strlit("9");
        reveal_strlit("a");
        reveal_strlit("b");
        reveal_strlit("c");
        reveal_strlit("d");
        reveal_strlit("e");
        reveal_strlit("f");
    }
    if d == 0 {
        s.append("0");
    } else if d == 1 {
        s.append("1");
    } else if d == 2 {
        s.append("2");
    } else if d == 3 {
        s.append("3");
    } else if d == 4 {
        s.append("4");
    } else if d == 5 {
        s.append("5");
    } else if d == 6 {
        s.append("6");
    } else if d == 7 {
        s.append("7");
    } else if d == 8 {
        s.append("8");
    } else if d == 9 {
        s.append("9");
    } else if d == 10 {
        s.append("a");
    } else if d == 11 {
        s.append("b");
    } else if d == 12 {
        s.append("c");
    } else if d == 13 {
        s.append("d");
    } else if d == 14 {
        s.append("e");
    } else {
        s.append("f");
    }
    proof {
        assert(final(s)@ =~= old(s)@ + seq![hex_digit(d)]);
    }
}

/// Encodes bytes as lowercase hexadecimal text.
pub fn hex_encode(bytes: &Vec<u8>) -> (r: String)
    ensures
        r@ == hex_of(bytes@),
{
    let mut s = String::new();
    let mut i: usize = 0;
    while i < bytes.len()
        invariant
            i <= bytes.len(),
            s@ == hex_of(bytes@.take(i as int)),
        decreases bytes.len() - i,
    {
        let b = bytes[i];
        push_hex_digit(&mut s, b / 16);
        push_hex_digit(&mut s, b % 16);
        proof {
            let t = bytes@.take(i + 1);
            assert(t.drop_last() =~= bytes@.take(i as int));
            assert(t.last() == b);
            assert(s@ =~= hex_of(t));
        }
        i = i + 1;
    }
    proof {
        assert(bytes@.take(bytes@.len() as int) =~= bytes@);
    }
    s
}

/// Derives the key identifier from fingerprint bytes: the hexadecimal form
/// of the leading eight bytes.
pub fn key_identifier(fp: &Vec<u8>) -> (r: String)
    ensures
        r@ == spec_key_identifier(fp@),
{
    let n: usize = if fp.len() >= 8 {
        8
    } else {
        fp.len()
    };
    let mut head: Vec<u8> = Vec::new();
    let mut i: usize = 0;
    while i < n
        invariant
            i <= n,
            n <= fp.len(),
            head@ == fp@.take(i as int),
        decreases n - i,
    {
        head.push(fp[i]);
        proof {
            assert(head@ =~= fp@.take(i + 1));
        }
        i = i + 1;
    }
    proof {
        if fp@.len() < 8 {
            assert(fp@.take(fp@.len() as int) =~= fp@);
        }
    }
    hex_encode(&head)
}

} // verus!
