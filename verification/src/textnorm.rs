//! Line-ending normalization.
//!
//! A cleartext signed-message artifact carries its text with CRLF line
//! endings.  To compare the text that a signature covers with a
//! caller-supplied message, both are normalized to LF line endings first:
//! every CRLF pair and every lone CR becomes a single LF.

use vstd::prelude::*;

verus! {

/// Carriage return.
pub const CR: u8 = 13;

/// Line feed.
pub const LF: u8 = 10;

/// The LF-normal form of a byte sequence: CRLF and lone CR become LF.
pub open spec fn normal_newlines(b: Seq<u8>) -> Seq<u8>
    decreases b.len(),
{
    if b.len() == 0 {
        Seq::empty()
    } else if b.len() >= 2 && b[0] == CR && b[1] == LF {
        seq![LF] + normal_newlines(b.skip(2))
    } else if b[0] == CR {
        seq![LF] + normal_newlines(b.skip(1))
    } else {
        seq![b[0]] + normal_newlines(b.skip(1))
    }
}

/// Normalizes line endings: CRLF and lone CR become LF.
pub fn normalize_newlines(b: &[u8]) -> (r: Vec<u8>)
    ensures
        r@ == normal_newlines(b@),
{
    let mut out: Vec<u8> = Vec::new();
    let mut i: usize = 0;
    proof {
        assert(b@.skip(0) =~= b@);
    }
    while i < b.len()
        invariant
            i <= b.len(),
            normal_newlines(b@) == out@ + normal_newlines(b@.skip(i as int)),
        decreases b.len() - i,
    {
        let ghost rest = b@.skip(i as int);
        if b[i] == CR && i + 1 < b.len() && b[i + 1] == LF {
            proof {
                assert(rest[0] == CR && rest[1] == LF);
                assert(rest.skip(2) =~= b@.skip(i + 2));
            }
            out.push(LF);
            i = i + 2;
        } else if b[i] == CR {
            proof {
                assert(rest[0] == CR);
                assert(rest.len() >= 2 ==> rest[1] == b@[i + 1]);
                assert(rest.skip(1) =~= b@.skip(i + 1));
            }
            out.push(LF);
            i = i + 1;
        } else {
            proof {
                assert(rest[0] == b@[i as int]);
                assert(rest.skip(1) =~= b@.skip(i + 1));
            }
            out.push(b[i]);
            i = i + 1;
        }
    }
    proof {
        assert(b@.skip(b@.len() as int) =~= Seq::<u8>::empty());
    }
    out
}

/// True exactly when two texts are equal up to line-ending encoding.
pub fn same_text_normalized(a: &[u8], b: &[u8]) -> (r: bool)
    ensures
        r == (normal_newlines(a@) == normal_newlines(b@)),
{
    let na = normalize_newlines(a);
    let nb = normalize_newlines(b);
    if na.len() != nb.len() {
        proof {
            assert(na@ != nb@);
        }
        return false;
    }
    let mut i: usize = 0;
    while i < na.len()
        invariant
            i <= na.len(),
            na.len() == nb.len(),
            na@ == normal_newlines(a@),
            nb@ == normal_newlines(b@),
            forall|j: int| 0 <= j < i ==> na@[j] == nb@[j],
        decreases na.len() - i,
    {
        if na[i] != nb[i] {
            proof {
                assert(na@ != nb@);
            }
            return false;
        }
        i = i + 1;
    }
    proof {
        assert(na@ =~= nb@);
    }
    true
}

} // verus!
