//! Small text helpers shared across the library: verified decimal
//! rendering of integers and the bridge between byte vectors and `String`.

use vstd::prelude::*;
use vstd::string::StringSliceAdditionalSpecFns;

verus! {

/// The decimal digit character for a value below ten.
pub open spec fn dec_digit(n: int) -> char {
    if n == 0 {
        '0'
    } else if n == 1 {
        '1'
    } else if n == 2 {
        '2'
    } else if n == 3 {
        '3'
    } else if n == 4 {
        '4'
    } else if n == 5 {
        '5'
    } else if n == 6 {
        '6'
    } else if n == 7 {
        '7'
    } else if n == 8 {
        '8'
    } else {
        '9'
    }
}

/// The usual decimal rendering of a non-negative integer, most significant
/// digit first, with no leading zeros (zero itself renders as "0").
pub open spec fn dec_str(n: int) -> Seq<char>
    decreases n,
{
    if n < 10 {
        seq![dec_digit(n)]
    } else {
        dec_str(n / 10).push(dec_digit(n % 10))
    }
}

/// The ASCII byte of the decimal digit character for a value below ten.
pub open spec fn dec_digit_byte(n: int) -> u8 {
    (0x30 + n) as u8
}

spec fn dec_bytes(n: int) -> Seq<u8>
    decreases n,
{
    if n < 10 {
        seq![dec_digit_byte(n)]
    } else {
        dec_bytes(n / 10).push(dec_digit_byte(n % 10))
    }
}

proof fn lemma_dec_bytes_ascii(n: int)
    requires
        n >= 0,
    ensures
        dec_bytes(n).len() == dec_str(n).len(),
        forall|i: int|
            0 <= i < dec_bytes(n).len() ==> #[trigger] dec_bytes(n)[i] < 128 && dec_bytes(n)[i]
                as char == dec_str(n)[i],
    decreases n,
{
    if n >= 10 {
        lemma_dec_bytes_ascii(n / 10);
        assert forall|i: int| 0 <= i < dec_bytes(n).len() implies #[trigger] dec_bytes(n)[i] < 128
            && dec_bytes(n)[i] as char == dec_str(n)[i] by {
            if i < dec_bytes(n).len() - 1 {
                assert(dec_bytes(n)[i] == dec_bytes(n / 10)[i]);
                assert(dec_str(n)[i] == dec_str(n / 10)[i]);
            }
        }
    }
}

/// Relies on String::from_utf8: a vector of ASCII bytes decodes to the
/// string with exactly those bytes as characters.
#[verifier::external_body]
pub fn ascii_to_string(v: Vec<u8>) -> (r: String)
    requires
        forall|i: int| 0 <= i < v@.len() ==> v@[i] < 128,
    ensures
        r@.len() == v@.len(),
        forall|i: int| 0 <= i < v@.len() ==> r@[i] == v@[i] as char,
{
    String::from_utf8(v).unwrap_or_default()
}

/// Relies on String::from_utf8: decoding inverts UTF-8 encoding, and
/// fails exactly on byte sequences that no string encodes to.
#[verifier::external_body]
pub fn string_from_utf8(v: Vec<u8>) -> (r: Option<String>)
    ensures
        r matches Some(s) ==> vstd::utf8::encode_utf8(s@) == v@,
        forall|t: Seq<char>| vstd::utf8::encode_utf8(t) == v@ ==> r is Some,
{
    match String::from_utf8(v) {
        Ok(s) => Some(s),
        Err(_) => None,
    }
}

/// Render a u64 in decimal.
pub fn u64_to_string(n: u64) -> (r: String)
    ensures
        r@ == dec_str(n as int),
{
    if n == 0 {
        let mut v: Vec<u8> = Vec::new();
        v.push(0x30);
        proof {
            assert(dec_str(0) =~= seq!['0']);
            assert(v@ =~= seq![0x30u8]);
        }
        let s = ascii_to_string(v);
        proof {
            assert(s@ =~= dec_str(0));
        }
        return s;
    }
    let mut rev: Vec<u8> = Vec::new();
    let mut m = n;
    proof {
        assert(dec_bytes(n as int) + rev@.reverse() =~= dec_bytes(n as int));
    }
    while m > 0
        invariant
            m > 0 ==> dec_bytes(n as int) == dec_bytes(m as int) + rev@.reverse(),
            m == 0 ==> dec_bytes(n as int) == rev@.reverse(),
        decreases m,
    {
        let ghost prev = m;
        let ghost prev_rev = rev@;
        let d = (m % 10) as u8;
        rev.push(0x30 + d);
        m = m / 10;
        proof {
            assert(rev@ =~= prev_rev.push(dec_digit_byte(prev as int % 10)));
            assert(rev@.reverse() =~= seq![dec_digit_byte(prev as int % 10)]
                + prev_rev.reverse());
            if prev >= 10 {
                assert(dec_bytes(prev as int) =~= dec_bytes(prev as int / 10).push(
                    dec_digit_byte(prev as int % 10),
                ));
                assert(dec_bytes(m as int) + rev@.reverse() =~= (dec_bytes(m as int) + seq![
                    dec_digit_byte(prev as int % 10),
                ]) + prev_rev.reverse());
                assert(dec_bytes(m as int) + seq![dec_digit_byte(prev as int % 10)]
                    =~= dec_bytes(prev as int));
            } else {
                assert(m == 0);
                assert(dec_bytes(prev as int) =~= seq![dec_digit_byte(prev as int)]);
                assert(prev as int % 10 == prev as int);
                assert(rev@.reverse() =~= dec_bytes(prev as int) + prev_rev.reverse());
            }
        }
    }
    let mut out: Vec<u8> = Vec::new();
    let mut i = rev.len();
    proof {
        assert(dec_bytes(n as int) =~= rev@.reverse());
    }
    while i > 0
        invariant
            i <= rev@.len(),
            dec_bytes(n as int) == rev@.reverse(),
            out@.len() == rev@.len() - i,
            forall|k: int| 0 <= k < out@.len() ==> out@[k] == dec_bytes(n as int)[k],
        decreases i,
    {
        i = i - 1;
        out.push(rev[i]);
        proof {
            assert(out@.last() == rev@[i as int]);
            assert(rev@.reverse()[rev@.len() - 1 - i] == rev@[i as int]);
        }
    }
    proof {
        assert(out@ =~= dec_bytes(n as int));
        lemma_dec_bytes_ascii(n as int);
    }
    let s = ascii_to_string(out);
    proof {
        assert(s@ =~= dec_str(n as int));
    }
    s
}

/// Byte-for-byte equality of two slices.
pub fn bytes_eq(a: &[u8], b: &[u8]) -> (r: bool)
    ensures
        r == (a@ == b@),
{
    if a.len() != b.len() {
        assert(a@ != b@) by {
            assert(a@.len() != b@.len());
        }
        return false;
    }
    let mut i: usize = 0;
    while i < a.len()
        invariant
            a@.len() == b@.len(),
            i <= a@.len(),
            forall|k: int| 0 <= k < i ==> a@[k] == b@[k],
        decreases a@.len() - i,
    {
        if a[i] != b[i] {
            assert(a@ != b@);
            return false;
        }
        i = i + 1;
    }
    proof {
        assert(a@ =~= b@);
    }
    true
}

/// Character-for-character equality of two string slices.
pub fn str_eq(a: &str, b: &str) -> (r: bool)
    ensures
        r == (a@ == b@),
{
    let r = bytes_eq(a.as_bytes(), b.as_bytes());
    proof {
        if a.spec_bytes() == b.spec_bytes() {
            vstd::utf8::encode_utf8_decode_utf8(a@);
            vstd::utf8::encode_utf8_decode_utf8(b@);
            assert(a@ == b@);
        }
    }
    r
}

/// Render a u32 in decimal.
pub fn u32_to_string(n: u32) -> (r: String)
    ensures
        r@ == dec_str(n as int),
{
    u64_to_string(n as u64)
}

} // verus!
