//! Writing text into a buffer of bytes.
use vstd::prelude::*;
use vstd::string::StringSliceAdditionalSpecFns;
use crate::seqs::group_bytes;

verus! {

/// The character for the digit `d` of a numeral: `0` to `9`, then `a` to
/// `z`.
pub open spec fn digit_char(d: nat) -> u8 {
    if d < 10 {
        (48 + d) as u8
    } else {
        (87 + d) as u8
    }
}

/// The decimal numeral of `n`, without leading zeros.
pub open spec fn decimal(n: nat) -> Seq<u8>
    decreases n,
{
    if n < 10 {
        seq![digit_char(n)]
    } else {
        decimal(n / 10).push(digit_char(n % 10))
    }
}

/// The hexadecimal numeral of `n`, in small letters and without leading
/// zeros.
pub open spec fn hex(n: nat) -> Seq<u8>
    decreases n,
{
    if n < 16 {
        seq![digit_char(n)]
    } else {
        hex(n / 16).push(digit_char(n % 16))
    }
}

/// The numeral of `n` to the base `radix`, where that is 10 or 16.
pub open spec fn numeral(n: nat, radix: nat) -> Seq<u8> {
    if radix == 16 {
        hex(n)
    } else {
        decimal(n)
    }
}

/// The decimal numeral of `n`, with a minus sign where `n` is negative.
pub open spec fn signed_decimal(n: int) -> Seq<u8> {
    if n < 0 {
        seq![45u8] + decimal((-n) as nat)
    } else {
        decimal(n as nat)
    }
}

/// The decimal numeral of `n` with its sign, a plus sign where `n` is not
/// negative.
pub open spec fn explicit_decimal(n: int) -> Seq<u8> {
    if n < 0 {
        seq![45u8] + decimal((-n) as nat)
    } else {
        seq![43u8] + decimal(n as nat)
    }
}

/// A position in bits as bytes and bits: the number of whole bytes, and
/// after a dot the bits that are left, where there are any.
pub open spec fn bit_text(val: nat) -> Seq<u8> {
    if val % 8 == 0 {
        decimal(val / 8)
    } else {
        decimal(val / 8) + seq![46u8] + decimal(val % 8)
    }
}

/// Appends `bytes` to `w`.
pub fn put(w: &mut Vec<u8>, bytes: &[u8])
    ensures
        final(w)@ == old(w)@ + bytes@,
{
    let mut i: usize = 0;
    while i < bytes.len()
        invariant
            i <= bytes.len(),
            w@ == old(w)@ + bytes@.take(i as int),
        decreases bytes.len() - i,
    {
        w.push(bytes[i]);
        assert(bytes@.take(i + 1) =~= bytes@.take(i as int).push(bytes@[i as int]));
        assert(w@ =~= old(w)@ + bytes@.take(i + 1));
        i += 1;
    }
    assert(bytes@.take(bytes@.len() as int) =~= bytes@);
}

/// Appends the text `s` to `w`.
pub fn put_str(w: &mut Vec<u8>, s: &str)
    ensures
        final(w)@ == old(w)@ + s.spec_bytes(),
{
    put(w, s.as_bytes());
}

/// Appends the numeral of `n` to the base `radix` to `w`.
pub fn put_numeral(w: &mut Vec<u8>, n: u64, radix: u64)
    requires
        radix == 10 || radix == 16,
    ensures
        final(w)@ == old(w)@ + numeral(n as nat, radix as nat),
{
    // The digits are found from the last to the first.
    let mut digits: Vec<u8> = Vec::new();
    let ghost mut text: Seq<u8> = Seq::empty();
    let mut left = n;
    let d = left % radix;
    digits.push(if d < 10 {
        48 + d as u8
    } else {
        87 + d as u8
    });
    left = left / radix;
    proof {
        text = seq![digit_char((n % radix) as nat)];
        assert(numeral(n as nat, radix as nat) =~= (if left > 0 {
            numeral(left as nat, radix as nat)
        } else {
            Seq::empty()
        }) + text);
    }
    while left > 0
        invariant
            radix == 10 || radix == 16,
            digits@.len() == text.len(),
            digits@.len() > 0,
            forall|k: int| 0 <= k < text.len() ==> text[k] == digits@[digits@.len() - 1 - k],
            numeral(n as nat, radix as nat) == (if left > 0 {
                numeral(left as nat, radix as nat)
            } else {
                Seq::empty()
            }) + text,
        decreases left,
    {
        let d = left % radix;
        let ghost before = left;
        digits.push(if d < 10 {
            48 + d as u8
        } else {
            87 + d as u8
        });
        left = left / radix;
        proof {
            let c = digit_char((before % radix) as nat);
            let front = if left > 0 {
                numeral(left as nat, radix as nat)
            } else {
                Seq::empty()
            };
            assert(numeral(before as nat, radix as nat) =~= front + seq![c]);
            assert((front + seq![c]) + text =~= front + (seq![c] + text));
            text = seq![c] + text;
        }
    }
    let mut i: usize = digits.len();
    while i > 0
        invariant
            i <= digits@.len(),
            digits@.len() == text.len(),
            forall|k: int| 0 <= k < text.len() ==> text[k] == digits@[digits@.len() - 1 - k],
            w@ == old(w)@ + text.take(digits@.len() - i),
        decreases i,
    {
        i -= 1;
        w.push(digits[i]);
        assert(text.take(digits@.len() - i) =~= text.take(digits@.len() - i - 1).push(
            digits@[i as int],
        ));
        assert(w@ =~= old(w)@ + text.take(digits@.len() - i));
    }
    assert(text.take(text.len() as int) =~= text);
    assert(numeral(n as nat, radix as nat) =~= text);
}

/// Appends the decimal numeral of `n` to `w`.
pub fn put_u64(w: &mut Vec<u8>, n: u64)
    ensures
        final(w)@ == old(w)@ + decimal(n as nat),
{
    put_numeral(w, n, 10);
}

/// Appends the hexadecimal numeral of `n` to `w`.
pub fn put_hex(w: &mut Vec<u8>, n: u64)
    ensures
        final(w)@ == old(w)@ + hex(n as nat),
{
    put_numeral(w, n, 16);
}

/// Appends the decimal numeral of `n` to `w`, with a minus sign where `n` is
/// negative.
pub fn put_i64(w: &mut Vec<u8>, n: i64)
    ensures
        final(w)@ == old(w)@ + signed_decimal(n as int),
{
    broadcast use group_bytes;

    if n < 0 {
        w.push(45u8);
        assert(w@ =~= old(w)@ + seq![45u8]);
        let size: u64 = if n == i64::MIN {
            9223372036854775808u64
        } else {
            (-n) as u64
        };
        put_u64(w, size);
    } else {
        put_u64(w, n as u64);
    }
}

/// Appends to `w` what `to` differs from `from` by, as a decimal numeral
/// with its sign.
pub fn put_change(w: &mut Vec<u8>, from: u64, to: u64)
    ensures
        final(w)@ == old(w)@ + explicit_decimal(to - from),
{
    broadcast use group_bytes;

    if to < from {
        w.push(45u8);
        assert(w@ =~= old(w)@ + seq![45u8]);
        put_u64(w, from - to);
    } else {
        w.push(43u8);
        assert(w@ =~= old(w)@ + seq![43u8]);
        put_u64(w, to - from);
    }
}

/// Gives a position or size in bits as text: the number of whole bytes,
/// and after a dot the bits that are left, where there are any.
pub fn format_bit(val: u64) -> (text: Vec<u8>)
    ensures
        text@ == bit_text(val as nat),
{
    broadcast use group_bytes;

    let byte = val / 8;
    let bit = val % 8;
    let mut text: Vec<u8> = Vec::new();
    put_u64(&mut text, byte);
    if bit != 0 {
        text.push(46u8);
        assert(text@ =~= decimal(byte as nat) + seq![46u8]);
        put_u64(&mut text, bit);
    }
    text
}

/// Whether `a` and `b` hold the same bytes.
pub fn bytes_eq(a: &[u8], b: &[u8]) -> (same: bool)
    ensures
        same == (a@ == b@),
{
    if a.len() != b.len() {
        return false;
    }
    let mut i: usize = 0;
    while i < a.len()
        invariant
            i <= a.len(),
            a.len() == b.len(),
            a@.take(i as int) == b@.take(i as int),
        decreases a.len() - i,
    {
        if a[i] != b[i] {
            return false;
        }
        assert(a@.take(i + 1) =~= a@.take(i as int).push(a@[i as int]));
        assert(b@.take(i + 1) =~= b@.take(i as int).push(b@[i as int]));
        i += 1;
    }
    assert(a@.take(a@.len() as int) =~= a@);
    assert(b@.take(b@.len() as int) =~= b@);
    true
}

/// Whether `s` begins with `prefix`.
pub fn starts_with(s: &[u8], prefix: &[u8]) -> (found: bool)
    ensures
        found == (prefix@.len() <= s@.len() && s@.take(prefix@.len() as int) == prefix@),
{
    if prefix.len() > s.len() {
        return false;
    }
    let mut i: usize = 0;
    while i < prefix.len()
        invariant
            i <= prefix.len() <= s.len(),
            s@.take(i as int) == prefix@.take(i as int),
        decreases prefix.len() - i,
    {
        if s[i] != prefix[i] {
            assert(s@.take(prefix@.len() as int)[i as int] != prefix@[i as int]);
            return false;
        }
        assert(s@.take(i + 1) =~= s@.take(i as int).push(s@[i as int]));
        assert(prefix@.take(i + 1) =~= prefix@.take(i as int).push(prefix@[i as int]));
        i += 1;
    }
    assert(prefix@.take(prefix@.len() as int) =~= prefix@);
    true
}

} // verus!
