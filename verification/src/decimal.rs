//! The text form of a score: an optional sign and decimal digits.

use vstd::prelude::*;

verus! {

/// Why a text is not a score.
#[derive(Clone, Copy, Debug, PartialEq, Eq, Structural)]
pub enum LoadError {
    /// The text is empty.
    Empty,
    /// The text is not a sign, if any, followed by one or more digits.
    InvalidDigit,
    /// The text is a number that the score's type cannot hold.
    OutOfRange,
}

/// Whether `b` is an ASCII digit.
pub open spec fn is_digit(b: u8) -> bool {
    0x30 <= b <= 0x39
}

/// Whether `b` is the plus or the minus sign.
pub open spec fn is_sign(b: u8) -> bool {
    b == 0x2b || b == 0x2d
}

/// Whether `ds` holds digits only.
pub open spec fn all_digits(ds: Seq<u8>) -> bool {
    forall|i: int| 0 <= i < ds.len() ==> is_digit(#[trigger] ds[i])
}

/// The number that the digits `ds` write.
pub open spec fn magnitude(ds: Seq<u8>) -> nat
    decreases ds.len(),
{
    if ds.len() == 0 {
        0
    } else {
        (magnitude(ds.drop_last()) * 10 + (ds.last() - 0x30)) as nat
    }
}

/// The digits of a text: what follows its sign, if it has one.
pub open spec fn digits_of(text: Seq<u8>) -> Seq<u8> {
    if text.len() > 0 && is_sign(text[0]) {
        text.skip(1)
    } else {
        text
    }
}

/// Whether `text` is a sign, if any, followed by one or more digits.
pub open spec fn well_formed(text: Seq<u8>) -> bool {
    digits_of(text).len() > 0 && all_digits(digits_of(text))
}

/// The number that a well-formed text writes.
pub open spec fn number(text: Seq<u8>) -> int {
    if text.len() > 0 && text[0] == 0x2d {
        -(magnitude(digits_of(text)) as int)
    } else {
        magnitude(digits_of(text)) as int
    }
}

/// What reading `text` gives: the number it writes, or why it writes none.
pub open spec fn parsed(text: Seq<u8>) -> Result<i128, LoadError> {
    if text.len() == 0 {
        Err(LoadError::Empty)
    } else if !well_formed(text) {
        Err(LoadError::InvalidDigit)
    } else if i128::MIN <= number(text) <= i128::MAX {
        Ok(number(text) as i128)
    } else {
        Err(LoadError::OutOfRange)
    }
}

/// The digits that write `n`, without leading zeros.
pub open spec fn decimal(n: nat) -> Seq<u8>
    decreases n,
{
    if n < 10 {
        seq![(0x30 + n) as u8]
    } else {
        decimal(n / 10).push((0x30 + n % 10) as u8)
    }
}

/// The text that writes `v`: its digits, after a minus sign if it is
/// negative.
pub open spec fn text_of(v: int) -> Seq<u8> {
    if v < 0 {
        seq![0x2du8] + decimal((-v) as nat)
    } else {
        decimal(v as nat)
    }
}

/// The digits that write a number are digits, at least one, and write it.
pub proof fn lemma_decimal_reads_back(n: nat)
    ensures
        decimal(n).len() > 0,
        all_digits(decimal(n)),
        magnitude(decimal(n)) == n,
    decreases n,
{
    if n < 10 {
        let ds = decimal(n);
        assert(ds.drop_last() =~= Seq::<u8>::empty());
        assert(magnitude(ds.drop_last()) == 0);
    } else {
        lemma_decimal_reads_back(n / 10);
        let ds = decimal(n);
        assert(ds.drop_last() =~= decimal(n / 10));
    }
}

/// Reading what was written gives back the number: for every score `v`, the
/// text that writes `v` is well formed and reads as `v`.
pub proof fn lemma_round_trip(v: i128)
    ensures
        parsed(text_of(v as int)) == Ok::<i128, LoadError>(v),
{
    let text = text_of(v as int);
    if v < 0 {
        let n = (-v) as nat;
        lemma_decimal_reads_back(n);
        assert(text[0] == 0x2d);
        assert(digits_of(text) =~= decimal(n));
    } else {
        let n = v as nat;
        lemma_decimal_reads_back(n);
        assert(is_digit(text[0]));
        assert(digits_of(text) =~= text);
    }
}

/// One more digit multiplies the number written so far by ten and adds the
/// digit.
proof fn lemma_next_digit(ds: Seq<u8>, k: int)
    requires
        0 <= k < ds.len(),
        is_digit(ds[k]),
        all_digits(ds.take(k)),
    ensures
        all_digits(ds.take(k + 1)),
        magnitude(ds.take(k + 1)) == magnitude(ds.take(k)) * 10 + (ds[k] - 0x30),
{
    let next = ds.take(k + 1);
    assert(next.drop_last() =~= ds.take(k));
    assert forall|j: int| 0 <= j < next.len() implies is_digit(#[trigger] next[j]) by {
        if j < k {
            assert(ds.take(k)[j] == next[j]);
        }
    }
}

/// Appends the digits that write `n`.
fn push_decimal(n: u128, out: &mut Vec<u8>)
    ensures
        final(out)@ == old(out)@ + decimal(n as nat),
    decreases n,
{
    if n >= 10 {
        push_decimal(n / 10, out);
    }
    let d: u8 = (n % 10) as u8;
    out.push(0x30 + d);
    assert(out@ =~= old(out)@ + decimal(n as nat));
}

/// Writes a score as text.
pub fn encode(v: i128) -> (text: Vec<u8>)
    ensures
        text@ == text_of(v as int),
        parsed(text@) == Ok::<i128, LoadError>(v),
{
    let mut text: Vec<u8> = Vec::new();
    if v < 0 {
        text.push(0x2d);
        let n: u128 = (-(v + 1)) as u128 + 1;
        push_decimal(n, &mut text);
        assert(text@ =~= text_of(v as int));
    } else {
        push_decimal(v as u128, &mut text);
        assert(text@ =~= text_of(v as int));
    }
    proof {
        lemma_round_trip(v);
    }
    text
}

/// Reads a score from text: an optional plus or minus sign, then one or
/// more decimal digits and nothing else.
pub fn decode(text: &[u8]) -> (r: Result<i128, LoadError>)
    ensures
        r == parsed(text@),
{
    let n: usize = text.len();
    if n == 0 {
        return Err(LoadError::Empty);
    }
    let first: u8 = text[0];
    let negative: bool = first == 0x2d;
    let start: usize = if first == 0x2b || first == 0x2d {
        1
    } else {
        0
    };
    let ghost ds = digits_of(text@);
    if start == n {
        return Err(LoadError::InvalidDigit);
    }
    let limit: u128 = if negative {
        0x8000_0000_0000_0000_0000_0000_0000_0000
    } else {
        0x7fff_ffff_ffff_ffff_ffff_ffff_ffff_ffff
    };
    let mut total: u128 = 0;
    let mut over: bool = false;
    let mut i: usize = start;
    assert(ds.take(0) =~= Seq::<u8>::empty());
    while i < n
        invariant
            text@.len() == n,
            start <= i <= n,
            ds == digits_of(text@),
            ds.len() == n - start,
            forall|j: int| 0 <= j < ds.len() ==> ds[j] == text@[j + start],
            all_digits(ds.take(i - start)),
            0x7fff_ffff_ffff_ffff_ffff_ffff_ffff_ffff <= limit
                <= 0x8000_0000_0000_0000_0000_0000_0000_0000,
            !over ==> total == magnitude(ds.take(i - start)) && total <= limit,
            over ==> magnitude(ds.take(i - start)) > limit,
        decreases n - i,
    {
        let b: u8 = text[i];
        if !(0x30 <= b && b <= 0x39) {
            assert(!is_digit(ds[i - start]));
            return Err(LoadError::InvalidDigit);
        }
        let d: u128 = (b - 0x30) as u128;
        proof {
            lemma_next_digit(ds, i - start);
        }
        if !over {
            if total > (limit - d) / 10 {
                over = true;
            } else {
                total = total * 10 + d;
            }
        }
        i = i + 1;
    }
    assert(ds.take(n - start) =~= ds);
    if over {
        Err(LoadError::OutOfRange)
    } else if negative {
        if total == limit {
            Ok(i128::MIN)
        } else {
            Ok(-(total as i128))
        }
    } else {
        Ok(total as i128)
    }
}

} // verus!
