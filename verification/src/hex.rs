//! Hex-string parsing into an 8-bit value: accumulate nibbles left to
//! right, reporting the first offending character or the first step whose
//! accumulated value would exceed the target width.

use vstd::prelude::*;
use crate::error::Error;

verus! {

/// A character in `[0-9a-fA-F]`.
pub open spec fn is_hex_digit(c: char) -> bool {
    ||| ('0' as u32 <= c as u32 && c as u32 <= '9' as u32)
    ||| ('a' as u32 <= c as u32 && c as u32 <= 'f' as u32)
    ||| ('A' as u32 <= c as u32 && c as u32 <= 'F' as u32)
}

/// The numeric value of a hex digit.
pub open spec fn hex_digit_value(c: char) -> nat {
    if '0' as u32 <= c as u32 && c as u32 <= '9' as u32 {
        (c as u32 - '0' as u32) as nat
    } else if 'a' as u32 <= c as u32 && c as u32 <= 'f' as u32 {
        (c as u32 - 'a' as u32 + 10) as nat
    } else {
        (c as u32 - 'A' as u32 + 10) as nat
    }
}

/// The text with one optional leading `0x` marker removed.
pub open spec fn strip_prefix(t: Seq<char>) -> Seq<char> {
    if t.len() >= 2 && t[0] == '0' && t[1] == 'x' {
        t.subrange(2, t.len() as int)
    } else {
        t
    }
}

/// Every character is a hex digit.
pub open spec fn all_hex_digits(t: Seq<char>) -> bool {
    forall|i: int| 0 <= i < t.len() ==> is_hex_digit(#[trigger] t[i])
}

/// The numeric value of a digit sequence read as base-16, left to right.
pub open spec fn hex_value(t: Seq<char>) -> nat
    decreases t.len(),
{
    if t.len() == 0 {
        0
    } else {
        hex_value(t.drop_last()) * 16 + hex_digit_value(t.last())
    }
}

/// Well-formed hex text for an 8-bit target: at least one digit, all
/// digits valid, and the value fits.
pub open spec fn hex_ok(t: Seq<char>) -> bool {
    t.len() > 0 && all_hex_digits(t) && hex_value(t) <= u8::MAX
}

/// Position `i` is where a left-to-right scan stops on a bad character:
/// everything before it is a valid digit, the accumulated value has not
/// yet exceeded the target width, and `t[i]` is not a hex digit.
pub open spec fn digit_failure_at(t: Seq<char>, i: int) -> bool {
    &&& 0 <= i < t.len()
    &&& (forall|j: int| 0 <= j < i ==> is_hex_digit(#[trigger] t[j]))
    &&& !is_hex_digit(t[i])
    &&& hex_value(t.subrange(0, i)) <= u8::MAX
}

/// Position `i` is where a left-to-right scan first overflows: everything
/// up to and including `t[i]` is a valid digit, the value before the step
/// still fits, and folding in `t[i]` exceeds the target width.
pub open spec fn overflow_at(t: Seq<char>, i: int) -> bool {
    &&& 0 <= i < t.len()
    &&& (forall|j: int| 0 <= j <= i ==> is_hex_digit(#[trigger] t[j]))
    &&& hex_value(t.subrange(0, i)) <= u8::MAX
    &&& hex_value(t.subrange(0, i + 1)) > u8::MAX
}

/// The status a parse of prefix-stripped text `t` ends in: 0 for success,
/// otherwise the code of the error the scan stops on.
pub open spec fn hex_outcome(t: Seq<char>) -> u32 {
    if t.len() == 0 {
        2
    } else if hex_ok(t) {
        0
    } else if exists|i: int| digit_failure_at(t, i) {
        3
    } else {
        4
    }
}

/// Folding one more digit onto the value of a prefix.
proof fn lemma_hex_value_step(t: Seq<char>, i: int)
    requires
        0 <= i < t.len(),
    ensures
        hex_value(t.subrange(0, i + 1)) == hex_value(t.subrange(0, i)) * 16 + hex_digit_value(
            t[i],
        ),
{
    assert(t.subrange(0, i + 1).drop_last() =~= t.subrange(0, i));
    assert(t.subrange(0, i + 1).last() == t[i]);
}

/// The value of a prefix never shrinks as the prefix grows.
proof fn lemma_hex_value_prefix_mono(t: Seq<char>, j: int, i: int)
    requires
        0 <= j <= i <= t.len(),
    ensures
        hex_value(t.subrange(0, j)) <= hex_value(t.subrange(0, i)),
    decreases i - j,
{
    if j < i {
        lemma_hex_value_prefix_mono(t, j, i - 1);
        lemma_hex_value_step(t, i - 1);
    }
}

/// A whole sequence is the prefix of its own length.
proof fn lemma_hex_value_whole(t: Seq<char>)
    ensures
        hex_value(t.subrange(0, t.len() as int)) == hex_value(t),
{
    assert(t.subrange(0, t.len() as int) =~= t);
}

/// Some character before position `b` is the first non-digit.
proof fn lemma_first_non_digit(t: Seq<char>, b: int)
    requires
        0 <= b < t.len(),
        !is_hex_digit(t[b]),
    ensures
        exists|k: int|
            0 <= k < t.len() && !is_hex_digit(t[k]) && (forall|j: int|
                0 <= j < k ==> is_hex_digit(#[trigger] t[j])),
    decreases b,
{
    if forall|j: int| 0 <= j < b ==> is_hex_digit(#[trigger] t[j]) {
        assert(!is_hex_digit(t[b]));
    } else {
        let b2 = choose|j: int| 0 <= j < b && !is_hex_digit(#[trigger] t[j]);
        lemma_first_non_digit(t, b2);
    }
}

/// Between a prefix whose value fits and a longer one whose value does
/// not, some single step crosses the target width.
proof fn lemma_crossing(t: Seq<char>, lo: int, hi: int)
    requires
        0 <= lo <= hi <= t.len(),
        hex_value(t.subrange(0, lo)) <= u8::MAX,
        hex_value(t.subrange(0, hi)) > u8::MAX,
    ensures
        exists|k: int|
            lo <= k < hi && #[trigger] hex_value(t.subrange(0, k)) <= u8::MAX && hex_value(
                t.subrange(0, k + 1),
            ) > u8::MAX,
    decreases hi - lo,
{
    if hex_value(t.subrange(0, lo + 1)) > u8::MAX {
        assert(lo < hi);
        assert(hex_value(t.subrange(0, lo)) <= u8::MAX && hex_value(t.subrange(0, lo + 1))
            > u8::MAX);
    } else {
        lemma_crossing(t, lo + 1, hi);
    }
}

/// A parse of `t` ends in `InvalidHexDigit` exactly when a left-to-right
/// scan reaches a non-digit character before anything else stops it.
pub proof fn lemma_outcome_invalid_digit(t: Seq<char>)
    ensures
        hex_outcome(t) == 3 <==> exists|i: int| digit_failure_at(t, i),
{
    if exists|i: int| digit_failure_at(t, i) {
        let i = choose|i: int| digit_failure_at(t, i);
        assert(!is_hex_digit(t[i]));
        assert(!hex_ok(t));
        assert(hex_outcome(t) == 3);
    }
}

/// A parse of `t` ends in `Overflow` exactly when a left-to-right scan
/// reaches an accumulation step past the target width before anything
/// else stops it.
pub proof fn lemma_outcome_overflow(t: Seq<char>)
    ensures
        hex_outcome(t) == 4 <==> exists|i: int| overflow_at(t, i),
{
    if exists|i: int| overflow_at(t, i) {
        let i = choose|i: int| overflow_at(t, i);
        lemma_hex_value_prefix_mono(t, i + 1, t.len() as int);
        lemma_hex_value_whole(t);
        assert(!hex_ok(t));
        assert forall|k: int| !digit_failure_at(t, k) by {
            if i < k < t.len() {
                if digit_failure_at(t, k) {
                    lemma_hex_value_prefix_mono(t, i + 1, k);
                }
            }
        }
        assert(hex_outcome(t) == 4);
    }
    if hex_outcome(t) == 4 {
        assert(t.len() > 0 && !hex_ok(t) && !exists|i: int| digit_failure_at(t, i));
        if all_hex_digits(t) {
            lemma_hex_value_whole(t);
            assert(hex_value(t.subrange(0, t.len() as int)) > u8::MAX);
            assert(hex_value(t.subrange(0, 0)) == 0) by {
                assert(t.subrange(0, 0) =~= Seq::<char>::empty());
            }
            lemma_crossing(t, 0, t.len() as int);
            let k = choose|k: int|
                0 <= k < t.len() && #[trigger] hex_value(t.subrange(0, k)) <= u8::MAX
                    && hex_value(t.subrange(0, k + 1)) > u8::MAX;
            assert(overflow_at(t, k));
        } else {
            let b = choose|b: int| 0 <= b < t.len() && !is_hex_digit(#[trigger] t[b]);
            lemma_first_non_digit(t, b);
            let k = choose|k: int|
                0 <= k < t.len() && !is_hex_digit(t[k]) && (forall|j: int|
                    0 <= j < k ==> is_hex_digit(#[trigger] t[j]));
            if hex_value(t.subrange(0, k)) <= u8::MAX {
                assert(digit_failure_at(t, k));
            } else {
                assert(hex_value(t.subrange(0, 0)) == 0) by {
                    assert(t.subrange(0, 0) =~= Seq::<char>::empty());
                }
                lemma_crossing(t, 0, k);
                let m = choose|m: int|
                    0 <= m < k && #[trigger] hex_value(t.subrange(0, m)) <= u8::MAX
                        && hex_value(t.subrange(0, m + 1)) > u8::MAX;
                assert(overflow_at(t, m));
            }
        }
    }
}

/// The numeric value of one character as a hex digit, or `None` for a
/// character outside `[0-9a-fA-F]`.
fn hex_digit_of(c: char) -> (r: Option<u8>)
    ensures
        (r is Some <==> is_hex_digit(c)),
        (r matches Some(v) ==> v as nat == hex_digit_value(c) && v < 16),
{
    let u = c as u32;
    if 48 <= u && u <= 57 {
        Some((u - 48) as u8)
    } else if 97 <= u && u <= 102 {
        Some((u - 97 + 10) as u8)
    } else if 65 <= u && u <= 70 {
        Some((u - 65 + 10) as u8)
    } else {
        None
    }
}

/// Parses hex text into an 8-bit value after removing one optional `0x`
/// marker.  Scanning left to right, the result is success exactly for
/// well-formed text whose value fits; otherwise the error matches the
/// first offending scan position: empty text is `InvalidFormat`, the first
/// non-digit is reported in `InvalidHexDigit`, and the first accumulation
/// step past the target width is `Overflow`.  Every error comes with no
/// cause and a freshly captured trace.
pub fn parsehex(s: &str) -> (r: Result<u8, Error>)
    ensures
        ({
            let t = strip_prefix(s@);
            &&& (r is Ok <==> hex_ok(t))
            &&& (r matches Ok(v) ==> v as nat == hex_value(t))
            &&& (r matches Err(e) ==> e.code_spec() == hex_outcome(t) && e.is_leaf())
            &&& ((r matches Err(e) && e is InvalidFormat) <==> t.len() == 0)
            &&& ((r matches Err(e) && e is InvalidHexDigit) <==> exists|i: int|
                digit_failure_at(t, i))
            &&& (r matches Err(e) ==> (forall|i: int|
                (e is InvalidHexDigit && #[trigger] digit_failure_at(t, i)) ==> e->ch == t[i]))
            &&& ((r matches Err(e) && e is Overflow) <==> exists|i: int| overflow_at(t, i))
            &&& (r matches Err(e) ==> !(e is NullPointer) && !(e is InvalidUTF8))
        }),
{
    let n = s.unicode_len();
    let start: usize = if n >= 2 && s.get_char(0) == '0' && s.get_char(1) == 'x' {
        2
    } else {
        0
    };
    let ghost t = strip_prefix(s@);
    proof {
        assert(t =~= s@.subrange(start as int, n as int));
    }
    if start == n {
        return Err(Error::invalid_format());
    }
    let mut acc: u8 = 0;
    let mut i: usize = start;
    while i < n
        invariant
            start <= i <= n,
            n == s@.len(),
            t == strip_prefix(s@),
            t == s@.subrange(start as int, n as int),
            t.len() == n - start,
            forall|j: int| 0 <= j < i - start ==> is_hex_digit(#[trigger] t[j]),
            acc as nat == hex_value(t.subrange(0, i - start)),
        decreases n - i,
    {
        let c = s.get_char(i);
        proof {
            assert(t[i - start] == s@[i as int]);
        }
        match hex_digit_of(c) {
            None => {
                proof {
                    let p = i - start;
                    assert(digit_failure_at(t, p));
                    assert forall|k: int| !overflow_at(t, k) by {
                        if 0 <= k < p {
                            if overflow_at(t, k) {
                                lemma_hex_value_prefix_mono(t, k + 1, p);
                            }
                        }
                    }
                    assert(!hex_ok(t));
                    assert(hex_outcome(t) == 3);
                }
                return Err(Error::invalid_hex_digit(c));
            },
            Some(d) => {
                let wide: u32 = (acc as u32) * 16 + (d as u32);
                proof {
                    lemma_hex_value_step(t, i - start);
                }
                if wide > 255 {
                    proof {
                        let p = i - start;
                        assert(overflow_at(t, p));
                        assert forall|k: int| !digit_failure_at(t, k) by {
                            if p < k < t.len() {
                                if digit_failure_at(t, k) {
                                    lemma_hex_value_prefix_mono(t, p + 1, k);
                                }
                            }
                        }
                        lemma_hex_value_prefix_mono(t, p + 1, t.len() as int);
                        lemma_hex_value_whole(t);
                        assert(!hex_ok(t));
                        assert(hex_outcome(t) == 4);
                    }
                    return Err(Error::overflow());
                }
                acc = (wide as u8);
                i = i + 1;
            },
        }
    }
    proof {
        lemma_hex_value_whole(t);
        assert(hex_ok(t));
        assert forall|k: int| !digit_failure_at(t, k) by {}
        assert forall|k: int| !overflow_at(t, k) by {
            if 0 <= k < t.len() {
                if overflow_at(t, k) {
                    lemma_hex_value_prefix_mono(t, k + 1, t.len() as int);
                }
            }
        }
    }
    Ok(acc)
}

} // verus!
