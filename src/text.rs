//! Character-level helpers on chat text: equality and decimal numbers.
use vstd::prelude::*;
use vstd::string::StrSliceExecFns;

verus! {

pub open spec fn is_digit(c: char) -> bool {
    '0' <= c && c <= '9'
}

pub open spec fn all_digits(s: Seq<char>) -> bool {
    s.len() > 0 && forall|i: int| 0 <= i < s.len() ==> is_digit(#[trigger] s[i])
}

pub open spec fn digit_value(c: char) -> int {
    (c as u32) as int - ('0' as u32) as int
}

/// The value of a string of decimal digits, read most significant digit first.
pub open spec fn digits_value(s: Seq<char>) -> int
    decreases s.len(),
{
    if s.len() == 0 {
        0
    } else {
        digits_value(s.drop_last()) * 10 + digit_value(s.last())
    }
}

/// The integer that a text spells: an optional `+` or `-`, then one or more
/// ASCII digits, and nothing else.
pub open spec fn decimal_value(s: Seq<char>) -> Option<int> {
    if s.len() > 0 && s[0] == '-' && all_digits(s.drop_first()) {
        Some(-digits_value(s.drop_first()))
    } else if s.len() > 0 && s[0] == '+' && all_digits(s.drop_first()) {
        Some(digits_value(s.drop_first()))
    } else if all_digits(s) {
        Some(digits_value(s))
    } else {
        None
    }
}

/// The `i32` that a text spells, if it spells one that fits.
pub open spec fn i32_of_text(s: Seq<char>) -> Option<i32> {
    match decimal_value(s) {
        Some(v) => if i32::MIN <= v <= i32::MAX {
            Some(v as i32)
        } else {
            None
        },
        None => None,
    }
}

proof fn lemma_digits_value_nonneg(s: Seq<char>)
    requires
        forall|i: int| 0 <= i < s.len() ==> is_digit(#[trigger] s[i]),
    ensures
        digits_value(s) >= 0,
    decreases s.len(),
{
    if s.len() > 0 {
        let t = s.drop_last();
        assert forall|i: int| 0 <= i < t.len() implies is_digit(#[trigger] t[i]) by {
            assert(t[i] == s[i]);
        }
        lemma_digits_value_nonneg(t);
        assert(is_digit(s[s.len() - 1]));
    }
}

/// A digit string is worth at least as much as any of its prefixes.
proof fn lemma_digits_prefix_le(s: Seq<char>, k: int)
    requires
        0 <= k <= s.len(),
        forall|i: int| 0 <= i < s.len() ==> is_digit(#[trigger] s[i]),
    ensures
        digits_value(s.take(k)) <= digits_value(s),
    decreases s.len() - k,
{
    if k < s.len() {
        let t = s.take(k + 1);
        assert(t.drop_last() =~= s.take(k));
        assert forall|i: int| 0 <= i < k implies is_digit(#[trigger] s.take(k)[i]) by {
            assert(s.take(k)[i] == s[i]);
        }
        lemma_digits_value_nonneg(s.take(k));
        assert(is_digit(s[k]));
        assert(t.last() == s[k]);
        lemma_digits_prefix_le(s, k + 1);
    } else {
        assert(s.take(k) =~= s);
    }
}

/// Whether two texts hold the same characters.
pub fn same_text(a: &str, b: &str) -> (r: bool)
    ensures
        r == (a@ == b@),
{
    let n = a.unicode_len();
    if n != b.unicode_len() {
        return false;
    }
    let mut i: usize = 0;
    while i < n
        invariant
            n == a@.len(),
            n == b@.len(),
            i <= n,
            forall|j: int| 0 <= j < i ==> a@[j] == b@[j],
        decreases n - i,
    {
        if a.get_char(i) != b.get_char(i) {
            return false;
        }
        i = i + 1;
    }
    assert(a@ =~= b@);
    true
}

/// Reads the `i32` that `text` spells in decimal.
pub fn parse_number(text: &str) -> (r: Option<i32>)
    ensures
        r == i32_of_text(text@),
{
    let s = Ghost(text@);
    let n = text.unicode_len();
    if n == 0 {
        return None;
    }
    let first = text.get_char(0);
    let negative = first == '-';
    let start: usize = if first == '-' || first == '+' { 1 } else { 0 };
    if start == n {
        assert(!all_digits(s@.drop_first()));
        return None;
    }
    let digits = Ghost(s@.subrange(start as int, n as int));
    assert(start == 1 ==> digits@ =~= s@.drop_first());
    assert(start == 0 ==> digits@ =~= s@);
    assert(start == 1 ==> !is_digit(s@[0]));
    assert(decimal_value(s@) == if all_digits(digits@) {
        Some(if negative { -digits_value(digits@) } else { digits_value(digits@) })
    } else {
        None::<int>
    });
    let mut acc: i64 = 0;
    let mut i: usize = start;
    while i < n
        invariant
            s@ == text@,
            n == s@.len(),
            start <= i <= n,
            start < n,
            digits@ == s@.subrange(start as int, n as int),
            forall|j: int| 0 <= j < i - start ==> is_digit(#[trigger] digits@[j]),
            acc == digits_value(digits@.take(i - start)),
            0 <= acc <= 2147483648,
            decimal_value(s@) == if all_digits(digits@) {
                Some(if negative { -digits_value(digits@) } else { digits_value(digits@) })
            } else {
                None::<int>
            },
        decreases n - i,
    {
        let c = text.get_char(i);
        if !('0' <= c && c <= '9') {
            assert(digits@[i - start] == c);
            assert(!all_digits(digits@));
            return None;
        }
        let d = (c as u32 - '0' as u32) as i64;
        let next = acc * 10 + d;
        proof {
            let t = digits@.take(i - start + 1);
            assert(t.drop_last() =~= digits@.take(i - start));
            assert(t.last() == c);
        }
        if next > 2147483648 {
            proof {
                assert(digits@[i - start] == c);
                assert forall|j: int| 0 <= j <= i - start implies is_digit(
                    #[trigger] digits@.take(i - start + 1)[j],
                ) by {
                    assert(digits@.take(i - start + 1)[j] == digits@[j]);
                }
                if all_digits(digits@) {
                    lemma_digits_prefix_le(digits@, i - start + 1);
                }
            }
            return None;
        }
        acc = next;
        i = i + 1;
    }
    assert(digits@.take(n - start) =~= digits@);
    assert(all_digits(digits@));
    if negative {
        Some((-acc) as i32)
    } else if acc <= 2147483647 {
        Some(acc as i32)
    } else {
        None
    }
}

} // verus!
