use vstd::prelude::*;

verus! {

/// A decimal digit character.
pub open spec fn is_ascii_digit(c: char) -> bool {
    48 <= c as int && c as int <= 57
}

/// The numeric value of a sequence of decimal digit characters, most
/// significant first.
pub open spec fn digits_value(s: Seq<char>) -> int
    decreases s.len(),
{
    if s.len() == 0 {
        0
    } else {
        digits_value(s.drop_last()) * 10 + (s.last() as int - 48)
    }
}

/// The characters after an optional leading sign.
pub open spec fn digits_part(s: Seq<char>) -> Seq<char> {
    if s.len() > 0 && (s[0] == '+' || s[0] == '-') {
        s.drop_first()
    } else {
        s
    }
}

/// Whether the numeral carries a leading minus sign.
pub open spec fn is_negative(s: Seq<char>) -> bool {
    s.len() > 0 && s[0] == '-'
}

/// Every character of `s` is a decimal digit.
pub open spec fn all_digits(s: Seq<char>) -> bool {
    forall|i: int| 0 <= i < s.len() ==> is_ascii_digit(s[i])
}

/// The mathematical value of a signed decimal numeral.
pub open spec fn numeral_value(s: Seq<char>) -> int {
    if is_negative(s) {
        -digits_value(digits_part(s))
    } else {
        digits_value(digits_part(s))
    }
}

/// Whether `s` is a decimal numeral that an `i32` can hold: an optional
/// `+` or `-` sign, one or more decimal digits, and a value within the
/// `i32` range.
pub open spec fn is_i32_numeral(s: Seq<char>) -> bool {
    &&& digits_part(s).len() > 0
    &&& all_digits(digits_part(s))
    &&& -2147483648 <= numeral_value(s) <= 2147483647
}

/// A prefix of a digit string is a digit string.
proof fn lemma_all_digits_take(s: Seq<char>, i: int)
    requires
        all_digits(s),
        0 <= i <= s.len(),
    ensures
        all_digits(s.take(i)),
{
    assert forall|j: int| 0 <= j < s.take(i).len() implies is_ascii_digit(s.take(i)[j]) by {
        assert(s.take(i)[j] == s[j]);
    }
}

/// The value of a digit string is never negative.
proof fn lemma_digits_value_nonneg(s: Seq<char>)
    requires
        all_digits(s),
    ensures
        digits_value(s) >= 0,
    decreases s.len(),
{
    if s.len() > 0 {
        lemma_all_digits_take(s, s.len() - 1);
        assert(s.drop_last() == s.take(s.len() - 1));
        lemma_digits_value_nonneg(s.drop_last());
        assert(is_ascii_digit(s[s.len() - 1]));
    }
}

/// Extending a digit string with further digits never decreases its value.
proof fn lemma_digits_value_prefix(s: Seq<char>, i: int)
    requires
        all_digits(s),
        0 <= i <= s.len(),
    ensures
        digits_value(s.take(i)) <= digits_value(s),
    decreases s.len() - i,
{
    if i == s.len() {
        assert(s.take(i) =~= s);
    } else {
        lemma_digits_value_prefix(s, i + 1);
        assert(s.take(i + 1).drop_last() =~= s.take(i));
        assert(s.take(i + 1).last() == s[i]);
        lemma_all_digits_take(s, i);
        lemma_digits_value_nonneg(s.take(i));
        assert(is_ascii_digit(s[i]));
    }
}

/// Parses a signed decimal numeral as an `i32`.  It accepts exactly the
/// numerals whose value fits, the same set of strings that Rust's own
/// `i32` parsing accepts, and returns their value.
pub fn parse_i32(s: &str) -> (r: Option<i32>)
    ensures
        r matches Some(v) ==> is_i32_numeral(s@) && v == numeral_value(s@),
        r is None ==> !is_i32_numeral(s@),
{
    let n: usize = s.unicode_len();
    let mut start: usize = 0;
    let mut neg: bool = false;
    if n > 0 {
        let c0 = s.get_char(0);
        if c0 == '-' {
            neg = true;
            start = 1;
        } else if c0 == '+' {
            start = 1;
        }
    }
    if start >= n {
        proof {
            assert(digits_part(s@).len() == 0);
        }
        return None;
    }
    let ghost dp = digits_part(s@);
    proof {
        assert(dp =~= s@.subrange(start as int, n as int));
    }
    let limit: u64 = if neg {
        2147483648
    } else {
        2147483647
    };
    let mut acc: u64 = 0;
    let mut i: usize = start;
    while i < n
        invariant
            start <= i <= n,
            start <= 1,
            n == s@.len(),
            dp == digits_part(s@),
            dp == s@.subrange(start as int, n as int),
            neg == is_negative(s@),
            limit == (if neg { 2147483648u64 } else { 2147483647u64 }),
            all_digits(s@.subrange(start as int, i as int)),
            acc == digits_value(s@.subrange(start as int, i as int)),
            acc <= limit,
        decreases n - i,
    {
        let c = s.get_char(i);
        let u: u32 = c as u32;
        if u < 48 || u > 57 {
            proof {
                assert(dp[i - start] == s@[i as int]);
                assert(!is_ascii_digit(dp[i - start]));
            }
            return None;
        }
        let d: u64 = (u - 48) as u64;
        let acc2: u64 = acc * 10 + d;
        let ghost pre = s@.subrange(start as int, i + 1);
        proof {
            assert(pre.drop_last() =~= s@.subrange(start as int, i as int));
            assert(pre.last() == s@[i as int]);
            assert(digits_value(pre) == acc2);
            assert forall|j: int| 0 <= j < pre.len() implies is_ascii_digit(pre[j]) by {
                if j < i - start {
                    assert(pre[j] == s@.subrange(start as int, i as int)[j]);
                } else {
                    assert(pre[j] == s@[i as int]);
                }
            }
        }
        if acc2 > limit {
            proof {
                if all_digits(dp) {
                    assert(pre =~= dp.take(i + 1 - start));
                    lemma_digits_value_prefix(dp, i + 1 - start);
                    assert(digits_value(dp) >= acc2);
                }
            }
            return None;
        }
        acc = acc2;
        i = i + 1;
    }
    proof {
        assert(s@.subrange(start as int, i as int) == dp);
        assert(is_i32_numeral(s@));
    }
    if neg {
        if acc == 2147483648 {
            Some(i32::MIN)
        } else {
            Some(0 - (acc as i32))
        }
    } else {
        Some(acc as i32)
    }
}

} // verus!
