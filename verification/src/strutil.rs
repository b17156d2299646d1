//! Small executable helpers for working with strings as character
//! sequences.
use vstd::prelude::*;
use vstd::string::StrSliceExecFns;

verus! {

/// The views of a sequence of strings.
pub open spec fn strs_view(ss: Seq<String>) -> Seq<Seq<char>> {
    ss.map_values(|s: String| s@)
}

/// Relies on `String: FromIterator<&char>`: collecting an iterator of
/// characters yields the string of exactly those characters in order.
#[verifier::external_body]
pub(crate) fn chars_to_string(v: &Vec<char>) -> (s: String)
    ensures
        s@ == v@,
{
    v.iter().collect()
}

/// The characters of a string slice, as an owned vector.
pub fn str_to_chars(s: &str) -> (r: Vec<char>)
    ensures
        r@ == s@,
{
    let n = s.unicode_len();
    let mut r: Vec<char> = Vec::new();
    let mut i: usize = 0;
    while i < n
        invariant
            n == s@.len(),
            i <= n,
            r@ =~= s@.subrange(0, i as int),
        decreases n - i,
    {
        r.push(s.get_char(i));
        i += 1;
    }
    assert(r@ =~= s@);
    r
}

/// An ASCII decimal digit.
pub open spec fn is_digit_char(c: char) -> bool {
    ('0' as u32) <= (c as u32) && (c as u32) <= ('9' as u32)
}

/// Whether the text consists solely of ASCII digits (true of the empty
/// text as well).
pub open spec fn spec_all_digits(s: Seq<char>) -> bool {
    forall|i: int| 0 <= i < s.len() ==> is_digit_char(s[i])
}

/// Executable test for [`spec_all_digits`].
pub fn all_digits(v: &Vec<char>) -> (r: bool)
    ensures
        r == spec_all_digits(v@),
{
    let mut i: usize = 0;
    while i < v.len()
        invariant
            i <= v@.len(),
            forall|j: int| 0 <= j < i ==> is_digit_char(v@[j]),
        decreases v@.len() - i,
    {
        let c = v[i];
        if !(('0' as u32) <= (c as u32) && (c as u32) <= ('9' as u32)) {
            return false;
        }
        i += 1;
    }
    true
}

/// The numeric value of one decimal digit character.
pub open spec fn spec_digit_val(c: char) -> int {
    c as u32 - '0' as u32
}

/// The decimal digit character for a value below ten.
pub open spec fn spec_digit_char(d: nat) -> char {
    if d == 0 {
        '0'
    } else if d == 1 {
        '1'
    } else if d == 2 {
        '2'
    } else if d == 3 {
        '3'
    } else if d == 4 {
        '4'
    } else if d == 5 {
        '5'
    } else if d == 6 {
        '6'
    } else if d == 7 {
        '7'
    } else if d == 8 {
        '8'
    } else if d == 9 {
        '9'
    } else {
        arbitrary()
    }
}

/// The numeric value of all-digit text read most-significant first.
pub open spec fn spec_digits_val(s: Seq<char>) -> int
    decreases s.len(),
{
    if s.len() == 0 {
        0
    } else {
        spec_digits_val(s.drop_last()) * 10 + spec_digit_val(s.last())
    }
}

/// The decimal rendering of a number: no sign, no leading zeros (except
/// for zero itself).
pub open spec fn spec_dec(n: nat) -> Seq<char>
    decreases n,
{
    if n < 10 {
        seq![spec_digit_char(n)]
    } else {
        spec_dec(n / 10) + seq![spec_digit_char(n % 10)]
    }
}

/// The value of all-digit text is never negative.
proof fn lemma_digits_val_nonneg(s: Seq<char>)
    requires
        spec_all_digits(s),
    ensures
        spec_digits_val(s) >= 0,
    decreases s.len(),
{
    if s.len() > 0 {
        assert(spec_all_digits(s.drop_last()));
        lemma_digits_val_nonneg(s.drop_last());
        assert(spec_digit_val(s.last()) >= 0);
    }
}

/// Reading further digits never shrinks the value: the value of a
/// prefix of all-digit text bounds the value of the whole text.
proof fn lemma_digits_val_prefix_le(s: Seq<char>, k: int)
    requires
        spec_all_digits(s),
        0 <= k <= s.len(),
    ensures
        spec_digits_val(s.subrange(0, k)) <= spec_digits_val(s),
    decreases s.len() - k,
{
    if k == s.len() {
        assert(s.subrange(0, k) =~= s);
    } else {
        let p = s.subrange(0, k);
        let q = s.subrange(0, k + 1);
        assert(q.drop_last() =~= p);
        assert(spec_all_digits(p));
        lemma_digits_val_nonneg(p);
        assert(spec_digit_val(q.last()) >= 0);
        assert(spec_digits_val(q) == spec_digits_val(p) * 10 + spec_digit_val(q.last()));
        lemma_digits_val_prefix_le(s, k + 1);
    }
}

/// The decimal digit character for a value below ten, executably.
pub fn digit_char(d: u64) -> (r: char)
    requires
        d < 10,
    ensures
        r == spec_digit_char(d as nat),
{
    if d == 0 {
        '0'
    } else if d == 1 {
        '1'
    } else if d == 2 {
        '2'
    } else if d == 3 {
        '3'
    } else if d == 4 {
        '4'
    } else if d == 5 {
        '5'
    } else if d == 6 {
        '6'
    } else if d == 7 {
        '7'
    } else if d == 8 {
        '8'
    } else {
        '9'
    }
}

/// Renders a number in decimal.
pub fn dec_string(n: usize) -> (r: String)
    ensures
        r@ == spec_dec(n as nat),
{
    let mut digits: Vec<char> = Vec::new();
    let mut m: usize = n;
    if m == 0 {
        digits.push('0');
        proof {
            assert(digits@ =~= spec_dec(0));
        }
        return chars_to_string(&digits);
    }
    while m > 0
        invariant
            m > 0 ==> spec_dec(n as nat) == spec_dec(m as nat) + digits@,
            m == 0 ==> spec_dec(n as nat) == digits@,
        decreases m,
    {
        let d = m % 10;
        let ghost old_digits = digits@;
        digits.insert(0, digit_char(d as u64));
        proof {
            assert(digits@ =~= seq![spec_digit_char((m % 10) as nat)] + old_digits);
            if m >= 10 {
                assert(spec_dec(m as nat) == spec_dec((m / 10) as nat) + seq![
                    spec_digit_char((m % 10) as nat),
                ]);
            } else {
                assert(m % 10 == m as int);
                assert(spec_dec(m as nat) == seq![spec_digit_char((m % 10) as nat)]);
            }
        }
        m = m / 10;
    }
    chars_to_string(&digits)
}

/// The value an optionally signed run of digits denotes, before any
/// range check: an optional single `+` or `-`, then at least one digit
/// and nothing else; anything different denotes nothing.
pub open spec fn spec_parse_int_text(s: Seq<char>) -> Option<int> {
    let neg = s.len() > 0 && s[0] == '-';
    let digits = if s.len() > 0 && (s[0] == '-' || s[0] == '+') {
        s.drop_first()
    } else {
        s
    };
    if digits.len() == 0 || !spec_all_digits(digits) {
        None
    } else if neg {
        Some(-spec_digits_val(digits))
    } else {
        Some(spec_digits_val(digits))
    }
}

/// What parsing text as an `i32` yields: the denoted value when it is
/// in range, nothing otherwise.
pub open spec fn spec_parse_i32(s: Seq<char>) -> Option<int> {
    match spec_parse_int_text(s) {
        Some(v) => if i32::MIN <= v <= i32::MAX {
            Some(v)
        } else {
            None
        },
        None => None,
    }
}

/// What parsing text as a `usize` yields: the denoted value when it is
/// in range, nothing otherwise. A `-` sign is rejected outright, even
/// before a zero.
pub open spec fn spec_parse_usize(s: Seq<char>) -> Option<int> {
    if s.len() > 0 && s[0] == '-' {
        None
    } else {
        match spec_parse_int_text(s) {
            Some(v) => if v <= usize::MAX {
                Some(v)
            } else {
                None
            },
            None => None,
        }
    }
}

/// Parses decimal text as an `i32`, exactly as [`spec_parse_i32`]
/// describes: an optional sign, then at least one digit and nothing
/// else, in range.
pub fn parse_i32(s: &str) -> (r: Option<i32>)
    ensures
        match r {
            Some(v) => spec_parse_i32(s@) == Some(v as int),
            None => spec_parse_i32(s@) is None,
        },
{
    let n = s.unicode_len();
    let mut i: usize = 0;
    let mut neg = false;
    if n > 0 {
        let c0 = s.get_char(0);
        if c0 == '+' {
            i = 1;
        } else if c0 == '-' {
            neg = true;
            i = 1;
        }
    }
    proof {
        if i == 1 {
            assert(s@.drop_first() =~= s@.subrange(1, n as int));
        } else {
            assert(s@.subrange(0, n as int) =~= s@);
        }
    }
    if i >= n {
        return None;
    }
    let start = i;
    let ghost digits = s@.subrange(start as int, n as int);
    let mut acc: u64 = 0;
    while i < n
        invariant
            n == s@.len(),
            start <= i <= n,
            start <= 1,
            (start == 1) == (n > 0 && (s@[0] == '+' || s@[0] == '-')),
            neg == (n > 0 && s@[0] == '-'),
            digits == s@.subrange(start as int, n as int),
            spec_all_digits(s@.subrange(start as int, i as int)),
            acc == spec_digits_val(s@.subrange(start as int, i as int)),
            acc <= 0x8000_0000u64,
        decreases n - i,
    {
        proof {
            if start == 1 {
                assert(s@.drop_first() =~= s@.subrange(1, n as int));
            } else {
                assert(s@.subrange(0, n as int) =~= s@);
            }
        }
        let c = s.get_char(i);
        if !(('0' as u32) <= (c as u32) && (c as u32) <= ('9' as u32)) {
            proof {
                assert(digits[i - start] == c);
                assert(!spec_all_digits(digits));
            }
            return None;
        }
        let d = (c as u32 - '0' as u32) as u64;
        acc = acc * 10 + d;
        i += 1;
        proof {
            let p = s@.subrange(start as int, i as int);
            assert(p.drop_last() =~= s@.subrange(start as int, i - 1));
            assert(p.last() == c);
        }
        if acc > 0x8000_0000u64 {
            proof {
                if spec_all_digits(digits) {
                    assert(digits.subrange(0, i - start) =~= s@.subrange(
                        start as int,
                        i as int,
                    ));
                    lemma_digits_val_prefix_le(digits, i - start);
                }
            }
            return None;
        }
    }
    proof {
        assert(s@.subrange(start as int, i as int) =~= digits);
    }
    if neg {
        if acc == 0x8000_0000u64 {
            Some(i32::MIN)
        } else {
            Some(-(acc as i32))
        }
    } else {
        if acc >= 0x8000_0000u64 {
            None
        } else {
            Some(acc as i32)
        }
    }
}

/// Parses decimal text as a `usize`, exactly as [`spec_parse_usize`]
/// describes: an optional `+`, then at least one digit and nothing
/// else, in range.
pub fn parse_usize(s: &str) -> (r: Option<usize>)
    ensures
        match r {
            Some(v) => spec_parse_usize(s@) == Some(v as int),
            None => spec_parse_usize(s@) is None,
        },
{
    let n = s.unicode_len();
    let mut i: usize = 0;
    if n > 0 {
        let c0 = s.get_char(0);
        if c0 == '+' {
            i = 1;
        } else if c0 == '-' {
            return None;
        }
    }
    proof {
        if i == 1 {
            assert(s@.drop_first() =~= s@.subrange(1, n as int));
        } else {
            assert(s@.subrange(0, n as int) =~= s@);
        }
    }
    if i >= n {
        return None;
    }
    let start = i;
    let ghost digits = s@.subrange(start as int, n as int);
    let mut acc: u128 = 0;
    while i < n
        invariant
            n == s@.len(),
            start <= i <= n,
            start <= 1,
            (start == 1) == (n > 0 && (s@[0] == '+' || s@[0] == '-')),
            !(n > 0 && s@[0] == '-'),
            digits == s@.subrange(start as int, n as int),
            spec_all_digits(s@.subrange(start as int, i as int)),
            acc == spec_digits_val(s@.subrange(start as int, i as int)),
            acc <= usize::MAX as u128,
        decreases n - i,
    {
        proof {
            if start == 1 {
                assert(s@.drop_first() =~= s@.subrange(1, n as int));
            } else {
                assert(s@.subrange(0, n as int) =~= s@);
            }
        }
        let c = s.get_char(i);
        if !(('0' as u32) <= (c as u32) && (c as u32) <= ('9' as u32)) {
            proof {
                assert(digits[i - start] == c);
                assert(!spec_all_digits(digits));
            }
            return None;
        }
        let d = (c as u32 - '0' as u32) as u128;
        acc = acc * 10 + d;
        i += 1;
        proof {
            let p = s@.subrange(start as int, i as int);
            assert(p.drop_last() =~= s@.subrange(start as int, i - 1));
            assert(p.last() == c);
        }
        if acc > usize::MAX as u128 {
            proof {
                if spec_all_digits(digits) {
                    assert(digits.subrange(0, i - start) =~= s@.subrange(
                        start as int,
                        i as int,
                    ));
                    lemma_digits_val_prefix_le(digits, i - start);
                }
            }
            return None;
        }
    }
    proof {
        assert(s@.subrange(start as int, i as int) =~= digits);
    }
    Some(acc as usize)
}

/// Character-for-character string equality.
pub fn str_eq(a: &str, b: &str) -> (r: bool)
    ensures
        r == (a@ == b@),
{
    let na = a.unicode_len();
    let nb = b.unicode_len();
    if na != nb {
        return false;
    }
    let mut i: usize = 0;
    while i < na
        invariant
            na == a@.len(),
            na == b@.len(),
            i <= na,
            forall|j: int| 0 <= j < i ==> a@[j] == b@[j],
        decreases na - i,
    {
        if a.get_char(i) != b.get_char(i) {
            return false;
        }
        i += 1;
    }
    assert(a@ =~= b@);
    true
}

} // verus!
