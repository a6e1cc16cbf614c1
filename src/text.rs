//! Small text operations on identifiers, command lines and sysfs values.

use vstd::prelude::*;
use vstd::string::StrSliceExecFns;

verus! {

/// What `str::to_lowercase` makes of a string: Unicode lower-case mapping,
/// which depends on the characters alone.
pub uninterp spec fn lower_of(s: Seq<char>) -> Seq<char>;

/// Relies on `str::to_lowercase`: the lower-case form of `s`, a function of
/// its characters alone.
#[verifier::external_body]
pub(crate) fn lowercase(s: &str) -> (r: String)
    ensures
        r@ == lower_of(s@),
{
    s.to_lowercase()
}

/// `needle` occurs in `hay` as a contiguous run of characters.
pub open spec fn seq_contains(hay: Seq<char>, needle: Seq<char>) -> bool {
    exists|i: int|
        0 <= i && i + needle.len() <= hay.len() && #[trigger] hay.subrange(i, i + needle.len())
            == needle
}

/// Whether `needle` occurs in `hay` (an empty needle occurs everywhere).
pub fn contains_text(hay: &str, needle: &str) -> (r: bool)
    ensures
        r == seq_contains(hay@, needle@),
{
    let n = hay.unicode_len();
    let m = needle.unicode_len();
    if m > n {
        return false;
    }
    if m == 0 {
        assert(hay@.subrange(0, 0 + needle@.len() as int) =~= needle@);
        return true;
    }
    let mut i: usize = 0;
    while i <= n - m
        invariant
            n == hay@.len(),
            m == needle@.len(),
            0 < m <= n,
            i <= n - m + 1,
            forall|k: int| 0 <= k < i ==> #[trigger] hay@.subrange(k, k + m) != needle@,
        decreases n - m + 1 - i,
    {
        let mut j: usize = 0;
        let mut matched = true;
        while j < m
            invariant
                n == hay@.len(),
                m == needle@.len(),
                i + m <= n,
                j <= m,
                matched ==> forall|l: int| 0 <= l < j ==> hay@[i + l] == needle@[l],
                !matched ==> hay@.subrange(i as int, i + m) != needle@,
            decreases m - j,
        {
            if matched && hay.get_char(i + j) != needle.get_char(j) {
                assert(hay@.subrange(i as int, i + m)[j as int] == hay@[i + j]);
                matched = false;
            }
            j = j + 1;
        }
        if matched {
            assert(hay@.subrange(i as int, i + m) =~= needle@);
            return true;
        }
        i = i + 1;
    }
    false
}

/// Whether two strings hold the same characters.
pub fn text_equals(a: &str, b: &str) -> (r: bool)
    ensures
        r == (a@ == b@),
{
    let n = a.unicode_len();
    if n != b.unicode_len() {
        return false;
    }
    let mut i: usize = 0;
    while i < n
        invariant
            n == a@.len(),
            n == b@.len(),
            i <= n,
            forall|k: int| 0 <= k < i ==> a@[k] == b@[k],
        decreases n - i,
    {
        if a.get_char(i) != b.get_char(i) {
            return false;
        }
        i = i + 1;
    }
    assert(a@ =~= b@);
    true
}

pub open spec fn is_digit(c: char) -> bool {
    '0' <= c && c <= '9'
}

pub open spec fn digit_value(c: char) -> int {
    c as int - '0' as int
}

/// The number written by a run of decimal digits.
pub open spec fn decimal_value(digits: Seq<char>) -> int
    decreases digits.len(),
{
    if digits.len() == 0 {
        0
    } else {
        decimal_value(digits.drop_last()) * 10 + digit_value(digits.last())
    }
}

/// Length of the longest run of decimal digits that ends the string.
pub open spec fn trailing_digit_count(s: Seq<char>) -> nat
    decreases s.len(),
{
    if s.len() == 0 || !is_digit(s.last()) {
        0
    } else {
        trailing_digit_count(s.drop_last()) + 1
    }
}

/// The number written by the digits that end `s`, if there are any and it fits in a `u64`.
pub open spec fn trailing_number_spec(s: Seq<char>) -> Option<u64> {
    let k = trailing_digit_count(s);
    let v = decimal_value(s.subrange(s.len() - k, s.len() as int));
    if k == 0 || v > u64::MAX {
        None
    } else {
        Some(v as u64)
    }
}

proof fn lemma_trailing_count_bound(s: Seq<char>)
    ensures
        trailing_digit_count(s) <= s.len(),
        forall|i: int|
            s.len() - trailing_digit_count(s) <= i < s.len() ==> is_digit(#[trigger] s[i]),
        trailing_digit_count(s) < s.len() ==> !is_digit(s[s.len() - trailing_digit_count(s) - 1]),
    decreases s.len(),
{
    if s.len() > 0 && is_digit(s.last()) {
        lemma_trailing_count_bound(s.drop_last());
        assert forall|i: int|
            s.len() - trailing_digit_count(s) <= i < s.len() implies is_digit(#[trigger] s[i]) by {
            if i < s.len() - 1 {
                assert(s[i] == s.drop_last()[i]);
            }
        }
        if trailing_digit_count(s) < s.len() {
            assert(s[s.len() - trailing_digit_count(s) - 1] == s.drop_last()[s.len()
                - trailing_digit_count(s) - 1]);
        }
    }
}

/// Splitting the digits after position `i` extends the value by one digit.
proof fn lemma_decimal_step(s: Seq<char>, start: int, i: int)
    requires
        0 <= start <= i < s.len(),
    ensures
        decimal_value(s.subrange(start, i + 1)) == decimal_value(s.subrange(start, i)) * 10
            + digit_value(s[i]),
{
    assert(s.subrange(start, i + 1).drop_last() =~= s.subrange(start, i));
}

/// The number that the trailing decimal digits of `s` write ("fan12" gives 12),
/// or `None` when `s` does not end in a digit or the number exceeds `u64`.
pub fn trailing_number(s: &str) -> (r: Option<u64>)
    ensures
        r == trailing_number_spec(s@),
{
    let n = s.unicode_len();
    proof {
        lemma_trailing_count_bound(s@);
    }
    let mut start: usize = n;
    while start > 0 && is_ascii_digit(s.get_char(start - 1))
        invariant
            n == s@.len(),
            s@.len() - trailing_digit_count(s@) <= start <= n,
            trailing_digit_count(s@) <= s@.len(),
            forall|i: int| s@.len() - trailing_digit_count(s@) <= i < s@.len() ==> is_digit(#[trigger] s@[i]),
            trailing_digit_count(s@) < s@.len() ==> !is_digit(s@[s@.len() - trailing_digit_count(s@) - 1]),
        decreases start,
    {
        start = start - 1;
    }
    assert(start == s@.len() - trailing_digit_count(s@));
    if start == n {
        return None;
    }
    let mut value: u64 = 0;
    let mut i: usize = start;
    while i < n
        invariant
            n == s@.len(),
            start <= i <= n,
            start == s@.len() - trailing_digit_count(s@),
            forall|k: int| start <= k < n ==> is_digit(#[trigger] s@[k]),
            value as int == decimal_value(s@.subrange(start as int, i as int)),
        decreases n - i,
    {
        let c = s.get_char(i);
        proof {
            lemma_decimal_step(s@, start as int, i as int);
        }
        let d = (c as u32 - '0' as u32) as u64;
        if value > (u64::MAX - d) / 10 {
            proof {
                lemma_decimal_grows(s@, start as int, i as int + 1, n as int);
                assert(value * 10 + d > u64::MAX) by (nonlinear_arith)
                    requires
                        value > (u64::MAX - d) / 10,
                        d <= 9,
                ;
            }
            return None;
        }
        proof {
            assert(value * 10 + d <= u64::MAX) by (nonlinear_arith)
                requires
                    value <= (u64::MAX - d) / 10,
                    d <= 9,
            ;
        }
        value = value * 10 + d;
        i = i + 1;
    }
    assert(s@.subrange(start as int, n as int) == s@.subrange(
        s@.len() - trailing_digit_count(s@),
        s@.len() as int,
    ));
    Some(value)
}

/// Appending digits never makes the value smaller.
proof fn lemma_decimal_grows(s: Seq<char>, start: int, i: int, n: int)
    requires
        0 <= start <= i <= n <= s.len(),
        forall|k: int| start <= k < n ==> is_digit(#[trigger] s[k]),
    ensures
        decimal_value(s.subrange(start, i)) <= decimal_value(s.subrange(start, n)),
    decreases n - i,
{
    if i < n {
        lemma_decimal_grows(s, start, i + 1, n);
        lemma_decimal_step(s, start, i);
        lemma_decimal_nonneg(s.subrange(start, i));
    }
}

proof fn lemma_decimal_nonneg(digits: Seq<char>)
    requires
        forall|k: int| 0 <= k < digits.len() ==> is_digit(#[trigger] digits[k]),
    ensures
        decimal_value(digits) >= 0,
    decreases digits.len(),
{
    if digits.len() > 0 {
        assert forall|k: int| 0 <= k < digits.drop_last().len() implies is_digit(
            #[trigger] digits.drop_last()[k],
        ) by {
            assert(digits.drop_last()[k] == digits[k]);
        }
        lemma_decimal_nonneg(digits.drop_last());
    }
}

pub open spec fn is_space(c: char) -> bool {
    c == ' ' || c == '\t' || c == '\n' || c == '\r'
}

pub fn is_field_space(c: char) -> (r: bool)
    ensures
        r == is_space(c),
{
    c == ' ' || c == '\t' || c == '\n' || c == '\r'
}

/// Length of the run of non-space characters that starts `s`.
pub open spec fn token_len(s: Seq<char>) -> nat
    decreases s.len(),
{
    if s.len() == 0 || is_space(s[0]) {
        0
    } else {
        1 + token_len(s.drop_first())
    }
}

/// The whitespace-separated fields of `s`, in order.
pub open spec fn fields(s: Seq<char>) -> Seq<Seq<char>>
    decreases s.len(),
{
    if s.len() == 0 {
        seq![]
    } else if is_space(s[0]) {
        fields(s.drop_first())
    } else {
        let k = token_len(s);
        if k == 0 || k > s.len() {
            seq![]
        } else {
            seq![s.take(k as int)] + fields(s.skip(k as int))
        }
    }
}

/// A field read as a decimal number: only digits, at least one, fitting in a `u64`.
pub open spec fn parse_decimal_spec(f: Seq<char>) -> Option<u64> {
    if f.len() > 0 && (forall|i: int| 0 <= i < f.len() ==> is_digit(#[trigger] f[i]))
        && decimal_value(f) <= u64::MAX {
        Some(decimal_value(f) as u64)
    } else {
        None
    }
}

proof fn lemma_token_len(s: Seq<char>, e: int)
    requires
        0 <= e <= s.len(),
        forall|k: int| 0 <= k < e ==> !is_space(#[trigger] s[k]),
        e == s.len() || is_space(s[e]),
    ensures
        token_len(s) == e,
    decreases e,
{
    if e > 0 {
        let t = s.drop_first();
        assert forall|k: int| 0 <= k < e - 1 implies !is_space(#[trigger] t[k]) by {
            assert(t[k] == s[k + 1]);
        }
        if e < s.len() {
            assert(t[e - 1] == s[e]);
        }
        lemma_token_len(t, e - 1);
    }
}

/// The number written by `s[start..end]`, if it is a valid decimal field.
fn parse_decimal_range(s: &str, start: usize, end: usize) -> (r: Option<u64>)
    requires
        start <= end <= s@.len(),
    ensures
        r == parse_decimal_spec(s@.subrange(start as int, end as int)),
{
    let ghost f = s@.subrange(start as int, end as int);
    if start == end {
        return None;
    }
    let mut value: u64 = 0;
    let mut i: usize = start;
    while i < end
        invariant
            start < end <= s@.len(),
            f == s@.subrange(start as int, end as int),
            start <= i <= end,
            forall|k: int| start <= k < i ==> is_digit(#[trigger] s@[k]),
            value as int == decimal_value(s@.subrange(start as int, i as int)),
        decreases end - i,
    {
        let c = s.get_char(i);
        if !is_ascii_digit(c) {
            assert(!is_digit(f[i - start]));
            return None;
        }
        proof {
            lemma_decimal_step(s@, start as int, i as int);
        }
        let d = (c as u32 - '0' as u32) as u64;
        if value > (u64::MAX - d) / 10 {
            proof {
                assert(value * 10 + d > u64::MAX) by (nonlinear_arith)
                    requires
                        value > (u64::MAX - d) / 10,
                        d <= 9,
                ;
                if forall|k: int| 0 <= k < f.len() ==> is_digit(#[trigger] f[k]) {
                    assert forall|k: int| start <= k < end implies is_digit(#[trigger] s@[k]) by {
                        assert(s@[k] == f[k - start]);
                    }
                    lemma_decimal_grows(s@, start as int, i as int + 1, end as int);
                    assert(f =~= s@.subrange(start as int, end as int));
                }
            }
            return None;
        }
        proof {
            assert(value * 10 + d <= u64::MAX) by (nonlinear_arith)
                requires
                    value <= (u64::MAX - d) / 10,
                    d <= 9,
            ;
        }
        value = value * 10 + d;
        i = i + 1;
    }
    proof {
        assert forall|k: int| 0 <= k < f.len() implies is_digit(#[trigger] f[k]) by {
            assert(f[k] == s@[start + k]);
        }
    }
    Some(value)
}

/// Each whitespace-separated field of `s` read as a decimal number (`None`
/// for a field that is not one).
pub fn parse_number_fields(s: &str) -> (r: Vec<Option<u64>>)
    ensures
        r@ == fields(s@).map_values(|f: Seq<char>| parse_decimal_spec(f)),
{
    let n = s.unicode_len();
    let mut out: Vec<Option<u64>> = Vec::new();
    let mut pos: usize = 0;
    assert(s@.skip(0) =~= s@);
    while pos < n
        invariant
            n == s@.len(),
            pos <= n,
            fields(s@).map_values(|f: Seq<char>| parse_decimal_spec(f)) == out@ + fields(
                s@.skip(pos as int),
            ).map_values(|f: Seq<char>| parse_decimal_spec(f)),
        decreases n - pos,
    {
        let ghost rest = s@.skip(pos as int);
        if is_field_space(s.get_char(pos)) {
            assert(rest.drop_first() =~= s@.skip(pos + 1));
            pos = pos + 1;
        } else {
            let mut e: usize = pos + 1;
            while e < n && !is_field_space(s.get_char(e))
                invariant
                    n == s@.len(),
                    pos < e <= n,
                    forall|k: int| pos <= k < e ==> !is_space(#[trigger] s@[k]),
                decreases n - e,
            {
                e = e + 1;
            }
            let v = parse_decimal_range(s, pos, e);
            proof {
                assert forall|k: int| 0 <= k < e - pos implies !is_space(#[trigger] rest[k]) by {
                    assert(rest[k] == s@[pos + k]);
                }
                if e < n {
                    assert(rest[e - pos] == s@[e as int]);
                }
                lemma_token_len(rest, e - pos);
                assert(rest.len() == n - pos);
                assert(rest.take(e - pos) =~= s@.subrange(pos as int, e as int));
                assert(rest.skip(e - pos) =~= s@.skip(e as int));
                let g = |f: Seq<char>| parse_decimal_spec(f);
                assert(fields(rest) == seq![rest.take(e - pos)] + fields(rest.skip(e - pos)));
                assert(fields(rest).map_values(g) =~= seq![v] + fields(s@.skip(e as int)).map_values(g));
                assert(out@.push(v) + fields(s@.skip(e as int)).map_values(g) =~= out@ + (seq![v]
                    + fields(s@.skip(e as int)).map_values(g)));
            }
            out.push(v);
            pos = e;
        }
    }
    proof {
        assert(s@.skip(n as int) =~= Seq::<char>::empty());
        assert(fields(s@.skip(n as int)) =~= Seq::<Seq<char>>::empty());
        assert(out@ + fields(s@.skip(pos as int)).map_values(|f: Seq<char>| parse_decimal_spec(f))
            =~= out@);
    }
    out
}

pub fn is_ascii_digit(c: char) -> (r: bool)
    ensures
        r == is_digit(c),
{
    '0' <= c && c <= '9'
}

} // verus!
