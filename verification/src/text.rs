//! Text helpers: character classes, the two name transforms (kebab-case for
//! flags and file keys, upper-case for environment keys), and the scalar
//! parsers that turn a source's raw text into a typed value.
use vstd::prelude::*;
use crate::scalar::{Scalar, ScalarType, ScalarV};

verus! {

pub open spec fn is_lower(c: char) -> bool {
    97 <= c as int <= 122
}

pub open spec fn is_digit(c: char) -> bool {
    48 <= c as int <= 57
}

pub open spec fn is_ident_char(c: char) -> bool {
    is_lower(c) || is_digit(c) || c == '_'
}

pub open spec fn digit_of(c: char) -> int {
    c as int - 48
}

/// A valid field name: a lower-case letter followed by lower-case letters,
/// digits and underscores.
pub open spec fn valid_name(s: Seq<char>) -> bool {
    &&& s.len() >= 1
    &&& is_lower(s[0])
    &&& forall|i: int| 0 <= i < s.len() ==> is_ident_char(#[trigger] s[i])
}

/// The kebab-case image of one name character.
pub open spec fn kebab_char(c: char) -> char {
    if c == '_' {
        '-'
    } else {
        c
    }
}

/// The kebab-case form of a field name: underscores become hyphens.
pub open spec fn kebab_of(s: Seq<char>) -> Seq<char> {
    s.map_values(|c: char| kebab_char(c))
}

/// `k` is the upper-case image of name character `c`.
pub open spec fn upper_matches_char(k: char, c: char) -> bool {
    if is_lower(c) {
        k as int == c as int - 32
    } else {
        k == c
    }
}

/// `k` is the field name `s` upper-cased, character for character.
pub open spec fn upper_matches(k: Seq<char>, s: Seq<char>) -> bool {
    &&& k.len() == s.len()
    &&& forall|i: int| 0 <= i < s.len() ==> upper_matches_char(#[trigger] k[i], s[i])
}

/// Character-for-character string equality.
pub fn str_eq(a: &str, b: &str) -> (r: bool)
    ensures
        r == (a@ == b@),
{
    let alen = a.unicode_len();
    let blen = b.unicode_len();
    if alen != blen {
        return false;
    }
    let mut i: usize = 0;
    while i < alen
        invariant
            0 <= i <= alen,
            alen == a@.len(),
            alen == b@.len(),
            forall|j: int| 0 <= j < i ==> a@[j] == b@[j],
        decreases alen - i,
    {
        if a.get_char(i) != b.get_char(i) {
            return false;
        }
        i += 1;
    }
    proof {
        assert(a@ =~= b@);
    }
    true
}

/// Whether the field name is a valid identifier.
pub fn is_valid_name(s: &str) -> (r: bool)
    ensures
        r == valid_name(s@),
{
    let n = s.unicode_len();
    if n == 0 {
        return false;
    }
    let c0 = s.get_char(0) as u32;
    if !(97 <= c0 && c0 <= 122) {
        return false;
    }
    let mut i: usize = 0;
    while i < n
        invariant
            0 <= i <= n,
            n == s@.len(),
            forall|j: int| 0 <= j < i ==> is_ident_char(#[trigger] s@[j]),
        decreases n - i,
    {
        let c = s.get_char(i);
        let cu = c as u32;
        if !((97 <= cu && cu <= 122) || (48 <= cu && cu <= 57) || c == '_') {
            return false;
        }
        i += 1;
    }
    true
}

/// Whether `t` is the kebab-case form of the field name `name`.
pub fn is_kebab_of(t: &str, name: &str) -> (r: bool)
    ensures
        r == (t@ == kebab_of(name@)),
{
    let tlen = t.unicode_len();
    let nlen = name.unicode_len();
    if tlen != nlen {
        return false;
    }
    let mut i: usize = 0;
    while i < nlen
        invariant
            0 <= i <= nlen,
            tlen == t@.len(),
            nlen == name@.len(),
            tlen == nlen,
            forall|j: int| 0 <= j < i ==> t@[j] == kebab_char(#[trigger] name@[j]),
        decreases nlen - i,
    {
        let c = name.get_char(i);
        let k = if c == '_' {
            '-'
        } else {
            c
        };
        if t.get_char(i) != k {
            return false;
        }
        i += 1;
    }
    proof {
        assert(t@ =~= kebab_of(name@));
    }
    true
}

/// Whether `k` is the field name `name` upper-cased.
pub fn is_upper_of(k: &str, name: &str) -> (r: bool)
    ensures
        r == upper_matches(k@, name@),
{
    let klen = k.unicode_len();
    let nlen = name.unicode_len();
    if klen != nlen {
        return false;
    }
    let mut i: usize = 0;
    while i < nlen
        invariant
            0 <= i <= nlen,
            klen == k@.len(),
            nlen == name@.len(),
            klen == nlen,
            forall|j: int| 0 <= j < i ==> upper_matches_char(#[trigger] k@[j], name@[j]),
        decreases nlen - i,
    {
        let c = name.get_char(i);
        let kc = k.get_char(i);
        let cu = c as u32;
        let ok = if 97 <= cu && cu <= 122 {
            kc as u32 == cu - 32
        } else {
            kc == c
        };
        if !ok {
            return false;
        }
        i += 1;
    }
    true
}

/// The numeric value of a digit string, most significant digit first.
pub open spec fn digits_value(s: Seq<char>) -> int
    decreases s.len(),
{
    if s.len() == 0 {
        0
    } else {
        digits_value(s.drop_last()) * 10 + digit_of(s.last())
    }
}

pub open spec fn all_digits(s: Seq<char>) -> bool {
    forall|i: int| 0 <= i < s.len() ==> is_digit(#[trigger] s[i])
}

/// Decimal integer syntax: an optional sign followed by one or more digits,
/// rejected when the value does not fit a 64-bit signed integer.
pub open spec fn parse_int_v(s: Seq<char>) -> Option<int> {
    let signed = s.len() > 0 && (s[0] == '-' || s[0] == '+');
    let digits = if signed {
        s.skip(1)
    } else {
        s
    };
    let neg = s.len() > 0 && s[0] == '-';
    if digits.len() == 0 || !all_digits(digits) {
        None
    } else {
        let v = if neg {
            -digits_value(digits)
        } else {
            digits_value(digits)
        };
        if i64::MIN <= v <= i64::MAX {
            Some(v)
        } else {
            None
        }
    }
}

proof fn lemma_digits_value_nonneg(s: Seq<char>)
    requires
        all_digits(s),
    ensures
        digits_value(s) >= 0,
    decreases s.len(),
{
    if s.len() > 0 {
        assert(all_digits(s.drop_last()));
        lemma_digits_value_nonneg(s.drop_last());
    }
}

/// Reading one more digit never shrinks the value.
proof fn lemma_digits_prefix_le(s: Seq<char>, i: int)
    requires
        all_digits(s),
        0 <= i <= s.len(),
    ensures
        digits_value(s.subrange(0, i)) <= digits_value(s),
    decreases s.len() - i,
{
    if i == s.len() {
        assert(s.subrange(0, i) =~= s);
    } else {
        let p = s.subrange(0, i);
        let q = s.subrange(0, i + 1);
        assert(q.drop_last() =~= p);
        assert(all_digits(p));
        lemma_digits_value_nonneg(p);
        assert(digits_value(q) == digits_value(p) * 10 + digit_of(q.last()));
        lemma_digits_prefix_le(s, i + 1);
    }
}

/// Parse a decimal 64-bit integer, as the CLI and environment loaders need it.
#[verifier::loop_isolation(false)]
pub fn parse_i64(s: &str) -> (r: Option<i64>)
    ensures
        r matches Some(v) ==> parse_int_v(s@) == Some(v as int),
        r is None ==> parse_int_v(s@) is None,
{
    let n = s.unicode_len();
    if n == 0 {
        return None;
    }
    let c0 = s.get_char(0);
    let neg = c0 == '-';
    let signed = c0 == '-' || c0 == '+';
    let start: usize = if signed {
        1
    } else {
        0
    };
    let ghost digits: Seq<char> = if signed {
        s@.skip(1)
    } else {
        s@
    };
    proof {
        assert(digits =~= s@.subrange(start as int, n as int));
    }
    if start == n {
        return None;
    }
    let mut acc: u64 = 0;
    let mut i: usize = start;
    while i < n
        invariant
            start <= i <= n,
            n == s@.len(),
            start <= 1,
            digits =~= s@.subrange(start as int, n as int),
            all_digits(s@.subrange(start as int, i as int)),
            acc == digits_value(s@.subrange(start as int, i as int)),
            acc <= 9223372036854775808u64,
        decreases n - i,
    {
        let c = s.get_char(i);
        let cu = c as u32;
        proof {
            assert(c as int == cu as int);
        }
        if !(48 <= cu && cu <= 57) {
            proof {
                assert(digits[i - start] == s@[i as int]);
                assert(!is_digit(digits[i - start]));
                assert(!all_digits(digits));
            }
            return None;
        }
        let d = (cu - 48) as u64;
        let ghost prefix = s@.subrange(start as int, i as int);
        let ghost prefix1 = s@.subrange(start as int, i as int + 1);
        proof {
            assert(is_digit(s@[i as int]));
            assert(all_digits(prefix1)) by {
                assert(forall|j: int|
                    0 <= j < prefix1.len() - 1 ==> #[trigger] prefix1[j] == prefix[j]);
            }
            assert(prefix1.drop_last() =~= prefix);
            assert(prefix1.last() == s@[i as int]);
            assert(digit_of(s@[i as int]) == d);
            assert(digits_value(prefix1) == acc * 10 + d);
        }
        let next: u64 = match acc.checked_mul(10) {
            Option::Some(x) => match x.checked_add(d) {
                Option::Some(v) => v,
                Option::None => {
                    proof {
                        lemma_out_of_range(s@, start as int, i as int + 1, acc * 10 + d);
                        assert(s@.subrange(start as int, n as int) =~= digits);
                        assert(all_digits(digits) ==> digits_value(digits)
                            > 9223372036854775808);
                    }
                    return None;
                },
            },
            Option::None => {
                proof {
                    assert(acc * 10 + d > 9223372036854775808) by {
                        assert(acc * 10 > u64::MAX);
                    }
                    lemma_out_of_range(s@, start as int, i as int + 1, acc * 10 + d);
                    assert(s@.subrange(start as int, n as int) =~= digits);
                    assert(all_digits(digits) ==> digits_value(digits) > 9223372036854775808);
                }
                return None;
            },
        };
        if next > 9223372036854775808u64 {
            proof {
                lemma_out_of_range(s@, start as int, i as int + 1, next as int);
                assert(s@.subrange(start as int, n as int) =~= digits);
                assert(all_digits(digits) ==> digits_value(digits) > 9223372036854775808);
            }
            return None;
        }
        acc = next;
        i += 1;
    }
    proof {
        assert(s@.subrange(start as int, n as int) =~= digits);
        assert(acc == digits_value(digits));
        assert(all_digits(digits));
    }
    if neg {
        if acc == 9223372036854775808u64 {
            Some(i64::MIN)
        } else {
            Some(-(acc as i64))
        }
    } else {
        if acc > i64::MAX as u64 {
            proof {
                assert(digits_value(digits) > i64::MAX);
            }
            None
        } else {
            Some(acc as i64)
        }
    }
}

/// When a digit prefix already exceeds the signed 64-bit magnitude bound, the
/// whole digit string is out of range for either sign.
proof fn lemma_out_of_range(s: Seq<char>, start: int, i: int, prefix_value: int)
    requires
        0 <= start <= i <= s.len(),
        all_digits(s.subrange(start, i)),
        digits_value(s.subrange(start, i)) == prefix_value,
        prefix_value > 9223372036854775808,
    ensures
        forall|j: int|
            i <= j <= s.len() && all_digits(s.subrange(start, j)) ==> digits_value(
                s.subrange(start, j),
            ) > 9223372036854775808,
{
    assert forall|j: int|
        i <= j <= s.len() && all_digits(s.subrange(start, j)) implies digits_value(
        s.subrange(start, j),
    ) > 9223372036854775808 by {
        let w = s.subrange(start, j);
        assert(w.subrange(0, i - start) =~= s.subrange(start, i));
        lemma_digits_prefix_le(w, i - start);
    }
}

/// Boolean syntax accepted by the loaders.
pub open spec fn parse_bool_v(s: Seq<char>) -> Option<bool> {
    if s == "true"@ {
        Some(true)
    } else if s == "false"@ {
        Some(false)
    } else {
        None
    }
}

/// Parse a boolean, as the CLI and environment loaders need it.
pub fn parse_bool(s: &str) -> (r: Option<bool>)
    ensures
        r matches Some(v) ==> parse_bool_v(s@) == Some(v),
        r is None ==> parse_bool_v(s@) is None,
{
    if str_eq(s, "true") {
        Some(true)
    } else if str_eq(s, "false") {
        Some(false)
    } else {
        None
    }
}

/// What raw source text denotes at a given field type: strings are taken as
/// they stand, integers and booleans must parse.
pub open spec fn parse_scalar_v(t: ScalarType, s: Seq<char>) -> Option<ScalarV> {
    match t {
        ScalarType::Str => Some(ScalarV::Str(s)),
        ScalarType::Int => match parse_int_v(s) {
            Some(i) => Some(ScalarV::Int(i)),
            None => None,
        },
        ScalarType::Bool => match parse_bool_v(s) {
            Some(b) => Some(ScalarV::Bool(b)),
            None => None,
        },
    }
}

/// Parse raw source text at a field type.
pub fn parse_scalar(t: ScalarType, s: &str) -> (r: Option<Scalar>)
    ensures
        r.deep_view() == parse_scalar_v(t, s@),
{
    match t {
        ScalarType::Str => Some(Scalar::Str(s.to_owned())),
        ScalarType::Int => match parse_i64(s) {
            Option::Some(i) => Some(Scalar::Int(i)),
            Option::None => None,
        },
        ScalarType::Bool => match parse_bool(s) {
            Option::Some(b) => Some(Scalar::Bool(b)),
            Option::None => None,
        },
    }
}

} // verus!
