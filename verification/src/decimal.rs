use vstd::prelude::*;

verus! {

/// `c` is one of the ASCII digits `0` to `9`.
pub open spec fn is_digit(c: char) -> bool {
    '0' <= c && c <= '9'
}

/// The value of an ASCII digit.
pub open spec fn digit_value(c: char) -> int {
    c as int - '0' as int
}

/// The ASCII digit of a value below ten.
pub open spec fn digit_char(d: int) -> char {
    (d + '0' as int) as char
}

pub open spec fn all_digits(s: Seq<char>) -> bool {
    forall|i: int| 0 <= i < s.len() ==> #[trigger] is_digit(s[i])
}

/// The value of a string of decimal digits (leading zeros allowed).
pub open spec fn digits_value(s: Seq<char>) -> nat
    decreases s.len(),
{
    if s.len() == 0 {
        0
    } else {
        (digits_value(s.drop_last()) * 10 + digit_value(s.last())) as nat
    }
}

/// The shortest decimal spelling of `n`.
pub open spec fn decimal(n: nat) -> Seq<char>
    decreases n,
{
    if n < 10 {
        seq![digit_char(n as int)]
    } else {
        decimal(n / 10).push(digit_char((n % 10) as int))
    }
}

/// The decimal spelling of an integer, with a leading `-` when negative.
pub open spec fn signed_decimal(v: int) -> Seq<char> {
    if v < 0 {
        seq!['-'] + decimal((-v) as nat)
    } else {
        decimal(v as nat)
    }
}

/// What the standard library's `FromStr` for a primitive integer type reads
/// from `s`, before the range check: an optional `+` (or `-` where the type
/// is signed) followed by one or more ASCII digits.
pub open spec fn integer_text(s: Seq<char>, signed: bool) -> Option<int> {
    if s.len() == 0 {
        None
    } else {
        let neg = signed && s[0] == '-';
        let d = if s[0] == '+' || neg {
            s.drop_first()
        } else {
            s
        };
        if d.len() > 0 && all_digits(d) {
            Some(
                if neg {
                    -digits_value(d)
                } else {
                    digits_value(d) as int
                },
            )
        } else {
            None
        }
    }
}

/// `u64::from_str`.
pub open spec fn spec_parse_u64(s: Seq<char>) -> Option<u64> {
    match integer_text(s, false) {
        Some(v) => if v <= u64::MAX {
            Some(v as u64)
        } else {
            None
        },
        None => None,
    }
}

/// `usize::from_str`.
pub open spec fn spec_parse_usize(s: Seq<char>) -> Option<usize> {
    match integer_text(s, false) {
        Some(v) => if v <= usize::MAX {
            Some(v as usize)
        } else {
            None
        },
        None => None,
    }
}

/// `i32::from_str`.
pub open spec fn spec_parse_i32(s: Seq<char>) -> Option<i32> {
    match integer_text(s, true) {
        Some(v) => if i32::MIN <= v <= i32::MAX {
            Some(v as i32)
        } else {
            None
        },
        None => None,
    }
}

proof fn lemma_digits_value_monotone(s: Seq<char>, i: int, j: int)
    requires
        0 <= i <= j <= s.len(),
        all_digits(s.take(j)),
    ensures
        digits_value(s.take(i)) <= digits_value(s.take(j)),
    decreases j - i,
{
    if i < j {
        assert(s.take(j).drop_last() =~= s.take(j - 1));
        assert(is_digit(s.take(j)[j - 1]));
        lemma_digits_value_monotone(s, i, j - 1);
    }
}

/// The digits of `d` as a `u64`, or `None` when `d` is empty, holds a
/// character other than an ASCII digit, or spells a value above `u64::MAX`.
fn parse_magnitude(d: &[char]) -> (r: Option<u64>)
    ensures
        r == (if d@.len() > 0 && all_digits(d@) && digits_value(d@) <= u64::MAX {
            Some(digits_value(d@) as u64)
        } else {
            None::<u64>
        }),
{
    if d.len() == 0 {
        return None;
    }
    let mut acc: u64 = 0;
    let mut i: usize = 0;
    assert(d@.take(0) =~= Seq::<char>::empty());
    while i < d.len()
        invariant
            i <= d@.len(),
            all_digits(d@.take(i as int)),
            acc == digits_value(d@.take(i as int)),
        decreases d@.len() - i,
    {
        let c = d[i];
        if !('0' <= c && c <= '9') {
            assert(!is_digit(d@[i as int]));
            return None;
        }
        let dig: u64 = (c as u32 - '0' as u32) as u64;
        assert(d@.take(i + 1).drop_last() =~= d@.take(i as int));
        assert(all_digits(d@.take(i + 1)));
        if acc > (u64::MAX - dig) / 10 {
            proof {
                assert(acc * 10 + dig > u64::MAX) by (nonlinear_arith)
                    requires
                        acc > (u64::MAX - dig) / 10,
                        dig <= 9,
                ;
                if all_digits(d@) {
                    assert(d@.take(d@.len() as int) =~= d@);
                    lemma_digits_value_monotone(d@, i + 1, d@.len() as int);
                }
            }
            return None;
        }
        assert(acc * 10 + dig <= u64::MAX) by (nonlinear_arith)
            requires
                acc <= (u64::MAX - dig) / 10,
                dig <= 9,
        ;
        acc = acc * 10 + dig;
        i = i + 1;
    }
    assert(d@.take(d@.len() as int) =~= d@);
    Some(acc)
}

/// Skips the sign that `FromStr` accepts in front of the digits: returns
/// whether the text is negative and where the digits start.
fn sign_prefix(s: &[char], signed: bool) -> (r: (bool, usize))
    requires
        s@.len() > 0,
    ensures
        r.0 == (signed && s@[0] == '-'),
        r.1 == (if s@[0] == '+' || r.0 {
            1usize
        } else {
            0usize
        }),
{
    let neg = signed && s[0] == '-';
    if s[0] == '+' || neg {
        (neg, 1)
    } else {
        (neg, 0)
    }
}

/// Parses `s` as `u64::from_str` does.
pub fn parse_u64(s: &[char]) -> (r: Option<u64>)
    ensures
        r == spec_parse_u64(s@),
{
    if s.len() == 0 {
        return None;
    }
    let (_neg, start) = sign_prefix(s, false);
    let d = &s[start..s.len()];
    assert(d@ =~= (if start == 1 { s@.drop_first() } else { s@ }));
    parse_magnitude(d)
}

/// Parses `s` as `usize::from_str` does.
pub fn parse_usize(s: &[char]) -> (r: Option<usize>)
    ensures
        r == spec_parse_usize(s@),
{
    match parse_u64(s) {
        Some(v) => if v <= usize::MAX as u64 {
            Some(v as usize)
        } else {
            None
        },
        None => None,
    }
}

/// Parses `s` as `i32::from_str` does.
pub fn parse_i32(s: &[char]) -> (r: Option<i32>)
    ensures
        r == spec_parse_i32(s@),
{
    if s.len() == 0 {
        return None;
    }
    let (neg, start) = sign_prefix(s, true);
    let d = &s[start..s.len()];
    assert(d@ =~= (if start == 1 { s@.drop_first() } else { s@ }));
    match parse_magnitude(d) {
        Some(m) => {
            if neg {
                if m <= 0x8000_0000 {
                    Some((0 - (m as i64)) as i32)
                } else {
                    None
                }
            } else if m <= 0x7fff_ffff {
                Some(m as i32)
            } else {
                None
            }
        },
        None => None,
    }
}

/// The one-character string of a decimal digit.
fn digit_str(d: u64) -> (r: &'static str)
    requires
        d < 10,
    ensures
        r@ == seq![digit_char(d as int)],
{
    match d {
        0 => {
            proof {
                reveal_strlit("0");
            }
            "0"
        },
        1 => {
            proof {
                reveal_strlit("1");
            }
            "1"
        },
        2 => {
            proof {
                reveal_strlit("2");
            }
            "2"
        },
        3 => {
            proof {
                reveal_strlit("3");
            }
            "3"
        },
        4 => {
            proof {
                reveal_strlit("4");
            }
            "4"
        },
        5 => {
            proof {
                reveal_strlit("5");
            }
            "5"
        },
        6 => {
            proof {
                reveal_strlit("6");
            }
            "6"
        },
        7 => {
            proof {
                reveal_strlit("7");
            }
            "7"
        },
        8 => {
            proof {
                reveal_strlit("8");
            }
            "8"
        },
        _ => {
            proof {
                reveal_strlit("9");
            }
            "9"
        },
    }
}

/// Appends the decimal spelling of `n` to `out`.
pub fn push_u64(out: &mut String, n: u64)
    ensures
        final(out)@ == old(out)@ + decimal(n as nat),
    decreases n,
{
    if n >= 10 {
        push_u64(out, n / 10);
    }
    out.append(digit_str(n % 10));
    assert(final(out)@ =~= old(out)@ + decimal(n as nat));
}

/// Appends the decimal spelling of `v` to `out`, as `Display` writes it.
pub fn push_i32(out: &mut String, v: i32)
    ensures
        final(out)@ == old(out)@ + signed_decimal(v as int),
{
    if v < 0 {
        proof {
            reveal_strlit("-");
        }
        out.append("-");
        let m: u64 = (0 - (v as i64)) as u64;
        push_u64(out, m);
    } else {
        push_u64(out, v as u64);
    }
    assert(final(out)@ =~= old(out)@ + signed_decimal(v as int));
}

/// `n.to_string()` for a `u64`.
pub fn u64_to_string(n: u64) -> (r: String)
    ensures
        r@ == decimal(n as nat),
{
    let mut out = String::new();
    push_u64(&mut out, n);
    assert(out@ =~= decimal(n as nat));
    out
}

/// `v.to_string()` for an `i32`.
pub fn i32_to_string(v: i32) -> (r: String)
    ensures
        r@ == signed_decimal(v as int),
{
    let mut out = String::new();
    push_i32(&mut out, v);
    assert(out@ =~= signed_decimal(v as int));
    out
}

/// The decimal spelling of `n` is a nonempty string of digits whose value is `n`.
pub proof fn lemma_decimal_digits(n: nat)
    ensures
        decimal(n).len() > 0,
        all_digits(decimal(n)),
        digits_value(decimal(n)) == n,
    decreases n,
{
    let d = (n % 10) as int;
    assert(digit_char(d) as int == d + '0' as int);
    assert(digits_value(seq![digit_char(d)]) == d) by {
        assert(seq![digit_char(d)].drop_last() =~= Seq::<char>::empty());
        assert(digits_value(Seq::<char>::empty()) == 0);
        assert(seq![digit_char(d)].last() == digit_char(d));
    }
    if n >= 10 {
        lemma_decimal_digits(n / 10);
        let t = decimal(n / 10);
        let s = decimal(n);
        assert(s.drop_last() =~= t);
        assert forall|i: int| 0 <= i < s.len() implies #[trigger] is_digit(s[i]) by {
            if i < t.len() {
                assert(s[i] == t[i]);
            }
        }
    }
}

/// A character other than a digit does not occur in a decimal spelling, and
/// only `-` besides the digits occurs in a signed one.
pub proof fn lemma_decimal_excludes(v: int, c: char)
    requires
        !is_digit(c),
        c != '-',
    ensures
        v >= 0 ==> !decimal(v as nat).contains(c),
        !signed_decimal(v).contains(c),
{
    let m: nat = if v < 0 { (-v) as nat } else { v as nat };
    lemma_decimal_digits(m);
    let d = decimal(m);
    assert(!d.contains(c)) by {
        if d.contains(c) {
            let k = choose|k: int| 0 <= k < d.len() && d[k] == c;
            assert(is_digit(d[k]));
        }
    }
    let s = signed_decimal(v);
    assert(!s.contains(c)) by {
        if s.contains(c) {
            let k = choose|k: int| 0 <= k < s.len() && s[k] == c;
            if v < 0 {
                assert(k > 0);
                assert(s[k] == d[k - 1]);
            } else {
                assert(s[k] == d[k]);
            }
        }
    }
}

/// Reading back the spelling that `u64_to_string` writes gives the number:
/// `u64::from_str(&n.to_string()) == Ok(n)`.
pub proof fn law_parse_u64_of_decimal(n: u64)
    ensures
        spec_parse_u64(decimal(n as nat)) == Some(n),
{
    lemma_decimal_digits(n as nat);
    assert(is_digit(decimal(n as nat)[0]));
}

/// `usize::from_str(&n.to_string()) == Ok(n)`.
pub proof fn law_parse_usize_of_decimal(n: usize)
    ensures
        spec_parse_usize(decimal(n as nat)) == Some(n),
{
    lemma_decimal_digits(n as nat);
    assert(is_digit(decimal(n as nat)[0]));
}

/// Reading back the spelling that `i32_to_string` writes gives the number:
/// `i32::from_str(&v.to_string()) == Ok(v)`.
pub proof fn law_parse_i32_of_signed_decimal(v: i32)
    ensures
        spec_parse_i32(signed_decimal(v as int)) == Some(v),
{
    let m: nat = if v < 0 { (-v) as nat } else { v as nat };
    lemma_decimal_digits(m);
    let s = signed_decimal(v as int);
    assert(is_digit(decimal(m)[0]));
    if v < 0 {
        assert(s.drop_first() =~= decimal(m));
    }
}

} // verus!
