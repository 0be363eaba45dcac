//! Decimal text for integers: rendering numbers the way `Display` does,
//! and reading unsigned numbers the way `str::parse` does.
use vstd::prelude::*;

verus! {

/// The ASCII character of the decimal digit `d`.
pub open spec fn digit_char(d: nat) -> char {
    ((48 + d) as u8) as char
}

/// Whether `c` is an ASCII decimal digit.
pub open spec fn is_digit(c: char) -> bool {
    '0' <= c && c <= '9'
}

/// The value of the ASCII decimal digit `c`.
pub open spec fn digit_value(c: char) -> nat {
    (c as u32 - 48) as nat
}

/// The decimal text of a natural number, without leading zeros.
pub open spec fn nat_text(n: nat) -> Seq<char>
    decreases n,
{
    if n < 10 {
        seq![digit_char(n)]
    } else {
        nat_text(n / 10).push(digit_char(n % 10))
    }
}

/// The decimal text of an integer: a `-` before the digits of a negative number.
pub open spec fn int_text(i: int) -> Seq<char> {
    if i < 0 {
        seq!['-'] + nat_text((-i) as nat)
    } else {
        nat_text(i as nat)
    }
}

/// The value of a sequence of decimal digits, most significant first.
pub open spec fn digits_value(s: Seq<char>) -> nat
    decreases s.len(),
{
    if s.len() == 0 {
        0
    } else {
        digits_value(s.drop_last()) * 10 + digit_value(s.last())
    }
}

/// Whether every character of `s` is an ASCII decimal digit.
pub open spec fn all_digits(s: Seq<char>) -> bool {
    forall|i: int| 0 <= i < s.len() ==> is_digit(#[trigger] s[i])
}

/// The digits that an unsigned number's text holds after an optional leading `+`.
pub open spec fn unsigned_digits(s: Seq<char>) -> Seq<char> {
    if s.len() > 0 && s[0] == '+' {
        s.drop_first()
    } else {
        s
    }
}

/// What `str::parse::<u16>` gives for `s`: an optional `+`, then at least one
/// ASCII digit and nothing else, with a value that fits in a `u16`.
pub open spec fn parse_u16_spec(s: Seq<char>) -> Option<u16> {
    let d = unsigned_digits(s);
    if d.len() > 0 && all_digits(d) && digits_value(d) <= u16::MAX {
        Some(digits_value(d) as u16)
    } else {
        None
    }
}

/// The one-character text of the digit `d`.
fn digit_str(d: u8) -> (s: &'static str)
    requires
        d < 10,
    ensures
        s@ == seq![digit_char(d as nat)],
{
    proof {
        reveal_strlit("0");
        reveal_strlit("1");
        reveal_strlit("2");
        reveal_strlit("3");
        reveal_strlit("4");
        reveal_strlit("5");
        reveal_strlit("6");
        reveal_strlit("7");
        reveal_strlit("8");
        reveal_strlit("9");
    }
    match d {
        0 => "0",
        1 => "1",
        2 => "2",
        3 => "3",
        4 => "4",
        5 => "5",
        6 => "6",
        7 => "7",
        8 => "8",
        _ => "9",
    }
}

proof fn lemma_nat_text_len(n: nat)
    ensures
        nat_text(n).len() >= 1,
    decreases n,
{
    if n >= 10 {
        lemma_nat_text_len(n / 10);
    }
}

/// Appends the decimal text of `n` to `out`.
pub fn push_u64(out: &mut String, n: u64)
    ensures
        final(out)@ == old(out)@ + nat_text(n as nat),
    decreases n,
{
    if n >= 10 {
        push_u64(out, n / 10);
        let d = digit_str((n % 10) as u8);
        out.append(d);
    } else {
        let d = digit_str(n as u8);
        out.append(d);
    }
}

/// The decimal text of `n`, as `n.to_string()` renders it.
pub fn u64_text(n: u64) -> (s: String)
    ensures
        s@ == nat_text(n as nat),
{
    let mut s = String::new();
    push_u64(&mut s, n);
    assert(s@ =~= nat_text(n as nat));
    s
}

/// Appends the decimal text of the signed `n` to `out`.
pub fn push_i64(out: &mut String, n: i64)
    ensures
        final(out)@ == old(out)@ + int_text(n as int),
{
    if n < 0 {
        proof {
            reveal_strlit("-");
        }
        out.append("-");
        let magnitude: u64 = if n == i64::MIN {
            9223372036854775808u64
        } else {
            (-n) as u64
        };
        push_u64(out, magnitude);
        assert(final(out)@ =~= old(out)@ + int_text(n as int));
    } else {
        push_u64(out, n as u64);
    }
}

/// The decimal text of the signed `n`, as `n.to_string()` renders it.
pub fn i64_text(n: i64) -> (s: String)
    ensures
        s@ == int_text(n as int),
{
    let mut s = String::new();
    push_i64(&mut s, n);
    assert(s@ =~= int_text(n as int));
    s
}

/// Reads an unsigned 16-bit number as `str::parse::<u16>` does.
pub fn parse_u16(s: &str) -> (r: Option<u16>)
    ensures
        r == parse_u16_spec(s@),
{
    let len = s.unicode_len();
    let mut start: usize = 0;
    if len > 0 && s.get_char(0) == '+' {
        start = 1;
    }
    let ghost d = unsigned_digits(s@);
    assert(d =~= s@.subrange(start as int, len as int));
    if start == len {
        return None;
    }
    let mut value: u32 = 0;
    let mut i: usize = start;
    while i < len
        invariant
            start <= i <= len,
            len == s@.len(),
            d == s@.subrange(start as int, len as int),
            d == unsigned_digits(s@),
            all_digits(d.subrange(0, i - start)),
            value as nat == digits_value(d.subrange(0, i - start)),
            value <= u16::MAX,
        decreases len - i,
    {
        let c = s.get_char(i);
        let ghost prefix = d.subrange(0, i - start);
        let ghost next = d.subrange(0, i + 1 - start);
        assert(next.drop_last() =~= prefix);
        assert(next.last() == c);
        if !('0' <= c && c <= '9') {
            assert(!all_digits(d)) by {
                assert(d[i - start] == c);
                assert(!is_digit(d[i - start]));
            }
            return None;
        }
        let digit = (c as u32) - 48;
        let candidate = value * 10 + digit;
        if candidate > 65535 {
            proof {
                lemma_digits_value_prefix_monotone(d, (i + 1 - start) as int);
            }
            proof {
                if all_digits(d) {
                    assert(digits_value(d) > u16::MAX);
                }
            }
            return None;
        }
        value = candidate;
        i = i + 1;
        assert(all_digits(next));
    }
    assert(d.subrange(0, len - start) =~= d);
    Some(value as u16)
}

/// What `str::parse::<u32>` gives for `s`: an optional `+`, then at least one
/// ASCII digit and nothing else, with a value that fits in a `u32`.
pub open spec fn parse_u32_spec(s: Seq<char>) -> Option<u32> {
    let d = unsigned_digits(s);
    if d.len() > 0 && all_digits(d) && digits_value(d) <= u32::MAX {
        Some(digits_value(d) as u32)
    } else {
        None
    }
}

/// Reads an unsigned 32-bit number as `str::parse::<u32>` does.
pub fn parse_u32(s: &str) -> (r: Option<u32>)
    ensures
        r == parse_u32_spec(s@),
{
    let len = s.unicode_len();
    let mut start: usize = 0;
    if len > 0 && s.get_char(0) == '+' {
        start = 1;
    }
    let ghost d = unsigned_digits(s@);
    assert(d =~= s@.subrange(start as int, len as int));
    if start == len {
        return None;
    }
    let mut value: u64 = 0;
    let mut i: usize = start;
    while i < len
        invariant
            start <= i <= len,
            len == s@.len(),
            d == s@.subrange(start as int, len as int),
            d == unsigned_digits(s@),
            all_digits(d.subrange(0, i - start)),
            value as nat == digits_value(d.subrange(0, i - start)),
            value <= u32::MAX,
        decreases len - i,
    {
        let c = s.get_char(i);
        let ghost prefix = d.subrange(0, i - start);
        let ghost next = d.subrange(0, i + 1 - start);
        assert(next.drop_last() =~= prefix);
        assert(next.last() == c);
        if !('0' <= c && c <= '9') {
            assert(!all_digits(d)) by {
                assert(d[i - start] == c);
                assert(!is_digit(d[i - start]));
            }
            return None;
        }
        let digit = (c as u64) - 48;
        let candidate = value * 10 + digit;
        if candidate > 4294967295 {
            proof {
                lemma_digits_value_prefix_monotone(d, (i + 1 - start) as int);
            }
            proof {
                if all_digits(d) {
                    assert(digits_value(d) > u32::MAX);
                }
            }
            return None;
        }
        value = candidate;
        i = i + 1;
        assert(all_digits(next));
    }
    assert(d.subrange(0, len - start) =~= d);
    Some(value as u32)
}

/// A value of a digit prefix never exceeds the value of the whole digit string.
proof fn lemma_digits_value_prefix_monotone(d: Seq<char>, k: int)
    requires
        0 <= k <= d.len(),
    ensures
        all_digits(d) ==> digits_value(d.subrange(0, k)) <= digits_value(d),
    decreases d.len() - k,
{
    if k < d.len() && all_digits(d) {
        lemma_digits_value_prefix_monotone(d, k + 1);
        let p = d.subrange(0, k + 1);
        assert(p.drop_last() =~= d.subrange(0, k));
    } else if k == d.len() {
        assert(d.subrange(0, k) =~= d);
    }
}

} // verus!
