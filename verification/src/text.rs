//! Texts: joining them, numerals in bases up to sixteen, and the `0x` prefix.
use vstd::prelude::*;

verus! {

/// The lower-case digit that stands for `d`.
pub open spec fn digit_char(d: nat) -> char {
    if d < 10 {
        (('0' as nat) + d) as char
    } else {
        (('a' as nat) + d - 10) as char
    }
}

/// The numeral of `n` in base `base`: lower-case digits, most significant first, no leading zero.
pub open spec fn numeral(n: nat, base: nat) -> Seq<char>
    decreases n,
{
    if base < 2 {
        Seq::empty()
    } else if n < base {
        seq![digit_char(n)]
    } else {
        proof {
            assert(n / base < n) by (nonlinear_arith)
                requires
                    n >= base,
                    base >= 2,
            ;
        }
        numeral(n / base, base).push(digit_char(n % base))
    }
}

/// The value of a hexadecimal digit of either case.
pub open spec fn hex_digit(c: char) -> Option<nat> {
    if '0' <= c <= '9' {
        Some((c as nat - '0' as nat) as nat)
    } else if 'a' <= c <= 'f' {
        Some((c as nat - 'a' as nat + 10) as nat)
    } else if 'A' <= c <= 'F' {
        Some((c as nat - 'A' as nat + 10) as nat)
    } else {
        None
    }
}

/// The value of a sequence of hexadecimal digits, most significant first; `None` where a character
/// is no such digit. The empty sequence has the value zero.
pub open spec fn hex_value(s: Seq<char>) -> Option<nat>
    decreases s.len(),
{
    if s.len() == 0 {
        Some(0)
    } else {
        match (hex_value(s.drop_last()), hex_digit(s.last())) {
            (Some(v), Some(d)) => Some(16 * v + d),
            _ => None,
        }
    }
}

/// What a text means as an unsigned hexadecimal number of 64 bits: an optional plus sign, then at
/// least one digit and nothing else, with a value that fits.
pub open spec fn hex_number(s: Seq<char>) -> Option<u64> {
    let digits = if s.len() > 0 && s[0] == '+' { s.skip(1) } else { s };
    match hex_value(digits) {
        Some(v) if digits.len() > 0 && v <= u64::MAX => Some(v as u64),
        _ => None,
    }
}

/// `s` without one leading `0x`, or `s` itself where it has none.
pub open spec fn without_0x(s: Seq<char>) -> Seq<char> {
    if s.len() >= 2 && s[0] == '0' && s[1] == 'x' {
        s.skip(2)
    } else {
        s
    }
}

/// The two texts one after the other.
pub fn join(a: &str, b: &str) -> (res: String)
    ensures
        res@ == a@ + b@,
{
    let mut res = a.to_string();
    res.append(b);
    res
}

/// The lower-case digit `d` as a text of one character.
fn digit_text(d: u64) -> (res: &'static str)
    requires
        d < 16,
    ensures
        res@ == seq![digit_char(d as nat)],
{
    proof {
        reveal_strlit("0");
        reveal_strlit("1");
        reveal_strlit("2");
        reveal_strlit("3");
        reveal_strlit("4");
        reveal_strlit("5");
        reveal_strlit("6");
        reveal_strlit("7");
        reveal_strlit("8");
        reveal_strlit("9");
        reveal_strlit("a");
        reveal_strlit("b");
        reveal_strlit("c");
        reveal_strlit("d");
        reveal_strlit("e");
        reveal_strlit("f");
    }
    match d {
        0 => "0",
        1 => "1",
        2 => "2",
        3 => "3",
        4 => "4",
        5 => "5",
        6 => "6",
        7 => "7",
        8 => "8",
        9 => "9",
        10 => "a",
        11 => "b",
        12 => "c",
        13 => "d",
        14 => "e",
        _ => "f",
    }
}

/// Writes `n` in base `base`.
pub fn numeral_text(n: u64, base: u64) -> (res: String)
    requires
        2 <= base <= 16,
    ensures
        res@ == numeral(n as nat, base as nat),
    decreases n,
{
    if n < base {
        digit_text(n).to_string()
    } else {
        proof {
            assert(n / base < n) by (nonlinear_arith)
                requires
                    n >= base,
                    base >= 2,
            ;
        }
        let mut res = numeral_text(n / base, base);
        res.append(digit_text(n % base));
        assert(res@ == numeral(n as nat, base as nat));
        res
    }
}

/// The value of one hexadecimal digit of either case.
fn hex_digit_of(c: char) -> (res: Option<u64>)
    ensures
        match res {
            Some(d) => hex_digit(c) == Some(d as nat) && d < 16,
            None => hex_digit(c) is None,
        },
{
    if '0' <= c && c <= '9' {
        Some(c as u64 - '0' as u64)
    } else if 'a' <= c && c <= 'f' {
        Some(c as u64 - 'a' as u64 + 10)
    } else if 'A' <= c && c <= 'F' {
        Some(c as u64 - 'A' as u64 + 10)
    } else {
        None
    }
}

/// `s` without one leading `0x`, or `s` itself where it has none.
pub fn strip_0x(s: &str) -> (res: &str)
    ensures
        res@ == without_0x(s@),
{
    let n: usize = s.unicode_len();
    if n >= 2 && s.get_char(0) == '0' && s.get_char(1) == 'x' {
        s.substring_char(2, n)
    } else {
        s
    }
}

/// A digit in a sequence without a value leaves the whole without one, and more digits never make
/// the value smaller.
proof fn lemma_hex_value_prefix(s: Seq<char>, i: int)
    requires
        0 <= i <= s.len(),
    ensures
        hex_value(s.take(i)) is None ==> hex_value(s) is None,
        hex_value(s) is Some ==> hex_value(s.take(i)) is Some && hex_value(s.take(i))->0
            <= hex_value(s)->0,
    decreases s.len() - i,
{
    if i < s.len() {
        lemma_hex_value_prefix(s, i + 1);
        assert(s.take(i + 1).drop_last() =~= s.take(i));
    } else {
        assert(s.take(i) =~= s);
    }
}

/// Reads an unsigned hexadecimal number of 64 bits.
pub fn parse_hex_u64(s: &str) -> (res: Option<u64>)
    ensures
        res == hex_number(s@),
{
    let n: usize = s.unicode_len();
    let start: usize = if n > 0 && s.get_char(0) == '+' {
        1
    } else {
        0
    };
    let body = s.substring_char(start, n);
    let ghost digits = body@;
    proof {
        assert(digits =~= if s@.len() > 0 && s@[0] == '+' {
            s@.skip(1)
        } else {
            s@
        });
    }
    if start == n {
        return None;
    }
    let mut value: u64 = 0;
    for c in it: body.chars()
        invariant
            digits == body@,
            it.seq() == digits,
            hex_value(digits.take(it.index() as int)) == Some(value as nat),
            digits.len() > 0,
            hex_number(s@) == match hex_value(digits) {
                Some(v) if v <= u64::MAX => Some(v as u64),
                _ => None,
            },
    {
        let ghost i = it.index() as int;
        proof {
            assert(digits.take(i + 1).drop_last() =~= digits.take(i));
            assert(digits.take(i + 1).last() == c);
            lemma_hex_value_prefix(digits, i + 1);
        }
        match hex_digit_of(c) {
            None => {
                return None;
            },
            Some(d) => {
                if value > (u64::MAX - d) / 16 {
                    return None;
                }
                value = value * 16 + d;
            },
        }
    }
    assert(digits.take(digits.len() as int) =~= digits);
    Some(value)
}

} // verus!
