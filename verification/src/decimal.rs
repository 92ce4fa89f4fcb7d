//! Decimal text.
//!
//! Rendering unsigned integers as decimal text, and reading them back, with
//! the two directions proved inverse. Used for ports in URLs, status codes in
//! error messages, and numeric fields of JSON payloads.

use vstd::prelude::*;
use vstd::string::StringExecFns;

verus! {

/// The character for one decimal digit.
pub open spec fn digit_char(d: int) -> char
    recommends
        0 <= d < 10,
{
    if d == 0 {
        '0'
    } else if d == 1 {
        '1'
    } else if d == 2 {
        '2'
    } else if d == 3 {
        '3'
    } else if d == 4 {
        '4'
    } else if d == 5 {
        '5'
    } else if d == 6 {
        '6'
    } else if d == 7 {
        '7'
    } else if d == 8 {
        '8'
    } else {
        '9'
    }
}

/// The decimal text of `n`: most significant digit first, with no leading
/// zeros (zero itself is the single character `'0'`).
pub open spec fn dec_of(n: nat) -> Seq<char>
    decreases n,
{
    if n < 10 {
        seq![digit_char(n as int)]
    } else {
        dec_of(n / 10).push(digit_char((n % 10) as int))
    }
}

/// The one-character string for one decimal digit.
fn digit_str(d: u32) -> (r: &'static str)
    requires
        d < 10,
    ensures
        r@ == seq![digit_char(d as int)],
{
    proof {
        reveal_strlit("0");
        reveal_strlit("1");
        reveal_strlit("2");
        reveal_strlit("3");
        reveal_strlit("4");
        reveal_strlit("5");
        reveal_strlit("6");
        reveal_strlit("7");
        reveal_strlit("8");
        reveal_strlit("9");
    }
    let r: &'static str = if d == 0 {
        "0"
    } else if d == 1 {
        "1"
    } else if d == 2 {
        "2"
    } else if d == 3 {
        "3"
    } else if d == 4 {
        "4"
    } else if d == 5 {
        "5"
    } else if d == 6 {
        "6"
    } else if d == 7 {
        "7"
    } else if d == 8 {
        "8"
    } else {
        "9"
    };
    proof {
        assert(r@ =~= seq![digit_char(d as int)]);
    }
    r
}

/// Renders `n` as decimal text.
pub fn u32_to_decimal(n: u32) -> (r: String)
    ensures
        r@ == dec_of(n as nat),
    decreases n,
{
    if n < 10 {
        digit_str(n).to_owned()
    } else {
        let prefix = u32_to_decimal(n / 10);
        let r = prefix.concat(digit_str(n % 10));
        proof {
            assert(r@ =~= dec_of(n as nat));
        }
        r
    }
}

/// Whether `c` is a decimal digit character.
pub open spec fn is_digit_char(c: char) -> bool {
    c == '0' || c == '1' || c == '2' || c == '3' || c == '4' || c == '5' || c == '6' || c == '7'
        || c == '8' || c == '9'
}

/// The numeric value of one decimal digit character.
pub open spec fn digit_val(c: char) -> nat
    recommends
        is_digit_char(c),
{
    if c == '0' {
        0
    } else if c == '1' {
        1
    } else if c == '2' {
        2
    } else if c == '3' {
        3
    } else if c == '4' {
        4
    } else if c == '5' {
        5
    } else if c == '6' {
        6
    } else if c == '7' {
        7
    } else if c == '8' {
        8
    } else {
        9
    }
}

/// The numeric value of a digit string, most significant digit first.
pub open spec fn value_of_digits(s: Seq<char>) -> nat
    decreases s.len(),
{
    if s.len() == 0 {
        0
    } else {
        value_of_digits(s.drop_last()) * 10 + digit_val(s.last())
    }
}

/// A canonical decimal text: at least one digit, nothing but digits, and no
/// leading zero unless it is the single digit zero.
pub open spec fn is_canonical_dec(s: Seq<char>) -> bool {
    &&& s.len() >= 1
    &&& forall|k: int| 0 <= k < s.len() ==> is_digit_char(#[trigger] s[k])
    &&& s.len() > 1 ==> s[0] != '0'
}

/// The decimal text of `n` is canonical, and its value is `n` again.
pub proof fn lemma_dec_of_canonical(n: nat)
    ensures
        is_canonical_dec(dec_of(n)),
        value_of_digits(dec_of(n)) == n,
    decreases n,
{
    reveal_with_fuel(dec_of, 2);
    reveal_with_fuel(value_of_digits, 3);
    if n < 10 {
        let s = dec_of(n);
        assert(s.drop_last() =~= Seq::<char>::empty());
        assert(value_of_digits(s) == value_of_digits(Seq::<char>::empty()) * 10 + digit_val(
            s.last(),
        ));
    } else {
        lemma_dec_of_canonical(n / 10);
        let s = dec_of(n);
        let prefix = dec_of(n / 10);
        assert(s.drop_last() =~= prefix);
        assert(s.last() == digit_char((n % 10) as int));
        assert(digit_val(digit_char((n % 10) as int)) == n % 10);
        assert(value_of_digits(s) == (n / 10) * 10 + n % 10);
        assert(forall|k: int| 0 <= k < s.len() ==> is_digit_char(#[trigger] s[k]));
    }
}

/// The value of a prefix of a digit string never exceeds the value of the
/// whole string.
pub proof fn lemma_value_of_digits_prefix(s: Seq<char>, i: int)
    requires
        0 <= i <= s.len(),
    ensures
        value_of_digits(s.take(i)) <= value_of_digits(s),
    decreases s.len() - i,
{
    if i < s.len() {
        lemma_value_of_digits_prefix(s, i + 1);
        let t = s.take(i + 1);
        assert(t.drop_last() =~= s.take(i));
        assert(t.last() == s[i]);
        assert(value_of_digits(s.take(i + 1)) == value_of_digits(s.take(i)) * 10 + digit_val(
            s[i],
        ));
    } else {
        assert(s.take(i) =~= s);
    }
}

/// A canonical decimal text is the decimal text of its own value: reading
/// and rendering are inverse.
pub proof fn lemma_canonical_dec_of(s: Seq<char>)
    requires
        is_canonical_dec(s),
    ensures
        dec_of(value_of_digits(s)) == s,
    decreases s.len(),
{
    reveal_with_fuel(dec_of, 2);
    reveal_with_fuel(value_of_digits, 3);
    let v = value_of_digits(s);
    if s.len() == 1 {
        assert(s.drop_last() =~= Seq::<char>::empty());
        assert(v == digit_val(s[0]));
        assert(digit_char(digit_val(s[0]) as int) == s[0]);
        assert(dec_of(v) =~= s);
    } else {
        let prefix = s.drop_last();
        assert(prefix[0] == s[0]);
        assert(forall|k: int| 0 <= k < prefix.len() ==> is_digit_char(#[trigger] prefix[k]));
        assert(is_canonical_dec(prefix));
        lemma_canonical_dec_of(prefix);
        let pv = value_of_digits(prefix);
        assert(v == pv * 10 + digit_val(s.last()));
        assert(pv >= 1) by {
            reveal_with_fuel(value_of_digits, 3);
            lemma_value_of_digits_prefix(prefix, 1);
            assert(prefix.take(1).drop_last() =~= Seq::<char>::empty());
            assert(prefix.take(1).last() == prefix[0]);
            assert(value_of_digits(prefix.take(1)) == value_of_digits(Seq::<char>::empty()) * 10
                + digit_val(prefix[0]));
            assert(digit_val(prefix[0]) >= 1);
        }
        assert(v >= 10);
        assert(v / 10 == pv && v % 10 == digit_val(s.last()));
        assert(digit_char(digit_val(s.last()) as int) == s.last());
        assert(dec_of(v) == dec_of(pv).push(s.last()));
        assert(prefix.push(s.last()) =~= s);
    }
}

/// The numeric value of one decimal digit character, or `None` for any
/// other character.
pub fn digit_of_char(c: char) -> (r: Option<u32>)
    ensures
        r matches Some(v) ==> is_digit_char(c) && v == digit_val(c),
        r is None ==> !is_digit_char(c),
{
    match c {
        '0' => Some(0),
        '1' => Some(1),
        '2' => Some(2),
        '3' => Some(3),
        '4' => Some(4),
        '5' => Some(5),
        '6' => Some(6),
        '7' => Some(7),
        '8' => Some(8),
        '9' => Some(9),
        _ => None,
    }
}

/// Reads the characters of `s` from `from` (inclusive) to `to` (exclusive)
/// as a decimal number. Succeeds if and only if that range is a canonical
/// decimal text whose value fits in a `u32`.
pub fn parse_decimal_u32(s: &str, from: usize, to: usize) -> (r: Option<u32>)
    requires
        from <= to <= s@.len(),
    ensures
        r is Some <==> is_canonical_dec(s@.subrange(from as int, to as int)) && value_of_digits(
            s@.subrange(from as int, to as int),
        ) <= u32::MAX,
        r matches Some(v) ==> v == value_of_digits(s@.subrange(from as int, to as int)),
{
    let ghost digits = s@.subrange(from as int, to as int);
    if from == to {
        return None;
    }
    let first = s.get_char(from);
    proof {
        assert(digits[0] == s@[from as int]);
    }
    if first == '0' && to - from > 1 {
        return None;
    }
    let mut acc: u64 = 0;
    let mut i: usize = from;
    while i < to
        invariant
            from <= i <= to <= s@.len(),
            digits == s@.subrange(from as int, to as int),
            acc == value_of_digits(digits.take(i - from)),
            acc <= u32::MAX,
            forall|k: int| 0 <= k < i - from ==> is_digit_char(#[trigger] digits[k]),
        decreases to - i,
    {
        let c = s.get_char(i);
        proof {
            assert(digits[i - from] == s@[i as int]);
            assert(digits.take(i - from + 1).drop_last() =~= digits.take(i - from));
            assert(digits.take(i - from + 1).last() == digits[i - from]);
        }
        match digit_of_char(c) {
            Some(d) => {
                let next: u64 = acc * 10 + d as u64;
                if next > u32::MAX as u64 {
                    proof {
                        lemma_value_of_digits_prefix(digits, i - from + 1);
                    }
                    return None;
                }
                acc = next;
            },
            None => {
                return None;
            },
        }
        i = i + 1;
    }
    proof {
        assert(digits.take(to - from) =~= digits);
    }
    Some(acc as u32)
}

} // verus!
