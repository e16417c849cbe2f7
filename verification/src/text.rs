//! Characters and numbers as the shell reads and writes them.

use vstd::prelude::*;

verus! {

/// Whether `c` is white space: the code points that Unicode gives the
/// property `White_Space`.
pub open spec fn is_blank(c: char) -> bool {
    let n = c as u32;
    ||| 0x09 <= n <= 0x0d
    ||| n == 0x20
    ||| n == 0x85
    ||| n == 0xa0
    ||| n == 0x1680
    ||| 0x2000 <= n <= 0x200a
    ||| n == 0x2028
    ||| n == 0x2029
    ||| n == 0x202f
    ||| n == 0x205f
    ||| n == 0x3000
}

/// Tests whether `c` is white space.
pub fn blank(c: char) -> (b: bool)
    ensures
        b == is_blank(c),
{
    let n: u32 = c as u32;
    (0x09 <= n && n <= 0x0d) || n == 0x20 || n == 0x85 || n == 0xa0 || n == 0x1680 || (0x2000 <= n
        && n <= 0x200a) || n == 0x2028 || n == 0x2029 || n == 0x202f || n == 0x205f || n == 0x3000
}

/// Whether `c` is one of the decimal digits `0` to `9`.
pub open spec fn is_digit(c: char) -> bool {
    '0' <= c <= '9'
}

/// The number that the decimal digit `c` stands for.
pub open spec fn digit_value(c: char) -> int {
    c as u32 - '0' as u32
}

/// The decimal digit that stands for `d`, where `0 <= d <= 9`.
pub open spec fn digit_char(d: int) -> char {
    (d + '0' as u32) as char
}

/// Whether `s` holds decimal digits only.
pub open spec fn all_digits(s: Seq<char>) -> bool {
    forall|i: int| 0 <= i < s.len() ==> is_digit(#[trigger] s[i])
}

/// The number that a sequence of decimal digits denotes, the empty one
/// denoting zero.
pub open spec fn digits_value(s: Seq<char>) -> nat
    decreases s.len(),
{
    if s.len() == 0 {
        0
    } else {
        (digits_value(s.drop_last()) * 10 + digit_value(s.last())) as nat
    }
}

/// Whether `s` begins with a sign.
pub open spec fn has_sign(s: Seq<char>) -> bool {
    s.len() > 0 && (s[0] == '-' || s[0] == '+')
}

/// What is left of `s` without its sign.
pub open spec fn unsigned_part(s: Seq<char>) -> Seq<char> {
    if has_sign(s) {
        s.subrange(1, s.len() as int)
    } else {
        s
    }
}

/// The number that `s` denotes before its range is looked at: the digits
/// after the optional sign, negated under a `-`.
pub open spec fn signed_value(s: Seq<char>) -> int {
    if has_sign(s) && s[0] == '-' {
        -(digits_value(unsigned_part(s)) as int)
    } else {
        digits_value(unsigned_part(s)) as int
    }
}

/// The 32-bit integer that the text `s` denotes, if it denotes one: an
/// optional `+` or `-`, then at least one decimal digit and nothing else,
/// with a value from `i32::MIN` to `i32::MAX`.
pub open spec fn integer_of(s: Seq<char>) -> Option<i32> {
    if unsigned_part(s).len() > 0 && all_digits(unsigned_part(s)) && i32::MIN <= signed_value(s)
        <= i32::MAX {
        Some(signed_value(s) as i32)
    } else {
        None
    }
}

/// The decimal digits of `n`, without leading zeros.
pub open spec fn natural_text(n: nat) -> Seq<char>
    decreases n,
{
    if n < 10 {
        seq![digit_char(n as int)]
    } else {
        natural_text(n / 10).push(digit_char((n % 10) as int))
    }
}

/// The decimal text of `n`: a `-` in front of the digits of a negative number.
pub open spec fn integer_text(n: int) -> Seq<char> {
    if n < 0 {
        seq!['-'] + natural_text((-n) as nat)
    } else {
        natural_text(n as nat)
    }
}

/// Tests whether `c` is a decimal digit.
pub fn digit(c: char) -> (b: bool)
    ensures
        b == is_digit(c),
{
    '0' <= c && c <= '9'
}

/// `String::push` of the standard library: the string afterwards holds the
/// characters it held before, followed by `c`.
pub assume_specification[ std::string::String::push ](s: &mut std::string::String, c: char)
    ensures
        final(s)@ == old(s)@.push(c),
;

/// The characters of `s`, one by one.
pub fn characters(s: &str) -> (v: Vec<char>)
    ensures
        v@ == s@,
{
    let mut v: Vec<char> = Vec::new();
    for c in it: s.chars()
        invariant
            it.seq() == s@,
            v@ == s@.take(it.index() as int),
    {
        v.push(c);
    }
    v
}

/// A sequence of digits denotes at least what any of its prefixes denotes.
pub proof fn lemma_digits_value_prefix(s: Seq<char>, k: int)
    requires
        0 <= k <= s.len(),
        all_digits(s),
    ensures
        digits_value(s.take(k)) <= digits_value(s),
    decreases s.len() - k,
{
    if k < s.len() {
        lemma_digits_value_prefix(s, k + 1);
        assert(s.take(k + 1).drop_last() =~= s.take(k));
    } else {
        assert(s.take(k) =~= s);
    }
}

/// Reads `s` as a 32-bit integer in decimal notation.
pub fn integer(s: &str) -> (n: Option<i32>)
    ensures
        n == integer_of(s@),
{
    let chars = characters(s);
    let len = chars.len();
    let signed = len > 0 && (chars[0] == '-' || chars[0] == '+');
    let negative = signed && chars[0] == '-';
    let start: usize = if signed { 1 } else { 0 };
    if start == len {
        return None;
    }
    let ghost body = unsigned_part(s@);
    assert(body == s@.subrange(start as int, len as int));
    let mut i: usize = start;
    let mut magnitude: i64 = 0;
    while i < len
        invariant
            start <= i <= len,
            len == chars@.len(),
            chars@ == s@,
            body == s@.subrange(start as int, len as int),
            body == unsigned_part(s@),
            all_digits(body.take(i - start)),
            magnitude == digits_value(body.take(i - start)),
            0 <= magnitude <= 0x8000_0000,
        decreases len - i,
    {
        let c = chars[i];
        assert(c == body[i - start]);
        if !digit(c) {
            assert(!is_digit(body[i - start]));
            return None;
        }
        let value: i64 = (c as u32 - '0' as u32) as i64;
        let next: i64 = magnitude * 10 + value;
        proof {
            let longer = body.take(i - start + 1);
            assert(longer.drop_last() =~= body.take(i - start));
            assert(longer.last() == c);
            assert(all_digits(longer)) by {
                assert forall|j: int| 0 <= j < longer.len() implies is_digit(
                    #[trigger] longer[j],
                ) by {
                    if j < i - start {
                        assert(longer[j] == body.take(i - start)[j]);
                    }
                }
            }
            assert(next == digits_value(longer));
        }
        if next > 0x8000_0000 {
            proof {
                if all_digits(body) {
                    lemma_digits_value_prefix(body, i - start + 1);
                }
            }
            return None;
        }
        magnitude = next;
        i += 1;
    }
    assert(body.take(len - start) =~= body);
    if negative {
        Some((-magnitude) as i32)
    } else if magnitude > 0x7fff_ffff {
        None
    } else {
        Some(magnitude as i32)
    }
}

/// Appends the decimal digits of `n` to `s`.
fn push_natural(s: &mut String, n: u64)
    ensures
        final(s)@ == old(s)@ + natural_text(n as nat),
    decreases n,
{
    if n < 10 {
        s.push((n as u8 + 48u8) as char);
        assert(old(s)@.push(digit_char(n as int)) =~= old(s)@ + natural_text(n as nat));
    } else {
        push_natural(s, n / 10);
        s.push(((n % 10) as u8 + 48u8) as char);
        assert(old(s)@ + natural_text(n as nat) =~= (old(s)@ + natural_text((n / 10) as nat)).push(
            digit_char((n % 10) as int),
        ));
    }
}

/// Writes `n` in decimal notation.
pub fn decimal(n: i32) -> (s: String)
    ensures
        s@ == integer_text(n as int),
{
    let mut s = String::new();
    let wide: i64 = n as i64;
    if wide < 0 {
        s.push('-');
        push_natural(&mut s, (-wide) as u64);
        assert(s@ =~= seq!['-'] + natural_text((-n) as nat));
    } else {
        push_natural(&mut s, wide as u64);
        assert(s@ =~= natural_text(n as nat));
    }
    s
}

/// The decimal digits of a number are digits, at least one of them, and
/// denote the number.
pub proof fn lemma_natural_text(n: nat)
    ensures
        natural_text(n).len() >= 1,
        all_digits(natural_text(n)),
        digits_value(natural_text(n)) == n,
    decreases n,
{
    if n < 10 {
        let text = natural_text(n);
        assert(text.drop_last() =~= Seq::<char>::empty());
        assert(digits_value(text.drop_last()) == 0);
        assert(text.last() == digit_char(n as int));
    } else {
        lemma_natural_text(n / 10);
        let text = natural_text(n);
        let front = natural_text(n / 10);
        assert(text.drop_last() =~= front);
        assert(text.last() == digit_char((n % 10) as int));
        assert forall|i: int| 0 <= i < text.len() implies is_digit(#[trigger] text[i]) by {
            if i < front.len() {
                assert(text[i] == front[i]);
            }
        }
    }
}

/// What is written can be read: the decimal text of a 32-bit integer
/// denotes that integer.
pub proof fn lemma_integer_of_integer_text(n: i32)
    ensures
        integer_of(integer_text(n as int)) == Some(n),
{
    let text = integer_text(n as int);
    if n < 0 {
        let digits = natural_text((-n) as nat);
        lemma_natural_text((-n) as nat);
        assert(text[0] == '-');
        assert(unsigned_part(text) =~= digits);
    } else {
        lemma_natural_text(n as nat);
        assert(is_digit(text[0]));
    }
}

} // verus!
