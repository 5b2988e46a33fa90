//! Text as a sequence of characters: reading a string's characters, building
//! a string from characters, decimal integers, line breaks, and the order of
//! two texts.

use vstd::prelude::*;

verus! {

/// The characters of `s`, in order.
pub fn chars_of(s: &str) -> (chars: Vec<char>)
    ensures
        chars@ == s@,
{
    let mut chars: Vec<char> = Vec::new();
    for c in it: s.chars()
        invariant
            it.seq() == s@,
            chars@ == s@.take(it.index()),
    {
        chars.push(c);
    }
    chars
}

/// Collects characters into a `String` with `String::from_iter`: the string
/// holds exactly the given characters, in the given order.
#[verifier::external_body]
pub(crate) fn text_from_chars(chars: &Vec<char>) -> (text: String)
    ensures
        text@ == chars@,
{
    String::from_iter(chars.iter())
}

/// Whether `c` is one of the ten ASCII digits.
pub open spec fn is_digit(c: char) -> bool {
    '0' as int <= c as int <= '9' as int
}

/// Whether every character of `s` is an ASCII digit.
pub open spec fn all_digits(s: Seq<char>) -> bool {
    forall|i: int| 0 <= i < s.len() ==> is_digit(#[trigger] s[i])
}

/// The number that a run of ASCII digits writes in base ten; 0 for the empty run.
pub open spec fn digits_value(digits: Seq<char>) -> int
    decreases digits.len(),
{
    if digits.len() == 0 {
        0
    } else {
        digits_value(digits.drop_last()) * 10 + (digits.last() as int - '0' as int)
    }
}

/// Whether `s` starts with a plus or a minus sign.
pub open spec fn has_sign(s: Seq<char>) -> bool {
    s.len() > 0 && (s[0] == '+' || s[0] == '-')
}

/// What follows the sign of `s`, or all of `s` where it has none.
pub open spec fn unsigned_part(s: Seq<char>) -> Seq<char> {
    if has_sign(s) {
        s.skip(1)
    } else {
        s
    }
}

/// The integer that `s` writes: an optional sign, then one or more ASCII
/// digits and nothing else. Text of any other shape writes no integer.
pub open spec fn decimal_value(s: Seq<char>) -> Option<int> {
    let body = unsigned_part(s);
    if body.len() == 0 || !all_digits(body) {
        None
    } else if s[0] == '-' {
        Some(-digits_value(body))
    } else {
        Some(digits_value(body))
    }
}

/// The integer that `s` writes, if it writes one and an `i32` can hold it.
pub open spec fn parsed_i32(s: Seq<char>) -> Option<i32> {
    match decimal_value(s) {
        Some(v) => if i32::MIN <= v <= i32::MAX {
            Some(v as i32)
        } else {
            None
        },
        None => None,
    }
}

/// Reading one more digit multiplies the value by ten and adds the digit.
proof fn lemma_digits_step(digits: Seq<char>, k: int)
    requires
        0 <= k < digits.len(),
    ensures
        digits_value(digits.take(k + 1)) == digits_value(digits.take(k)) * 10 + (digits[k] as int
            - '0' as int),
{
    assert(digits.take(k + 1).drop_last() =~= digits.take(k));
}

/// The value of `c` as a decimal digit, if it is one.
fn digit_of(c: char) -> (value: Option<u64>)
    ensures
        value is Some <==> is_digit(c),
        value matches Some(v) ==> v == c as int - '0' as int,
{
    let code: u32 = c as u32;
    if '0' as u32 <= code && code <= '9' as u32 {
        Some((code - '0' as u32) as u64)
    } else {
        None
    }
}

/// Parses `s` as a decimal `i32`: an optional sign followed by digits only.
pub fn parse_i32(s: &str) -> (value: Option<i32>)
    ensures
        value == parsed_i32(s@),
{
    let chars = chars_of(s);
    let n = chars.len();
    let signed: bool = n > 0 && (chars[0] == '+' || chars[0] == '-');
    let negative: bool = n > 0 && chars[0] == '-';
    let start: usize = if signed { 1 } else { 0 };
    let ghost body = unsigned_part(chars@);
    assert(body =~= chars@.skip(start as int));
    if start == n {
        return None;
    }
    let mut magnitude: u64 = 0;
    let mut beyond: bool = false;
    let mut i: usize = start;
    while i < n
        invariant
            start <= i <= n,
            n == chars.len(),
            chars@ == s@,
            body == unsigned_part(s@),
            body == chars@.skip(start as int),
            all_digits(body.take(i - start)),
            0 <= digits_value(body.take(i - start)),
            beyond ==> digits_value(body.take(i - start)) > 0x8000_0000,
            !beyond ==> magnitude == digits_value(body.take(i - start)),
            magnitude <= 0x8000_0000,
        decreases n - i,
    {
        proof {
            lemma_digits_step(body, i - start);
        }
        match digit_of(chars[i]) {
            None => {
                assert(!is_digit(body[i - start]));
                return None;
            },
            Some(digit) => {
                if !beyond {
                    let next: u64 = magnitude * 10 + digit;
                    if next > 0x8000_0000 {
                        beyond = true;
                    } else {
                        magnitude = next;
                    }
                }
            },
        }
        i += 1;
    }
    assert(body.take(i - start) =~= body);
    if beyond {
        None
    } else if negative {
        Some((0 - magnitude as i64) as i32)
    } else if magnitude == 0x8000_0000 {
        None
    } else {
        Some(magnitude as i32)
    }
}

/// `s` with each carriage return that a line feed follows, and that line
/// feed, replaced by one semicolon, taken from left to right.
pub open spec fn line_breaks_joined(s: Seq<char>) -> Seq<char>
    decreases s.len(),
{
    if s.len() == 0 {
        s
    } else if s.len() >= 2 && s[0] == '\r' && s[1] == '\n' {
        seq![';'] + line_breaks_joined(s.skip(2))
    } else {
        seq![s[0]] + line_breaks_joined(s.skip(1))
    }
}

/// Replaces each carriage return and line feed pair in `s` by a semicolon.
pub fn join_line_breaks(s: &str) -> (joined: String)
    ensures
        joined@ == line_breaks_joined(s@),
{
    let chars = chars_of(s);
    let n = chars.len();
    let mut out: Vec<char> = Vec::new();
    let mut i: usize = 0;
    assert(chars@.skip(0) =~= chars@);
    while i < n
        invariant
            i <= n,
            n == chars.len(),
            out@ + line_breaks_joined(chars@.skip(i as int)) == line_breaks_joined(chars@),
        decreases n - i,
    {
        let ghost rest = chars@.skip(i as int);
        let ghost before = out@;
        if chars[i] == '\r' && i + 1 < n && chars[i + 1] == '\n' {
            out.push(';');
            proof {
                assert(rest.skip(2) =~= chars@.skip(i + 2));
                assert(out@ + line_breaks_joined(rest.skip(2)) =~= before + line_breaks_joined(
                    rest,
                ));
            }
            i += 2;
        } else {
            out.push(chars[i]);
            proof {
                assert(rest.skip(1) =~= chars@.skip(i + 1));
                assert(out@ + line_breaks_joined(rest.skip(1)) =~= before + line_breaks_joined(
                    rest,
                ));
            }
            i += 1;
        }
    }
    assert(line_breaks_joined(chars@.skip(i as int)) =~= Seq::<char>::empty());
    assert(out@ + Seq::<char>::empty() =~= out@);
    text_from_chars(&out)
}

/// Whether `a` comes before `b` in the order of a dictionary, character by
/// character and each character by its code point: at the first place where
/// the two differ the smaller character decides, and a text comes before
/// every longer text that starts with it.
pub open spec fn text_precedes(a: Seq<char>, b: Seq<char>) -> bool
    decreases a.len(),
{
    if b.len() == 0 {
        false
    } else if a.len() == 0 {
        true
    } else if a[0] != b[0] {
        (a[0] as int) < (b[0] as int)
    } else {
        text_precedes(a.skip(1), b.skip(1))
    }
}

/// No text comes before itself.
pub proof fn lemma_text_irreflexive(a: Seq<char>)
    ensures
        !text_precedes(a, a),
    decreases a.len(),
{
    if a.len() > 0 {
        lemma_text_irreflexive(a.skip(1));
    }
}

/// Of two texts exactly one holds: the first comes before the second, the
/// two are the same, or the second comes before the first.
pub proof fn lemma_text_trichotomy(a: Seq<char>, b: Seq<char>)
    ensures
        text_precedes(a, b) || a == b || text_precedes(b, a),
        !(text_precedes(a, b) && text_precedes(b, a)),
        a == b ==> !text_precedes(a, b),
    decreases a.len(),
{
    if a.len() == 0 || b.len() == 0 {
        if a.len() == 0 && b.len() == 0 {
            assert(a =~= b);
        }
    } else if a[0] == b[0] {
        lemma_text_trichotomy(a.skip(1), b.skip(1));
        if a.skip(1) == b.skip(1) {
            assert(a =~= seq![a[0]] + a.skip(1));
            assert(b =~= seq![b[0]] + b.skip(1));
        }
        if a == b {
            lemma_text_irreflexive(a);
        }
    }
}

/// What comes before a text comes before everything that the text comes before.
pub proof fn lemma_text_transitive(a: Seq<char>, b: Seq<char>, c: Seq<char>)
    requires
        text_precedes(a, b),
        text_precedes(b, c),
    ensures
        text_precedes(a, c),
    decreases a.len(),
{
    if a.len() > 0 && a[0] == b[0] && b[0] == c[0] {
        lemma_text_transitive(a.skip(1), b.skip(1), c.skip(1));
    }
}

/// Whether the code point of `x` is the smaller one.
fn char_lt(x: char, y: char) -> (before: bool)
    ensures
        before == ((x as int) < (y as int)),
{
    (x as u32) < (y as u32)
}

/// Whether `a` comes before `b` in the order of [`text_precedes`].
pub fn text_lt(a: &str, b: &str) -> (before: bool)
    ensures
        before == text_precedes(a@, b@),
{
    let ca = chars_of(a);
    let cb = chars_of(b);
    let mut i: usize = 0;
    assert(ca@.skip(0) =~= ca@ && cb@.skip(0) =~= cb@);
    while i < ca.len() && i < cb.len()
        invariant
            i <= ca.len(),
            i <= cb.len(),
            ca@ == a@,
            cb@ == b@,
            text_precedes(a@, b@) == text_precedes(ca@.skip(i as int), cb@.skip(i as int)),
        decreases ca.len() - i,
    {
        if ca[i] != cb[i] {
            return char_lt(ca[i], cb[i]);
        }
        proof {
            assert(ca@.skip(i as int).skip(1) =~= ca@.skip(i + 1));
            assert(cb@.skip(i as int).skip(1) =~= cb@.skip(i + 1));
        }
        i += 1;
    }
    i < cb.len()
}

/// The character that writes the digit `d`.
pub open spec fn digit_char(d: int) -> char {
    if d == 0 {
        '0'
    } else if d == 1 {
        '1'
    } else if d == 2 {
        '2'
    } else if d == 3 {
        '3'
    } else if d == 4 {
        '4'
    } else if d == 5 {
        '5'
    } else if d == 6 {
        '6'
    } else if d == 7 {
        '7'
    } else if d == 8 {
        '8'
    } else {
        '9'
    }
}

/// The digits of a natural number in base ten, without leading zeros.
pub open spec fn natural_text(n: nat) -> Seq<char>
    decreases n,
{
    if n < 10 {
        seq![digit_char(n as int)]
    } else {
        natural_text(n / 10).push(digit_char((n % 10) as int))
    }
}

/// An integer written in base ten: a minus sign where it is negative, then
/// its digits without leading zeros.
pub open spec fn decimal_text(n: int) -> Seq<char> {
    if n < 0 {
        seq!['-'] + natural_text((-n) as nat)
    } else {
        natural_text(n as nat)
    }
}

/// The digits of a natural number are digits, and they write that number.
pub proof fn lemma_natural_text_value(n: nat)
    ensures
        natural_text(n).len() > 0,
        all_digits(natural_text(n)),
        digits_value(natural_text(n)) == n,
    decreases n,
{
    if n < 10 {
        let text = natural_text(n);
        assert(text.drop_last() =~= Seq::<char>::empty());
        assert(digits_value(text.drop_last()) == 0);
    } else {
        lemma_natural_text_value(n / 10);
        let text = natural_text(n);
        assert(text.drop_last() =~= natural_text(n / 10));
    }
}

/// Reading what was written gives the integer back.
pub proof fn lemma_decimal_round_trip(n: int)
    ensures
        decimal_value(decimal_text(n)) == Some(n),
{
    let text = decimal_text(n);
    if n < 0 {
        lemma_natural_text_value((-n) as nat);
        assert(text.skip(1) =~= natural_text((-n) as nat));
    } else {
        lemma_natural_text_value(n as nat);
        assert(is_digit(text[0]));
    }
}

/// The character that writes a digit.
fn char_of_digit(d: u64) -> (c: char)
    requires
        d < 10,
    ensures
        c == digit_char(d as int),
{
    if d == 0 {
        '0'
    } else if d == 1 {
        '1'
    } else if d == 2 {
        '2'
    } else if d == 3 {
        '3'
    } else if d == 4 {
        '4'
    } else if d == 5 {
        '5'
    } else if d == 6 {
        '6'
    } else if d == 7 {
        '7'
    } else if d == 8 {
        '8'
    } else {
        '9'
    }
}

/// Appends the digits of a natural number.
fn push_natural(chars: &mut Vec<char>, n: u64)
    ensures
        final(chars)@ == old(chars)@ + natural_text(n as nat),
{
    let ghost start = chars@;
    // the digits from the last to the first
    let mut backwards: Vec<char> = Vec::new();
    let mut rest: u64 = n;
    backwards.push(char_of_digit(rest % 10));
    rest = rest / 10;
    assert(backwards@.reverse() =~= seq![digit_char((n % 10) as int)]);
    while rest > 0
        invariant
            backwards@.len() > 0,
            natural_text(n as nat) == if rest > 0 {
                natural_text(rest as nat) + backwards@.reverse()
            } else {
                backwards@.reverse()
            },
        decreases rest,
    {
        let ghost before = backwards@;
        let digit = char_of_digit(rest % 10);
        backwards.push(digit);
        proof {
            assert(backwards@.reverse() =~= seq![digit] + before.reverse());
            if rest >= 10 {
                assert(natural_text(rest as nat) + before.reverse() =~= natural_text(
                    (rest / 10) as nat,
                ) + backwards@.reverse());
            } else {
                assert(natural_text(rest as nat) + before.reverse() =~= backwards@.reverse());
            }
        }
        rest = rest / 10;
    }
    let mut k: usize = backwards.len();
    while k > 0
        invariant
            k <= backwards.len(),
            chars@ == start + backwards@.reverse().take(backwards.len() - k),
        decreases k,
    {
        k -= 1;
        chars.push(backwards[k]);
        proof {
            let digits = backwards@.reverse();
            let done = backwards.len() - k;
            assert(digits.take(done) =~= digits.take(done - 1).push(backwards@[k as int]));
            assert(chars@ =~= start + digits.take(done));
        }
    }
    proof {
        let digits = backwards@.reverse();
        assert(digits.take(backwards.len() as int) =~= digits);
    }
}

/// Writes a natural number in base ten.
pub fn write_natural(n: u64) -> (text: String)
    ensures
        text@ == natural_text(n as nat),
{
    let mut chars: Vec<char> = Vec::new();
    push_natural(&mut chars, n);
    assert(chars@ =~= natural_text(n as nat));
    text_from_chars(&chars)
}

/// Writes an integer in base ten.
pub fn write_decimal(n: i64) -> (text: String)
    ensures
        text@ == decimal_text(n as int),
{
    let mut chars: Vec<char> = Vec::new();
    if n < 0 {
        chars.push('-');
        push_natural(&mut chars, (-(n + 1)) as u64 + 1);
    } else {
        push_natural(&mut chars, n as u64);
    }
    assert(chars@ =~= decimal_text(n as int));
    text_from_chars(&chars)
}

} // verus!
