//! Operations on strings, stated over their characters.

use vstd::prelude::*;
use vstd::utf8::{decode_utf8, encode_utf8, is_ascii_chars, is_char_boundary};

verus! {

broadcast use vstd::string::group_string_axioms;

/// `String::push` of the standard library. Trusted: the character is appended.
pub assume_specification[ String::push ](s: &mut String, c: char)
    ensures
        final(s)@ == old(s)@.push(c),
;

/// `s` with every `from` replaced by the characters `to`.
pub open spec fn replaced(s: Seq<char>, from: char, to: Seq<char>) -> Seq<char>
    decreases s.len(),
{
    if s.len() == 0 {
        Seq::empty()
    } else if s.last() == from {
        replaced(s.drop_last(), from, to) + to
    } else {
        replaced(s.drop_last(), from, to).push(s.last())
    }
}

/// Replaces every `from` in `s` by `to`.
pub fn replace_char(s: &str, from: char, to: &str) -> (r: String)
    ensures
        r@ == replaced(s@, from, to@),
{
    let mut r = String::new();
    assert(s@.take(0) =~= Seq::<char>::empty());
    for c in it: s.chars()
        invariant
            it.seq() == s@,
            r@ == replaced(s@.take(it.index()), from, to@),
    {
        proof {
            let i = it.index();
            assert(s@.take(i + 1).drop_last() =~= s@.take(i));
            assert(s@.take(i + 1).last() == s@[i]);
        }
        if c == from {
            r.append(to);
        } else {
            r.push(c);
        }
    }
    assert(s@.take(s@.len() as int) =~= s@);
    r
}

/// Whether `s` begins with `prefix`.
pub fn starts_with(s: &str, prefix: &str) -> (r: bool)
    ensures
        r == prefix@.is_prefix_of(s@),
{
    let mut rest = s.chars();
    for c in it: prefix.chars()
        invariant
            it.seq() == prefix@,
            it.index() <= s@.len(),
            vstd::std_specs::iter::IteratorSpec::remaining(&rest) == s@.skip(it.index()),
            prefix@.take(it.index()) == s@.take(it.index()),
    {
        let next = rest.next();
        match next {
            Some(d) => {
                if d != c {
                    return false;
                }
            },
            None => {
                return false;
            },
        }
    }
    true
}

/// The number of bytes that `s` takes in UTF-8.
pub open spec fn byte_len(s: Seq<char>) -> nat {
    encode_utf8(s).len()
}

/// `s` can be cut after `n` bytes without splitting a character.
pub open spec fn can_cut(s: Seq<char>, n: int) -> bool {
    0 <= n <= byte_len(s) && is_char_boundary(encode_utf8(s), n)
}

/// The characters in the first `n` bytes of `s`.
pub open spec fn first_bytes(s: Seq<char>, n: int) -> Seq<char> {
    decode_utf8(encode_utf8(s).subrange(0, n))
}

/// The number of bytes in `s`.
pub fn length_in_bytes(s: &str) -> (r: usize)
    ensures
        r == byte_len(s@),
{
    s.as_bytes().len()
}

/// Whether `s` can be cut after `n` bytes.
pub fn cuttable_at(s: &str, n: usize) -> (r: bool)
    ensures
        r == can_cut(s@, n as int),
{
    length_in_bytes(s) >= n && s.is_char_boundary(n)
}

/// The part of `s` before byte `n`.
pub fn cut_at(s: &str, n: usize) -> (r: &str)
    requires
        can_cut(s@, n as int),
    ensures
        r@ == first_bytes(s@, n as int),
{
    let parts = s.split_at(n);
    proof {
        vstd::utf8::encode_utf8_decode_utf8(parts.0@);
    }
    parts.0
}

/// In an ASCII string bytes are characters: it can be cut anywhere, and the first `n`
/// bytes are the first `n` characters.
pub proof fn ascii_cut(s: Seq<char>, n: int)
    requires
        is_ascii_chars(s),
        0 <= n <= s.len(),
    ensures
        byte_len(s) == s.len(),
        can_cut(s, n),
        first_bytes(s, n) == s.take(n),
{
    vstd::utf8::encode_utf8_valid_utf8(s);
    vstd::utf8::is_ascii_chars_encode_utf8(s);
    let head = s.take(n);
    let bytes = encode_utf8(s);
    assert(is_ascii_chars(head));
    vstd::utf8::is_ascii_chars_encode_utf8(head);
    vstd::utf8::encode_utf8_decode_utf8(head);
    assert(bytes.subrange(0, n) =~= encode_utf8(head)) by {
        assert forall|i: int| 0 <= i < n implies bytes.subrange(0, n)[i] == encode_utf8(head)[i] by {
            assert(head[i] as u8 == encode_utf8(head)[i]);
            assert(s[i] as u8 == bytes[i]);
        }
    }
    if n < s.len() {
        vstd::utf8::is_char_boundary_iff_not_is_continuation_byte(bytes, n);
        let b: u8 = bytes[n];
        assert(s[n] as u8 == b);
        assert(!vstd::utf8::is_continuation_byte(b));
    } else {
        vstd::utf8::is_char_boundary_start_end_of_seq(bytes);
    }
}

/// The digit `d` as a character.
pub open spec fn digit_char(d: int) -> char {
    (('0' as int) + d) as char
}

/// The decimal digits of `n`.
pub open spec fn number_text(n: nat) -> Seq<char>
    decreases n,
{
    if n < 10 {
        seq![digit_char(n as int)]
    } else {
        number_text(n / 10).push(digit_char((n % 10) as int))
    }
}

/// Writes `n` in decimal digits.
pub fn format_number(n: usize) -> (r: String)
    ensures
        r@ == number_text(n as nat),
    decreases n,
{
    let digit: u8 = (n % 10) as u8;
    let c: char = (48u8 + digit) as char;
    if n < 10 {
        let mut r = String::new();
        r.push(c);
        assert(r@ =~= number_text(n as nat));
        r
    } else {
        let mut r = format_number(n / 10);
        r.push(c);
        r
    }
}

/// The character is one of `0` to `9`.
pub open spec fn is_digit(c: char) -> bool {
    '0' <= c <= '9'
}

/// The number that a sequence of digits stands for.
pub open spec fn digits_value(s: Seq<char>) -> int
    decreases s.len(),
{
    if s.len() == 0 {
        0
    } else {
        10 * digits_value(s.drop_last()) + (s.last() as int - '0' as int)
    }
}

/// `s` without a leading plus sign.
pub open spec fn unsigned_part(s: Seq<char>) -> Seq<char> {
    if s.len() > 0 && s[0] == '+' {
        s.skip(1)
    } else {
        s
    }
}

/// The `u16` that `s` writes: an optional plus sign and then digits only, at least one.
pub open spec fn u16_value(s: Seq<char>) -> Option<u16> {
    let digits = unsigned_part(s);
    if digits.len() > 0 && (forall|i: int| 0 <= i < digits.len() ==> is_digit(#[trigger] digits[i]))
        && digits_value(digits) <= u16::MAX {
        Some(digits_value(digits) as u16)
    } else {
        None
    }
}

/// More digits never make a number smaller.
proof fn digits_value_grows(s: Seq<char>, n: int)
    requires
        0 <= n <= s.len(),
        forall|i: int| 0 <= i < s.len() ==> is_digit(#[trigger] s[i]),
    ensures
        0 <= digits_value(s.take(n)) <= digits_value(s),
    decreases s.len(),
{
    if n == s.len() {
        assert(s.take(n) =~= s);
        if s.len() > 0 {
            digits_value_grows(s.drop_last(), 0);
            assert(is_digit(s[s.len() - 1]));
            assert(s.drop_last().take(0) =~= Seq::<char>::empty());
        }
    } else {
        assert(s.drop_last().take(n) =~= s.take(n));
        digits_value_grows(s.drop_last(), n);
        assert(is_digit(s[s.len() - 1]));
    }
}

/// Reads a `u16` in decimal digits, with an optional plus sign in front.
pub fn parse_u16(s: &str) -> (r: Option<u16>)
    ensures
        r == u16_value(s@),
{
    let ghost digits = unsigned_part(s@);
    let mut value: u32 = 0;
    let mut seen: bool = false;
    let mut first: bool = true;
    for c in it: s.chars()
        invariant
            it.seq() == s@,
            digits == unsigned_part(s@),
            first == (it.index() == 0),
            ({
                let n = if it.index() > 0 && s@[0] == '+' { it.index() - 1 } else { it.index() };
                &&& 0 <= n <= digits.len()
                &&& seen == (n > 0)
                &&& forall|i: int| 0 <= i < n ==> is_digit(#[trigger] digits[i])
                &&& value == digits_value(digits.take(n))
                &&& value <= u16::MAX
            }),
    {
        let ghost n = if it.index() > 0 && s@[0] == '+' { it.index() - 1 } else { it.index() };
        if first && c == '+' {
            assert(digits.take(0) =~= Seq::<char>::empty());
        } else {
            assert(digits[n] == c);
            if c < '0' || c > '9' {
                assert(!is_digit(digits[n]));
                return None;
            }
            let digit: u32 = c as u32 - '0' as u32;
            proof {
                assert(digits.take(n + 1).drop_last() =~= digits.take(n));
                assert(digits.take(n + 1).last() == c);
            }
            value = value * 10 + digit;
            seen = true;
            if value > 65535 {
                proof {
                    if forall|i: int| 0 <= i < digits.len() ==> is_digit(#[trigger] digits[i]) {
                        digits_value_grows(digits, n + 1);
                    }
                }
                return None;
            }
        }
        first = false;
    }
    proof {
        assert(digits.take(digits.len() as int) =~= digits);
    }
    if seen {
        Some(value as u16)
    } else {
        None
    }
}

/// Replacing works piece by piece: what is not the character stays, the character becomes the
/// replacement, and the pieces keep their order.
pub proof fn replacing_works_piecewise(a: Seq<char>, b: Seq<char>, c: char, from: char, to: Seq<char>)
    ensures
        replaced(Seq::empty(), from, to) == Seq::<char>::empty(),
        replaced(seq![c], from, to) == if c == from { to } else { seq![c] },
        replaced(a + b, from, to) == replaced(a, from, to) + replaced(b, from, to),
    decreases b.len(),
{
    assert(seq![c].drop_last() =~= Seq::empty());
    assert(replaced(seq![c].drop_last(), from, to) == Seq::<char>::empty());
    assert(replaced(seq![c], from, to) =~= if c == from { to } else { seq![c] });
    if b.len() == 0 {
        assert(a + b =~= a);
        assert(replaced(b, from, to) =~= Seq::empty());
        assert(replaced(a, from, to) + replaced(b, from, to) =~= replaced(a, from, to));
    } else {
        replacing_works_piecewise(a, b.drop_last(), c, from, to);
        assert((a + b).drop_last() =~= a + b.drop_last());
        assert((a + b).last() == b.last());
        assert(replaced(a + b, from, to) =~= replaced(a, from, to) + replaced(b, from, to));
    }
}

/// A text without the character is not changed by replacing it.
pub proof fn nothing_to_replace(s: Seq<char>, from: char, to: Seq<char>)
    requires
        !s.contains(from),
    ensures
        replaced(s, from, to) == s,
    decreases s.len(),
{
    if s.len() > 0 {
        let before = s.drop_last();
        if before.contains(from) {
            let i = choose|i: int| 0 <= i < before.len() && before[i] == from;
            assert(s[i] == from);
            assert(s.contains(from));
        }
        nothing_to_replace(before, from, to);
        assert(s[s.len() - 1] == s.last());
        assert(s =~= before.push(s.last()));
    }
}

/// What is cut off a text are its first bytes, and they are the beginning of the text.
pub proof fn cutting_keeps_the_bytes(s: Seq<char>, n: int)
    requires
        can_cut(s, n),
    ensures
        encode_utf8(first_bytes(s, n)) == encode_utf8(s).subrange(0, n),
{
    vstd::utf8::encode_utf8_valid_utf8(s);
    vstd::utf8::valid_utf8_split(encode_utf8(s), n);
    vstd::utf8::decode_utf8_encode_utf8(encode_utf8(s).subrange(0, n));
}

/// Every digit that is added makes the number ten times as large and adds its own value.
pub proof fn digits_count_by_ten(s: Seq<char>, c: char)
    ensures
        digits_value(Seq::empty()) == 0,
        digits_value(s.push(c)) == 10 * digits_value(s) + (c as int - 48),
        is_digit(c) <==> 48 <= c as int <= 57,
{
    assert(s.push(c).drop_last() =~= s);
}

/// Writing a number gives digits only, with no zero in front, and reading them gives the number
/// back.
pub proof fn written_numbers_are_read_back(n: nat)
    ensures
        number_text(n).len() > 0,
        forall|i: int| 0 <= i < number_text(n).len() ==> is_digit(#[trigger] number_text(n)[i]),
        digits_value(number_text(n)) == n,
        n > 0 ==> number_text(n)[0] != '0',
        n <= u16::MAX ==> u16_value(number_text(n)) == Some(n as u16),
        n > u16::MAX ==> u16_value(number_text(n)) is None,
    decreases n,
{
    let digit = digit_char((n % 10) as int);
    if n < 10 {
        assert(number_text(n) =~= Seq::empty().push(digit));
        digits_count_by_ten(Seq::empty(), digit);
    } else {
        written_numbers_are_read_back(n / 10);
        digits_count_by_ten(number_text(n / 10), digit);
        assert(number_text(n)[0] == number_text(n / 10)[0]);
    }
    assert(number_text(n)[0] != '+');
}

/// Exactly the digits of a number up to 65535, with or without a plus sign in front, write a
/// port.
pub proof fn only_digits_are_read(digits: Seq<char>)
    ensures
        u16_value(seq!['+'] + digits) is Some ==> digits.len() > 0 && forall|i: int|
            0 <= i < digits.len() ==> is_digit(#[trigger] digits[i]),
        digits.len() > 0 && (forall|i: int| 0 <= i < digits.len() ==> is_digit(#[trigger] digits[i]))
            ==> {
            &&& u16_value(digits) == u16_value(seq!['+'] + digits)
            &&& u16_value(digits) is Some <==> digits_value(digits) <= 65535
            &&& u16_value(digits) matches Some(v) ==> v == digits_value(digits)
        },
        u16_value(digits) is Some && digits[0] != '+' ==> forall|i: int|
            0 <= i < digits.len() ==> is_digit(#[trigger] digits[i]),
        u16_value(Seq::<char>::empty()) is None,
        u16_value(seq!['+']) is None,
{
    let signed = seq!['+'] + digits;
    assert(signed.skip(1) =~= digits);
    assert(seq!['+'].skip(1) =~= Seq::empty());
    if digits.len() > 0 && (forall|i: int| 0 <= i < digits.len() ==> is_digit(#[trigger] digits[i])) {
        assert(is_digit(digits[0]));
        digits_value_grows(digits, 0);
        assert(digits.take(0) =~= Seq::<char>::empty());
    }
}

} // verus!
