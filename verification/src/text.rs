//! Text: the numbers this program prints and reads back, the whitespace it trims, and the
//! bytes its characters take.
use vstd::prelude::*;
use vstd::string::StringExecFns;
use vstd::utf8::{
    char_is_scalar, decode_utf8, encode_scalar, encode_utf8, encode_utf8_decode_utf8, valid_utf8,
};

use crate::wire::utf8_text;

verus! {

// ---------------------------------------------------------------------------
// Characters
// ---------------------------------------------------------------------------

/// [`String::push`] appends the one character it is given.
pub assume_specification[ String::push ](s: &mut String, c: char)
    ensures
        final(s)@ == old(s)@.push(c),
;

/// The Unicode `White_Space` characters.
pub open spec fn is_space(c: char) -> bool {
    ||| 0x09 <= c as u32 <= 0x0d
    ||| c as u32 == 0x20
    ||| c as u32 == 0x85
    ||| c as u32 == 0xa0
    ||| c as u32 == 0x1680
    ||| 0x2000 <= c as u32 <= 0x200a
    ||| c as u32 == 0x2028
    ||| c as u32 == 0x2029
    ||| c as u32 == 0x202f
    ||| c as u32 == 0x205f
    ||| c as u32 == 0x3000
}

/// Whether `c` is Unicode white space.
pub fn whitespace(c: char) -> (r: bool)
    ensures
        r == is_space(c),
{
    let u: u32 = c as u32;
    (0x09 <= u && u <= 0x0d) || u == 0x20 || u == 0x85 || u == 0xa0 || u == 0x1680 || (0x2000 <= u
        && u <= 0x200a) || u == 0x2028 || u == 0x2029 || u == 0x202f || u == 0x205f || u == 0x3000
}

/// The characters of `text`, one by one.
pub fn chars_of(text: &str) -> (r: Vec<char>)
    ensures
        r@ == text@,
{
    let mut out: Vec<char> = Vec::new();
    for c in iter: text.chars()
        invariant
            iter.seq() == text@,
            out@ == text@.take(iter.index() as int),
    {
        proof {
            assert(text@.take(iter.index() as int).push(c) =~= text@.take(iter.index() + 1));
        }
        out.push(c);
    }
    assert(text@.take(text@.len() as int) =~= text@);
    out
}

/// The text `chars` spell.
pub fn text_of(chars: &[char]) -> (r: String)
    ensures
        r@ == chars@,
{
    let mut out: String = String::new();
    let mut i: usize = 0;
    while i < chars.len()
        invariant
            i <= chars@.len(),
            out@ == chars@.take(i as int),
        decreases chars@.len() - i,
    {
        assert(chars@.take(i as int).push(chars@[i as int]) =~= chars@.take(i + 1));
        out.push(chars[i]);
        i += 1;
    }
    assert(chars@.take(chars@.len() as int) =~= chars@);
    out
}


// ---------------------------------------------------------------------------
// Numbers
// ---------------------------------------------------------------------------

/// The character of a digit below sixteen.
pub open spec fn digit_char(d: int) -> char {
    if d < 10 {
        (d + 0x30) as char
    } else {
        (d + 0x57) as char
    }
}

/// A number in base `base`, most significant digit first and with no leading zero.
pub open spec fn digits(n: nat, base: nat) -> Seq<char>
    decreases n,
{
    if base < 2 || n < base {
        seq![digit_char(n as int)]
    } else {
        proof {
            assert(n / base < n) by (nonlinear_arith)
                requires
                    n >= base,
                    base >= 2,
            ;
        }
        digits(n / base, base).push(digit_char((n % base) as int))
    }
}

/// Appends the character of a digit below sixteen.
fn push_digit(out: &mut String, d: u64)
    requires
        d < 16,
    ensures
        final(out)@ == old(out)@.push(digit_char(d as int)),
{
    let u: u8 = if d < 10 {
        d as u8 + 0x30
    } else {
        d as u8 + 0x57
    };
    out.push(u as char);
}

/// A number in a base from two to sixteen, as it is written.
fn in_base(n: u128, base: u128) -> (r: String)
    requires
        2 <= base <= 16,
    ensures
        r@ == digits(n as nat, base as nat),
    decreases n,
{
    let mut out: String = if n < base {
        String::new()
    } else {
        assert(n / base < n) by (nonlinear_arith)
            requires
                n >= base,
                base >= 2,
        ;
        in_base(n / base, base)
    };
    push_digit(&mut out, (n % base) as u64);
    proof {
        if n < base {
            assert(n % base == n) by (nonlinear_arith)
                requires
                    n < base,
            ;
            assert(out@ =~= digits(n as nat, base as nat));
        }
    }
    out
}

/// A number in decimal.
pub fn decimal(n: u64) -> (r: String)
    ensures
        r@ == digits(n as nat, 10),
{
    in_base(n as u128, 10)
}

/// A number of any width in decimal.
pub fn wide_decimal(n: u128) -> (r: String)
    ensures
        r@ == digits(n as nat, 10),
{
    in_base(n, 10)
}

/// A number as it is written in decimal, its sign before it where it is below zero.
pub open spec fn signed_digits(n: int) -> Seq<char> {
    if n < 0 {
        "-"@ + digits((-n) as nat, 10)
    } else {
        digits(n as nat, 10)
    }
}

/// A signed number in decimal.
pub fn signed_decimal(n: i32) -> (r: String)
    ensures
        r@ == signed_digits(n as int),
{
    if n < 0 {
        let mut out: String = copy_text("-");
        put(&mut out, decimal((-(n as i64)) as u64).as_str());
        out
    } else {
        decimal(n as u64)
    }
}

/// A number in octal.
pub fn octal(n: u64) -> (r: String)
    ensures
        r@ == digits(n as nat, 8),
{
    in_base(n as u128, 8)
}

/// A byte as `0x` and two hexadecimal digits.
pub open spec fn hex_byte(b: u8) -> Seq<char> {
    seq!['0', 'x', digit_char((b / 16) as int), digit_char((b % 16) as int)]
}

/// Appends `0x` and two hexadecimal digits.
pub fn push_hex_byte(out: &mut String, b: u8)
    ensures
        final(out)@ == old(out)@ + hex_byte(b),
{
    out.push('0');
    out.push('x');
    push_digit(out, (b / 16) as u64);
    push_digit(out, (b % 16) as u64);
    assert(out@ =~= old(out)@ + hex_byte(b));
}

/// Whether `c` is a decimal digit.
pub open spec fn is_digit(c: char) -> bool {
    '0' <= c && c <= '9'
}

/// What a decimal digit counts, and zero for anything else.
pub open spec fn digit_value(c: char) -> nat {
    if is_digit(c) {
        (c as u32 - 0x30) as nat
    } else {
        0
    }
}

/// The number a row of decimal digits spells.
pub open spec fn value(s: Seq<char>) -> nat
    decreases s.len(),
{
    if s.len() == 0 {
        0
    } else {
        value(s.drop_last()) * 10 + digit_value(s.last())
    }
}

/// A row of at least one character, every one of them a decimal digit.
pub open spec fn all_digits(s: Seq<char>) -> bool {
    s.len() > 0 && forall|i: int| 0 <= i < s.len() ==> is_digit(#[trigger] s[i])
}

/// The number `s` spells where it is decimal digits behind an optional `+`.
pub open spec fn unsigned(s: Seq<char>) -> Option<nat> {
    let d = if s.len() > 0 && s[0] == '+' {
        s.drop_first()
    } else {
        s
    };
    if all_digits(d) {
        Some(value(d))
    } else {
        None
    }
}

/// The number `s` spells where it is decimal digits behind an optional sign.
pub open spec fn integer(s: Seq<char>) -> Option<int> {
    if s.len() > 0 && s[0] == '-' {
        if all_digits(s.drop_first()) {
            Some(-(value(s.drop_first()) as int))
        } else {
            None
        }
    } else {
        match unsigned(s) {
            Some(v) => Some(v as int),
            None => None,
        }
    }
}

/// The digits of a prefix never count more than the digits of the whole.
proof fn lemma_value_grows(s: Seq<char>, k: int)
    requires
        0 <= k <= s.len(),
    ensures
        value(s.take(k)) <= value(s),
    decreases s.len() - k,
{
    if k < s.len() {
        lemma_value_grows(s, k + 1);
        assert(s.take(k + 1).drop_last() =~= s.take(k));
    } else {
        assert(s.take(k) =~= s);
    }
}

/// The number the decimal digits of `s` from `from` spell, where there is one and it is at
/// most `max`.
fn parse_digits(s: &[char], from: usize, max: u64) -> (r: Option<u64>)
    requires
        from <= s@.len(),
    ensures
        ({
            let d = s@.subrange(from as int, s@.len() as int);
            if all_digits(d) && value(d) <= max {
                r == Some(value(d) as u64)
            } else {
                r is None
            }
        }),
{
    let ghost d = s@.subrange(from as int, s@.len() as int);
    if from == s.len() {
        return None;
    }
    let mut i: usize = from;
    let mut n: u64 = 0;
    while i < s.len()
        invariant
            from <= i <= s@.len(),
            d == s@.subrange(from as int, s@.len() as int),
            n == value(d.take(i - from)),
            n <= max,
            forall|k: int| 0 <= k < i - from ==> is_digit(#[trigger] d[k]),
        decreases s@.len() - i,
    {
        let c: char = s[i];
        assert(d[i - from] == c);
        assert(is_digit(d[i - from]) == is_digit(c));
        if c < '0' || c > '9' {
            return None;
        }
        let digit: u64 = (c as u32 - 0x30) as u64;
        proof {
            assert(d.take(i - from + 1).drop_last() =~= d.take(i - from));
            assert(value(d.take(i - from + 1)) == n * 10 + digit);
            lemma_value_grows(d, i - from + 1);
        }
        let next: u128 = n as u128 * 10 + digit as u128;
        if next > max as u128 {
            return None;
        }
        n = next as u64;
        i += 1;
    }
    assert(d.take(d.len() as int) =~= d);
    Some(n)
}

/// Reads an unsigned decimal number of at most `max`.
pub fn parse_unsigned(s: &[char], max: u64) -> (r: Option<u64>)
    ensures
        match unsigned(s@) {
            Some(v) if v <= max => r == Some(v as u64),
            _ => r is None,
        },
{
    if s.len() > 0 && s[0] == '+' {
        assert(s@.subrange(1, s@.len() as int) =~= s@.drop_first());
        parse_digits(s, 1, max)
    } else {
        assert(s@.subrange(0, s@.len() as int) =~= s@);
        parse_digits(s, 0, max)
    }
}

/// Reads a signed 32-bit decimal number.
pub fn parse_i32(s: &[char]) -> (r: Option<i32>)
    ensures
        match integer(s@) {
            Some(v) if i32::MIN <= v <= i32::MAX => r == Some(v as i32),
            _ => r is None,
        },
{
    if s.len() > 0 && s[0] == '-' {
        assert(s@.subrange(1, s@.len() as int) =~= s@.drop_first());
        match parse_digits(s, 1, 0x8000_0000) {
            Some(n) => Some((-(n as i64)) as i32),
            None => None,
        }
    } else {
        match parse_unsigned(s, 0x7fff_ffff) {
            Some(n) => Some(n as i32),
            None => None,
        }
    }
}

// ---------------------------------------------------------------------------
// Trimming and splitting
// ---------------------------------------------------------------------------

/// `s` without the white space it begins with.
pub open spec fn trim_start(s: Seq<char>) -> Seq<char>
    decreases s.len(),
{
    if s.len() > 0 && is_space(s[0]) {
        trim_start(s.drop_first())
    } else {
        s
    }
}

/// `s` without the white space it ends with.
pub open spec fn trim_end(s: Seq<char>) -> Seq<char>
    decreases s.len(),
{
    if s.len() > 0 && is_space(s.last()) {
        trim_end(s.drop_last())
    } else {
        s
    }
}

/// `s` without the white space around it.
pub open spec fn trim(s: Seq<char>) -> Seq<char> {
    trim_end(trim_start(s))
}

/// The characters of `s` without the white space it begins with.
pub fn trimmed_start(s: &[char]) -> (r: &[char])
    ensures
        r@ == trim_start(s@),
        r@.len() <= s@.len(),
{
    let mut i: usize = 0;
    assert(s@.subrange(0, s@.len() as int) =~= s@);
    while i < s.len() && whitespace(s[i])
        invariant
            i <= s@.len(),
            trim_start(s@) == trim_start(s@.subrange(i as int, s@.len() as int)),
        decreases s@.len() - i,
    {
        assert(s@.subrange(i as int, s@.len() as int).drop_first() =~= s@.subrange(
            i + 1,
            s@.len() as int,
        ));
        i += 1;
    }
    let r: &[char] = vstd::slice::slice_subrange(s, i, s.len());
    r
}

/// The characters of `s` without the white space around it.
pub fn trimmed(s: &[char]) -> (r: &[char])
    ensures
        r@ == trim(s@),
{
    let t: &[char] = trimmed_start(s);
    let mut n: usize = t.len();
    assert(t@.subrange(0, n as int) =~= t@);
    while n > 0 && whitespace(t[n - 1])
        invariant
            n <= t@.len(),
            trim_end(t@) == trim_end(t@.subrange(0, n as int)),
        decreases n,
    {
        assert(t@.subrange(0, n as int).drop_last() =~= t@.subrange(0, n - 1));
        assert(t@.subrange(0, n as int).last() == t@[n - 1]);
        n -= 1;
    }
    let r: &[char] = vstd::slice::slice_subrange(t, 0, n);
    proof {
        if n > 0 {
            assert(r@.last() == t@[n - 1]);
        }
    }
    r
}

/// The length of the word `s` begins with.
pub open spec fn word_len(s: Seq<char>) -> nat
    decreases s.len(),
{
    if s.len() == 0 || is_space(s[0]) {
        0
    } else {
        1 + word_len(s.drop_first())
    }
}

/// The `n`th word of `s`, counted from zero, words being what white space separates.
pub open spec fn word(s: Seq<char>, n: nat) -> Option<Seq<char>>
    decreases n,
{
    let t = trim_start(s);
    let len = word_len(t) as int;
    if t.len() == 0 {
        None
    } else if n == 0 {
        Some(t.subrange(0, len))
    } else {
        word(t.subrange(len, t.len() as int), (n - 1) as nat)
    }
}

/// The length of the word `s` begins with.
fn first_word_len(s: &[char]) -> (n: usize)
    ensures
        n == word_len(s@),
        n <= s@.len(),
{
    let mut i: usize = 0;
    assert(s@.subrange(0, s@.len() as int) =~= s@);
    while i < s.len() && !whitespace(s[i])
        invariant
            i <= s@.len(),
            word_len(s@) == i + word_len(s@.subrange(i as int, s@.len() as int)),
        decreases s@.len() - i,
    {
        assert(s@.subrange(i as int, s@.len() as int).drop_first() =~= s@.subrange(
            i + 1,
            s@.len() as int,
        ));
        i += 1;
    }
    i
}

/// The `n`th word of `s`, counted from zero.
pub fn nth_word(s: &[char], n: usize) -> (r: Option<&[char]>)
    ensures
        match word(s@, n as nat) {
            Some(w) => r matches Some(found) && found@ == w,
            None => r is None,
        },
{
    let mut left: usize = n;
    let mut rest: &[char] = s;
    loop
        invariant
            left <= n,
            word(s@, n as nat) == word(rest@, left as nat),
        decreases left,
    {
        let t: &[char] = trimmed_start(rest);
        if t.len() == 0 {
            return None;
        }
        let len: usize = first_word_len(t);
        if left == 0 {
            let found: &[char] = vstd::slice::slice_subrange(t, 0, len);
            return Some(found);
        }
        rest = vstd::slice::slice_subrange(t, len, t.len());
        left -= 1;
    }
}

// ---------------------------------------------------------------------------
// Length in bytes
// ---------------------------------------------------------------------------

/// How many bytes a character takes in UTF-8.
pub open spec fn char_len(c: char) -> nat {
    if c as u32 <= 0x7f {
        1
    } else if c as u32 <= 0x7ff {
        2
    } else if c as u32 <= 0xffff {
        3
    } else {
        4
    }
}

/// How many bytes a text takes in UTF-8.
pub open spec fn byte_len(s: Seq<char>) -> nat
    decreases s.len(),
{
    if s.len() == 0 {
        0
    } else {
        byte_len(s.drop_last()) + char_len(s.last())
    }
}

/// How many characters of `s` fit whole into `max` bytes.
pub open spec fn fitting(s: Seq<char>, max: nat) -> nat
    decreases s.len(),
{
    if byte_len(s) <= max {
        s.len()
    } else {
        fitting(s.drop_last(), max)
    }
}

/// The longest prefix of `s` that takes at most `max` bytes, cut between characters.
pub open spec fn cut(s: Seq<char>, max: nat) -> Seq<char> {
    s.take(fitting(s, max) as int)
}

/// A longer text takes more bytes.
pub(crate) proof fn lemma_byte_len_grows(s: Seq<char>, j: int, k: int)
    requires
        0 <= j <= k <= s.len(),
    ensures
        byte_len(s.take(j)) + (k - j) <= byte_len(s.take(k)),
    decreases k - j,
{
    if j < k {
        lemma_byte_len_grows(s, j, k - 1);
        assert(s.take(k).drop_last() =~= s.take(k - 1));
    }
}

/// The cut is what it is said to be: it fits, and one character more would not.
pub(crate) proof fn lemma_cut(s: Seq<char>, max: nat)
    ensures
        fitting(s, max) <= s.len(),
        byte_len(cut(s, max)) <= max,
        fitting(s, max) < s.len() ==> byte_len(s.take(fitting(s, max) as int + 1)) > max,
        byte_len(s) <= max ==> cut(s, max) == s,
    decreases s.len(),
{
    if byte_len(s) <= max {
        assert(s.take(s.len() as int) =~= s);
    } else {
        let t = s.drop_last();
        lemma_cut(t, max);
        let n = fitting(t, max) as int;
        assert(s.take(n) =~= t.take(n));
        if n == t.len() {
            assert(s.take(n + 1) =~= s);
        } else {
            assert(s.take(n + 1) =~= t.take(n + 1));
        }
    }
}

/// The encoding of two texts is their encodings.
pub(crate) proof fn lemma_encode_concat(a: Seq<char>, b: Seq<char>)
    ensures
        encode_utf8(a + b) == encode_utf8(a) + encode_utf8(b),
    decreases a.len(),
{
    if a.len() == 0 {
        assert(a + b =~= b);
        assert(encode_utf8(a) + encode_utf8(b) =~= encode_utf8(b));
    } else {
        lemma_encode_concat(a.drop_first(), b);
        assert((a + b).drop_first() =~= a.drop_first() + b);
        assert(encode_utf8(a + b) =~= encode_scalar(a[0] as u32) + (encode_utf8(a.drop_first())
            + encode_utf8(b)));
        assert(encode_utf8(a) + encode_utf8(b) =~= encode_scalar(a[0] as u32) + (encode_utf8(
            a.drop_first(),
        ) + encode_utf8(b)));
    }
}

/// A text takes the bytes its encoding has.
pub(crate) proof fn lemma_byte_len(s: Seq<char>)
    ensures
        byte_len(s) == encode_utf8(s).len(),
    decreases s.len(),
{
    if s.len() > 0 {
        let last = seq![s.last()];
        lemma_byte_len(s.drop_last());
        assert(s =~= s.drop_last() + last);
        lemma_encode_concat(s.drop_last(), last);
        reveal_with_fuel(encode_utf8, 2);
        char_is_scalar(s.last());
        assert(last.drop_first() =~= Seq::empty());
        assert(encode_utf8(last) =~= encode_scalar(s.last() as u32));
    }
}

/// The characters of `s` that fit whole into `max` bytes.
pub fn cut_to(s: &[char], max: usize) -> (r: &[char])
    ensures
        r@ == cut(s@, max as nat),
        byte_len(r@) <= max,
{
    let mut i: usize = 0;
    let mut used: usize = 0;
    proof {
        lemma_cut(s@, max as nat);
        if s@.len() == 0 {
            assert(s@.take(0) =~= s@);
        }
    }
    while i < s.len()
        invariant
            i <= s@.len(),
            used == byte_len(s@.take(i as int)),
            used <= max,
            i == s@.len() ==> byte_len(s@) <= max,
        ensures
            i <= s@.len(),
            i == fitting(s@, max as nat),
        decreases s@.len() - i,
    {
        let u: u32 = s[i] as u32;
        let len: usize = if u <= 0x7f {
            1
        } else if u <= 0x7ff {
            2
        } else if u <= 0xffff {
            3
        } else {
            4
        };
        proof {
            assert(s@.take(i + 1).drop_last() =~= s@.take(i as int));
            lemma_cut(s@, max as nat);
        }
        if len > max - used {
            proof {
                if fitting(s@, max as nat) > i {
                    lemma_byte_len_grows(s@, i + 1, fitting(s@, max as nat) as int);
                } else if fitting(s@, max as nat) < i {
                    lemma_byte_len_grows(s@, fitting(s@, max as nat) as int + 1, i as int);
                }
            }
            break;
        }
        used += len;
        i += 1;
        proof {
            if i == s@.len() {
                assert(s@.take(i as int) =~= s@);
            }
        }
    }
    let r: &[char] = vstd::slice::slice_subrange(s, 0, i);
    assert(r@ =~= s@.take(i as int));
    r
}

// ---------------------------------------------------------------------------
// Pieces
// ---------------------------------------------------------------------------

/// Appends `part`.
pub fn put(out: &mut String, part: &str)
    ensures
        final(out)@ == old(out)@ + part@,
{
    out.append(part);
}

/// Whether two texts are the same.
pub fn same(a: &str, b: &str) -> (r: bool)
    ensures
        r == (a@ == b@),
{
    let a: Vec<char> = chars_of(a);
    let b: Vec<char> = chars_of(b);
    same_chars(a.as_slice(), b.as_slice())
}

/// Whether two rows of characters are the same.
pub fn same_chars(a: &[char], b: &[char]) -> (r: bool)
    ensures
        r == (a@ == b@),
{
    if a.len() != b.len() {
        return false;
    }
    let mut i: usize = 0;
    while i < a.len()
        invariant
            i <= a@.len(),
            a@.len() == b@.len(),
            forall|k: int| 0 <= k < i ==> a@[k] == b@[k],
        decreases a@.len() - i,
    {
        if a[i] != b[i] {
            return false;
        }
        i += 1;
    }
    assert(a@ =~= b@);
    true
}

/// Whether two rows of bytes are the same.
pub fn same_bytes(a: &[u8], b: &[u8]) -> (r: bool)
    ensures
        r == (a@ == b@),
{
    if a.len() != b.len() {
        return false;
    }
    let mut i: usize = 0;
    while i < a.len()
        invariant
            i <= a@.len(),
            a@.len() == b@.len(),
            forall|k: int| 0 <= k < i ==> a@[k] == b@[k],
        decreases a@.len() - i,
    {
        if a[i] != b[i] {
            return false;
        }
        i += 1;
    }
    assert(a@ =~= b@);
    true
}

/// A text of one's own.
pub fn copy_text(text: &str) -> (r: String)
    ensures
        r@ == text@,
{
    let mut out: String = String::new();
    put(&mut out, text);
    assert(out@ =~= text@);
    out
}

/// The characters `bytes` are the UTF-8 encoding of, where they are one.
pub fn decoded_chars(bytes: &[u8]) -> (r: Option<Vec<char>>)
    ensures
        r is Some <==> valid_utf8(bytes@),
        r matches Some(chars) ==> chars@ == decode_utf8(bytes@),
{
    match utf8_text(bytes) {
        Some(text) => {
            proof {
                encode_utf8_decode_utf8(text@);
            }
            Some(chars_of(text))
        },
        None => None,
    }
}

// ---------------------------------------------------------------------------
// Order
// ---------------------------------------------------------------------------

/// Whether `a` stands before `b`, the first character they differ in deciding, and the
/// shorter one where they do not.
pub open spec fn precedes(a: Seq<char>, b: Seq<char>) -> bool
    decreases a.len(),
{
    if b.len() == 0 {
        false
    } else if a.len() == 0 {
        true
    } else if a[0] == b[0] {
        precedes(a.drop_first(), b.drop_first())
    } else {
        a[0] < b[0]
    }
}

/// Nothing stands before itself.
pub(crate) proof fn lemma_precedes_irreflexive(a: Seq<char>)
    ensures
        !precedes(a, a),
    decreases a.len(),
{
    if a.len() > 0 {
        lemma_precedes_irreflexive(a.drop_first());
    }
}

/// What stands before something stands before what follows that.
pub(crate) proof fn lemma_precedes_transitive(a: Seq<char>, b: Seq<char>, c: Seq<char>)
    requires
        precedes(a, b),
        precedes(b, c),
    ensures
        precedes(a, c),
    decreases a.len(),
{
    if a.len() > 0 && a[0] == b[0] && b[0] == c[0] {
        lemma_precedes_transitive(a.drop_first(), b.drop_first(), c.drop_first());
    }
}

/// Of two different texts one stands before the other.
pub(crate) proof fn lemma_precedes_total(a: Seq<char>, b: Seq<char>)
    requires
        a != b,
    ensures
        precedes(a, b) || precedes(b, a),
    decreases a.len(),
{
    if a.len() > 0 && b.len() > 0 {
        if a[0] == b[0] {
            assert(a.drop_first() != b.drop_first()) by {
                if a.drop_first() == b.drop_first() {
                    assert(a =~= seq![a[0]] + a.drop_first());
                    assert(b =~= seq![b[0]] + b.drop_first());
                }
            }
            lemma_precedes_total(a.drop_first(), b.drop_first());
        }
    } else if a.len() == 0 && b.len() == 0 {
        assert(a =~= b);
    }
}

/// Whether `a` stands before `b`.
pub fn stands_before(a: &str, b: &str) -> (r: bool)
    ensures
        r == precedes(a@, b@),
{
    let left: Vec<char> = chars_of(a);
    let right: Vec<char> = chars_of(b);
    let mut i: usize = 0;
    assert(a@.skip(0) =~= a@);
    assert(b@.skip(0) =~= b@);
    while i < left.len() && i < right.len()
        invariant
            left@ == a@,
            right@ == b@,
            i <= a@.len(),
            i <= b@.len(),
            precedes(a@, b@) == precedes(a@.skip(i as int), b@.skip(i as int)),
        decreases a@.len() - i,
    {
        let x: char = left[i];
        let y: char = right[i];
        if x != y {
            return x < y;
        }
        assert(a@.skip(i as int).drop_first() =~= a@.skip(i + 1));
        assert(b@.skip(i as int).drop_first() =~= b@.skip(i + 1));
        i += 1;
    }
    i < right.len()
}

// ---------------------------------------------------------------------------
// Text of other people's
// ---------------------------------------------------------------------------

/// The text [`String::from_utf8_lossy`] makes of any bytes.
pub uninterp spec fn lossy(bytes: Seq<u8>) -> Seq<char>;

/// The text of `bytes`, what is not UTF-8 in them replaced.
///
/// Rests on [`String::from_utf8_lossy`]: what it makes of the bytes depends on nothing but
/// them, and bytes that are UTF-8 come back as the text they are. Which characters stand
/// for the bytes that are not is not said.
#[verifier::external_body]
pub(crate) fn lossy_text(bytes: &[u8]) -> (r: String)
    ensures
        r@ == lossy(bytes@),
        valid_utf8(bytes@) ==> r@ == decode_utf8(bytes@),
{
    String::from_utf8_lossy(bytes).into_owned()
}

/// The text `str::escape_debug` makes of any text.
pub uninterp spec fn escaped(text: Seq<char>) -> Seq<char>;

/// `text` with what a terminal would act on escaped.
///
/// Rests on [`str::escape_debug`]: what it makes of a text depends on nothing but the
/// text. Which characters it escapes, and as what, is not said.
#[verifier::external_body]
pub(crate) fn escaped_text(text: &str) -> (r: String)
    ensures
        r@ == escaped(text@),
{
    text.escape_debug().collect()
}

/// The text the `Debug` format of `str` makes of any text.
pub uninterp spec fn quoted(text: Seq<char>) -> Seq<char>;

/// `text` in double quotes, what a terminal would act on escaped.
///
/// Rests on the `Debug` implementation of [`str`]: what it makes of a text depends on
/// nothing but the text. Which characters it escapes, and as what, is not said.
#[verifier::external_body]
pub(crate) fn quoted_text(text: &str) -> (r: String)
    ensures
        r@ == quoted(text@),
{
    format!("{text:?}")
}

// ---------------------------------------------------------------------------
// Laws
// ---------------------------------------------------------------------------

/// The digits of a number are digits, and spell it.
pub(crate) proof fn lemma_digits_spell(n: nat)
    ensures
        all_digits(digits(n, 10)),
        value(digits(n, 10)) == n,
    decreases n,
{
    if n < 10 {
        let s = digits(n, 10);
        assert(s =~= seq![digit_char(n as int)]);
        assert(s.drop_last() =~= Seq::<char>::empty());
        reveal_with_fuel(value, 2);
        assert(s.last() as u32 == n + 0x30);
    } else {
        let rest = digits(n / 10, 10);
        let last = digit_char((n % 10) as int);
        lemma_digits_spell(n / 10);
        let s = digits(n, 10);
        assert(s == rest.push(last));
        assert(s.drop_last() =~= rest);
        assert(last as u32 == n % 10 + 0x30);
        assert forall|i: int| 0 <= i < s.len() implies is_digit(#[trigger] s[i]) by {
            if i < rest.len() {
                assert(s[i] == rest[i]);
            }
        }
    }
}

/// A number reads back as the number that was written.
pub proof fn numbers_read_back(n: nat)
    ensures
        unsigned(digits(n, 10)) == Some(n),
        integer(digits(n, 10)) == Some(n as int),
{
    lemma_digits_spell(n);
    let s = digits(n, 10);
    assert(is_digit(s[0]));
}

/// White space behind a text that has none at either end is all that trimming takes.
pub(crate) proof fn lemma_trim_behind(s: Seq<char>, c: char)
    requires
        s.len() > 0,
        !is_space(s[0]),
        !is_space(s.last()),
        is_space(c),
    ensures
        trim(s.push(c)) == s,
{
    let t = s.push(c);
    assert(t[0] == s[0]);
    assert(t.drop_last() =~= s);
    reveal_with_fuel(trim_end, 3);
}

/// White space is what Unicode calls so, and no other character is.
pub proof fn white_space_is_what_unicode_calls_so(c: char)
    ensures
        is_space(c) <==> seq![
            0x9u32, 0xau32, 0xbu32, 0xcu32, 0xdu32, 0x20u32, 0x85u32, 0xa0u32, 0x1680u32,
            0x2000u32, 0x2001u32, 0x2002u32, 0x2003u32, 0x2004u32, 0x2005u32, 0x2006u32,
            0x2007u32, 0x2008u32, 0x2009u32, 0x200au32, 0x2028u32, 0x2029u32, 0x202fu32,
            0x205fu32, 0x3000u32,
        ].contains(c as u32),
{
    let all = seq![
        0x9u32, 0xau32, 0xbu32, 0xcu32, 0xdu32, 0x20u32, 0x85u32, 0xa0u32, 0x1680u32, 0x2000u32,
        0x2001u32, 0x2002u32, 0x2003u32, 0x2004u32, 0x2005u32, 0x2006u32, 0x2007u32, 0x2008u32,
        0x2009u32, 0x200au32, 0x2028u32, 0x2029u32, 0x202fu32, 0x205fu32, 0x3000u32,
    ];
    let u = c as u32;
    if is_space(c) {
        let at: int = if u <= 0xd {
            u - 0x9
        } else if u == 0x20 {
            5
        } else if u == 0x85 {
            6
        } else if u == 0xa0 {
            7
        } else if u == 0x1680 {
            8
        } else if u <= 0x200a {
            9 + (u - 0x2000)
        } else if u == 0x2028 {
            20
        } else if u == 0x2029 {
            21
        } else if u == 0x202f {
            22
        } else if u == 0x205f {
            23
        } else {
            24
        };
        assert(all[at] == u);
    }
}

/// Every character is white space.
pub open spec fn all_space(s: Seq<char>) -> bool {
    forall|i: int| 0 <= i < s.len() ==> is_space(#[trigger] s[i])
}

/// No character is white space.
pub open spec fn no_space(s: Seq<char>) -> bool {
    forall|i: int| 0 <= i < s.len() ==> !is_space(#[trigger] s[i])
}

/// White space in front is passed over.
proof fn lemma_trim_start_passes(gap: Seq<char>, s: Seq<char>)
    requires
        all_space(gap),
        s.len() > 0 ==> !is_space(s[0]),
    ensures
        trim_start(gap + s) == s,
    decreases gap.len(),
{
    if gap.len() == 0 {
        assert(gap + s =~= s);
    } else {
        assert((gap + s)[0] == gap[0]);
        assert((gap + s).drop_first() =~= gap.drop_first() + s);
        lemma_trim_start_passes(gap.drop_first(), s);
    }
}

/// White space behind is passed over.
proof fn lemma_trim_end_passes(s: Seq<char>, gap: Seq<char>)
    requires
        all_space(gap),
        s.len() > 0 ==> !is_space(s.last()),
    ensures
        trim_end(s + gap) == s,
    decreases gap.len(),
{
    if gap.len() == 0 {
        assert(s + gap =~= s);
    } else {
        assert((s + gap).last() == gap.last());
        assert((s + gap).drop_last() =~= s + gap.drop_last());
        lemma_trim_end_passes(s, gap.drop_last());
    }
}

/// Trimming takes the white space around a text and nothing else of it.
pub proof fn trimming_takes_what_surrounds(before: Seq<char>, s: Seq<char>, after: Seq<char>)
    requires
        all_space(before),
        all_space(after),
        s.len() > 0 ==> !is_space(s[0]) && !is_space(s.last()),
    ensures
        trim(before + s + after) == s,
{
    if s.len() == 0 {
        assert(before + s + after =~= (before + after) + Seq::<char>::empty());
        assert forall|i: int| 0 <= i < (before + after).len() implies is_space(
            #[trigger] (before + after)[i],
        ) by {
            if i >= before.len() {
                assert((before + after)[i] == after[i - before.len()]);
            }
        }
        lemma_trim_start_passes(before + after, Seq::<char>::empty());
        assert(s =~= Seq::<char>::empty());
    } else {
        assert(before + s + after =~= before + (s + after));
        lemma_trim_start_passes(before, s + after);
        lemma_trim_end_passes(s, after);
    }
}

/// A word is as long as it is up to the next white space.
proof fn lemma_word_len(w: Seq<char>, rest: Seq<char>)
    requires
        no_space(w),
        rest.len() > 0 ==> is_space(rest[0]),
    ensures
        word_len(w + rest) == w.len(),
    decreases w.len(),
{
    if w.len() == 0 {
        assert(w + rest =~= rest);
    } else {
        assert((w + rest)[0] == w[0]);
        assert((w + rest).drop_first() =~= w.drop_first() + rest);
        lemma_word_len(w.drop_first(), rest);
    }
}

/// Words are what white space separates, counted from the first.
pub proof fn words_are_what_white_space_separates(
    gap: Seq<char>,
    w: Seq<char>,
    rest: Seq<char>,
    n: nat,
)
    requires
        all_space(gap),
        w.len() > 0,
        no_space(w),
        rest.len() > 0 ==> is_space(rest[0]),
    ensures
        word(gap + w + rest, 0) == Some(w),
        word(gap + w + rest, n + 1) == word(rest, n),
        word(gap, n) is None,
{
    assert(gap + w + rest =~= gap + (w + rest));
    lemma_trim_start_passes(gap, w + rest);
    lemma_word_len(w, rest);
    assert((w + rest).subrange(0, w.len() as int) =~= w);
    assert((w + rest).subrange(w.len() as int, (w + rest).len() as int) =~= rest);
    lemma_trim_start_passes(gap, Seq::<char>::empty());
    assert(gap + Seq::<char>::empty() =~= gap);
}

/// A number is decimal digits behind at most one sign, and each digit behind it counts ten
/// times what came before and itself; anything else is none.
pub proof fn a_number_is_digits_behind_at_most_one_sign(d: Seq<char>, c: char, digit: nat)
    ensures
        all_digits(d) ==> {
            &&& unsigned(d) is Some
            &&& unsigned(seq!['+'] + d) == unsigned(d)
            &&& integer(d) == Some(unsigned(d)->0 as int)
            &&& integer(seq!['+'] + d) == integer(d)
            &&& integer(seq!['-'] + d) == Some(-(unsigned(d)->0))
            &&& unsigned(seq!['-'] + d) is None
        },
        all_digits(d) && digit < 10 && c as u32 == 0x30 + digit ==> unsigned(d.push(c)) == Some(
            unsigned(d)->0 * 10 + digit,
        ),
        digit < 10 && c as u32 == 0x30 + digit ==> unsigned(seq![c]) == Some(digit),
        (exists|i: int| 1 <= i < d.len() && !(0x30 <= #[trigger] d[i] as u32 <= 0x39)) ==> unsigned(
            d,
        ) is None && integer(d) is None,
        d.len() == 0 ==> unsigned(d) is None && integer(d) is None,
{
    assert((seq!['+'] + d).drop_first() =~= d);
    assert((seq!['-'] + d).drop_first() =~= d);
    assert(d.push(c).drop_last() =~= d);
    assert(seq![c].drop_last() =~= Seq::<char>::empty());
    reveal_with_fuel(value, 2);
    if all_digits(d) {
        assert(is_digit(d[0]));
        assert((seq!['-'] + d)[0] == '-');
        if digit < 10 && c as u32 == 0x30 + digit {
            assert forall|i: int| 0 <= i < d.push(c).len() implies is_digit(
                #[trigger] d.push(c)[i],
            ) by {
                if i < d.len() {
                    assert(d.push(c)[i] == d[i]);
                }
            }
            assert(d.push(c)[0] == d[0]);
        }
    }
    if exists|i: int| 1 <= i < d.len() && !(0x30 <= #[trigger] d[i] as u32 <= 0x39) {
        let i = choose|i: int| 1 <= i < d.len() && !(0x30 <= #[trigger] d[i] as u32 <= 0x39);
        assert(!is_digit(d[i]));
        assert(d.drop_first()[i - 1] == d[i]);
    }
}

/// A signed number reads back as the number that was written.
pub proof fn signed_numbers_read_back(n: int)
    ensures
        integer(signed_digits(n)) == Some(n),
{
    if n < 0 {
        reveal_strlit("-");
        let d = digits((-n) as nat, 10);
        lemma_digits_spell((-n) as nat);
        assert(signed_digits(n).drop_first() =~= d);
        assert(signed_digits(n)[0] == '-');
    } else {
        numbers_read_back(n as nat);
    }
}

/// What is kept of a text that must fit is its beginning, whole characters of it, and as
/// many as fit: all of them where they do.
pub proof fn a_cut_keeps_as_much_as_fits(s: Seq<char>, max: nat)
    ensures
        cut(s, max).is_prefix_of(s),
        encode_utf8(cut(s, max)).len() <= max,
        encode_utf8(s).len() <= max ==> cut(s, max) == s,
        cut(s, max).len() < s.len() ==> encode_utf8(s.take(cut(s, max).len() as int + 1)).len() > max,
{
    lemma_cut(s, max);
    lemma_byte_len(cut(s, max));
    lemma_byte_len(s);
    if cut(s, max).len() < s.len() {
        lemma_byte_len(s.take(cut(s, max).len() as int + 1));
    }
}

/// Texts are listed by the first character they differ in, by its number, and one that another
/// begins with before that other.
pub proof fn texts_stand_in_the_order_of_their_characters(
    shared: Seq<char>,
    c: char,
    more: Seq<char>,
    d: char,
    other: Seq<char>,
)
    requires
        c as u32 != d as u32,
    ensures
        precedes(shared + (seq![c] + more), shared + (seq![d] + other)) <==> (c as u32) < (
        d as u32),
        precedes(shared, shared + (seq![c] + more)),
        !precedes(shared + (seq![c] + more), shared),
    decreases shared.len(),
{
    let a = shared + (seq![c] + more);
    let b = shared + (seq![d] + other);
    if shared.len() == 0 {
        assert(a[0] == c && b[0] == d);
        assert(a =~= seq![c] + more);
    } else {
        let rest = shared.drop_first();
        assert(a.drop_first() =~= rest + (seq![c] + more));
        assert(b.drop_first() =~= rest + (seq![d] + other));
        assert(a[0] == shared[0] && b[0] == shared[0]);
        texts_stand_in_the_order_of_their_characters(rest, c, more, d, other);
    }
}

} // verus!
