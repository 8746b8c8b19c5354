//! Text primitives: comparing text, and reading the integer, boolean and
//! floating-point literals that appear in configuration documents.

use vstd::prelude::*;
use vstd::utf8::{encode_utf8, encode_utf8_decode_utf8, is_ascii_chars, is_ascii_chars_encode_utf8};

verus! {

/// The bytes that a piece of text occupies in a document.
pub open spec fn bytes_of(text: Seq<char>) -> Seq<u8> {
    encode_utf8(text)
}

/// Two texts with the same bytes are the same text.
pub proof fn lemma_bytes_of_injective(a: Seq<char>, b: Seq<char>)
    requires
        bytes_of(a) == bytes_of(b),
    ensures
        a == b,
{
    encode_utf8_decode_utf8(a);
    encode_utf8_decode_utf8(b);
}

/// The bytes of ASCII text are its characters, one byte each.
pub proof fn lemma_ascii_bytes(s: Seq<char>)
    requires
        is_ascii_chars(s),
    ensures
        bytes_of(s).len() == s.len(),
        forall|i: int| 0 <= i < s.len() ==> (#[trigger] bytes_of(s)[i]) == s[i] as u8,
        forall|i: int| 0 <= i < s.len() ==> (#[trigger] s[i]) as int == bytes_of(s)[i] as int,
{
    is_ascii_chars_encode_utf8(s);
    vstd::utf8::is_ascii_chars_nat_bound(s);
    assert forall|i: int| 0 <= i < s.len() implies (#[trigger] s[i]) as int == bytes_of(s)[i] as int by {
        assert(bytes_of(s)[i] == s[i] as u8);
        assert((s[i] as nat) < 128);
    }
}

/// Whether the bytes `left` and `right` are equal.
pub fn bytes_eq(left: &[u8], right: &[u8]) -> (r: bool)
    ensures
        r == (left@ == right@),
{
    if left.len() != right.len() {
        return false;
    }
    let mut i: usize = 0;
    while i < left.len()
        invariant
            left.len() == right.len(),
            i <= left.len(),
            forall|k: int| 0 <= k < i ==> left@[k] == right@[k],
        decreases left.len() - i,
    {
        if left[i] != right[i] {
            return false;
        }
        i += 1;
    }
    assert(left@ =~= right@);
    true
}

/// Whether two pieces of text hold the same characters.
pub fn text_eq(a: &str, b: &str) -> (r: bool)
    ensures
        r == (a@ == b@),
{
    proof {
        if bytes_of(a@) == bytes_of(b@) {
            lemma_bytes_of_injective(a@, b@);
        }
    }
    bytes_eq(a.as_bytes(), b.as_bytes())
}

/// Whether `name` holds exactly the bytes of `text`.
pub fn bytes_are(name: &[u8], text: &str) -> (r: bool)
    ensures
        r == (name@ == bytes_of(text@)),
{
    bytes_eq(name, text.as_bytes())
}

/// Whether the bytes `needle` stand in `hay` at `at`.
pub open spec fn stands_at(hay: Seq<u8>, at: int, needle: Seq<u8>) -> bool {
    0 <= at && at + needle.len() <= hay.len() && hay.subrange(at, at + needle.len()) == needle
}

/// Whether the bytes `needle` stand somewhere in `hay`.
pub open spec fn occurs(hay: Seq<u8>, needle: Seq<u8>) -> bool {
    exists|at: int| stands_at(hay, at, needle)
}

/// Whether the bytes `needle` stand in `hay` at `at`.
pub fn starts_at(hay: &[u8], at: usize, needle: &[u8]) -> (r: bool)
    ensures
        r == stands_at(hay@, at as int, needle@),
{
    let n = needle.len();
    if at > hay.len() || n > hay.len() - at {
        return false;
    }
    let h = hay.len();
    let mut k: usize = 0;
    while k < n
        invariant
            n == needle@.len(),
            h == hay@.len(),
            at + n <= h,
            k <= n,
            forall|j: int| 0 <= j < k ==> hay@[at + j] == needle@[j],
        decreases n - k,
    {
        if hay[at + k] != needle[k] {
            assert(hay@.subrange(at as int, at + n)[k as int] != needle@[k as int]);
            return false;
        }
        k += 1;
    }
    assert(hay@.subrange(at as int, at + n) =~= needle@);
    true
}

/// Whether the bytes `needle` stand somewhere in `hay`.
pub fn contains_bytes(hay: &[u8], needle: &[u8]) -> (r: bool)
    ensures
        r == occurs(hay@, needle@),
{
    if needle.len() == 0 {
        assert(hay@.subrange(0, 0) =~= needle@);
        assert(stands_at(hay@, 0, needle@));
        return true;
    }
    let h = hay.len();
    let mut at: usize = 0;
    while at < h
        invariant
            h == hay@.len(),
            at <= h,
            needle@.len() > 0,
            forall|k: int| 0 <= k < at ==> !stands_at(hay@, k, needle@),
        decreases h - at,
    {
        if starts_at(hay, at, needle) {
            return true;
        }
        at += 1;
    }
    false
}

/// Whether `c` is one of the ten decimal digits.
pub open spec fn is_digit(c: char) -> bool {
    '0' <= c <= '9'
}

/// The number that the digit `c` stands for.
pub open spec fn digit_value(c: char) -> nat {
    (c as int - 48) as nat
}

/// Whether every character of `s` is a decimal digit.
pub open spec fn all_digits(s: Seq<char>) -> bool {
    forall|i: int| 0 <= i < s.len() ==> is_digit(#[trigger] s[i])
}

/// The number written by the decimal digits `s`, most significant first.
pub open spec fn digits_value(s: Seq<char>) -> nat
    decreases s.len(),
{
    if s.len() == 0 {
        0
    } else {
        10 * digits_value(s.drop_last()) + digit_value(s.last())
    }
}

/// The digits of an integer literal: the text without its optional `+`.
pub open spec fn unsigned_part(s: Seq<char>) -> Seq<char> {
    if s.len() > 0 && s[0] == '+' {
        s.skip(1)
    } else {
        s
    }
}

/// The integer that `s` denotes: an optional `+`, then at least one decimal
/// digit, with a value that fits 32 bits. Anything else denotes nothing.
pub open spec fn int_of_text(s: Seq<char>) -> Option<u32> {
    let body = unsigned_part(s);
    if body.len() > 0 && all_digits(body) && digits_value(body) <= u32::MAX {
        Some(digits_value(body) as u32)
    } else {
        None
    }
}

/// The character that writes the digit `d`.
pub open spec fn digit_char(d: nat) -> char {
    ((48 + d) as u8) as char
}

/// The decimal text of `n`, without sign or leading zeros.
pub open spec fn text_of_int(n: nat) -> Seq<char>
    decreases n,
{
    if n < 10 {
        seq![digit_char(n)]
    } else {
        text_of_int(n / 10).push(digit_char(n % 10))
    }
}

/// The boolean that `s` denotes: exactly `true` or `false`.
pub open spec fn bool_of_text(s: Seq<char>) -> Option<bool> {
    if s == "true"@ {
        Some(true)
    } else if s == "false"@ {
        Some(false)
    } else {
        None
    }
}

/// The text of a boolean.
pub open spec fn text_of_bool(b: bool) -> Seq<char> {
    if b {
        "true"@
    } else {
        "false"@
    }
}

/// A longer run of digits never denotes a smaller number than its prefix.
pub proof fn lemma_digits_value_prefix(s: Seq<char>, k: int)
    requires
        0 <= k <= s.len(),
    ensures
        digits_value(s.take(k)) <= digits_value(s),
    decreases s.len() - k,
{
    if k == s.len() {
        assert(s.take(k) =~= s);
    } else {
        lemma_digits_value_prefix(s, k + 1);
        assert(s.take(k + 1).drop_last() =~= s.take(k));
    }
}

/// The decimal text of a number is made of digits and denotes that number.
pub proof fn lemma_text_of_int(n: nat)
    ensures
        text_of_int(n).len() > 0,
        all_digits(text_of_int(n)),
        digits_value(text_of_int(n)) == n,
    decreases n,
{
    if n < 10 {
        let s = text_of_int(n);
        assert(s.drop_last() =~= Seq::<char>::empty());
        assert(digits_value(s.drop_last()) == 0);
        assert(s.last() == digit_char(n));
    } else {
        lemma_text_of_int(n / 10);
        let s = text_of_int(n);
        assert(s.drop_last() =~= text_of_int(n / 10));
        assert(s.last() == digit_char(n % 10));
        assert forall|i: int| 0 <= i < s.len() implies is_digit(#[trigger] s[i]) by {
            if i < s.len() - 1 {
                assert(s[i] == text_of_int(n / 10)[i]);
            }
        }
    }
}

/// Reading back the decimal text of a 32-bit number gives that number.
pub proof fn lemma_int_round_trip(n: u32)
    ensures
        int_of_text(text_of_int(n as nat)) == Some(n),
{
    lemma_text_of_int(n as nat);
    let s = text_of_int(n as nat);
    assert(is_digit(s[0]));
    assert(s[0] != '+');
}

/// Reading back the text of a boolean gives that boolean.
pub proof fn lemma_bool_round_trip(b: bool)
    ensures
        bool_of_text(text_of_bool(b)) == Some(b),
{
    reveal_strlit("true");
    reveal_strlit("false");
    assert("true"@.len() != "false"@.len());
}

/// Reads a 32-bit unsigned integer literal.
pub fn parse_int(s: &str) -> (r: Option<u32>)
    ensures
        r == int_of_text(s@),
{
    let ghost body = unsigned_part(s@);
    if !s.is_ascii() {
        proof {
            lemma_non_ascii_is_no_int(s@);
        }
        return None;
    }
    let bytes = s.as_bytes();
    proof {
        lemma_ascii_bytes(s@);
    }
    let n = bytes.len();
    let start: usize = if n > 0 && bytes[0] == 43 {
        1
    } else {
        0
    };
    assert(body.len() == n - start);
    if start == n {
        return None;
    }
    let mut acc: u64 = 0;
    let mut i: usize = start;
    while i < n
        invariant
            start <= i <= n,
            n == bytes@.len(),
            n == s@.len(),
            body == unsigned_part(s@),
            body.len() == n - start,
            forall|k: int| 0 <= k < n ==> (#[trigger] s@[k]) as int == bytes@[k] as int,
            forall|k: int| 0 <= k < body.len() ==> body[k] == s@[k + start],
            all_digits(body.take(i - start)),
            acc == digits_value(body.take(i - start)),
            acc <= u32::MAX,
        decreases n - i,
    {
        let b = bytes[i];
        let ghost c = body[i - start];
        assert(c == s@[i as int]);
        assert(c as int == b as int);
        if b < 48 || b > 57 {
            assert(!is_digit(body[i - start]));
            return None;
        }
        let next: u64 = acc * 10 + (b - 48) as u64;
        proof {
            let t = body.take(i - start + 1);
            assert(t.drop_last() =~= body.take(i - start));
            assert(t.last() == c);
            assert(digits_value(t) == next);
            assert forall|k: int| 0 <= k < t.len() implies is_digit(#[trigger] t[k]) by {
                if k < i - start {
                    assert(t[k] == body.take(i - start)[k]);
                }
            }
        }
        if next > 0xffff_ffff {
            proof {
                lemma_digits_value_prefix(body, i - start + 1);
            }
            return None;
        }
        acc = next;
        i += 1;
    }
    assert(body.take(i - start) =~= body);
    Some(acc as u32)
}

/// Text with a character outside ASCII is no integer literal.
proof fn lemma_non_ascii_is_no_int(s: Seq<char>)
    requires
        !is_ascii_chars(s),
    ensures
        int_of_text(s) is None,
{
    let body = unsigned_part(s);
    if body.len() > 0 && all_digits(body) {
        assert forall|i: int| 0 <= i < s.len() implies '\0' <= #[trigger] s[i] <= '\u{7f}' by {
            if s[0] == '+' {
                if i > 0 {
                    assert(body[i - 1] == s[i]);
                    assert(is_digit(body[i - 1]));
                }
            } else {
                assert(body[i] == s[i]);
                assert(is_digit(body[i]));
            }
        }
        assert(is_ascii_chars(s));
    }
}

/// Reads a boolean literal.
pub fn parse_bool(s: &str) -> (r: Option<bool>)
    ensures
        r == bool_of_text(s@),
{
    if text_eq(s, "true") {
        Some(true)
    } else if text_eq(s, "false") {
        Some(false)
    } else {
        None
    }
}

/// The text of one decimal digit.
fn digit_text(d: u32) -> (r: &'static str)
    requires
        d < 10,
    ensures
        r@ == seq![digit_char(d as nat)],
{
    proof {
        reveal_strlit("0");
        reveal_strlit("1");
        reveal_strlit("2");
        reveal_strlit("3");
        reveal_strlit("4");
        reveal_strlit("5");
        reveal_strlit("6");
        reveal_strlit("7");
        reveal_strlit("8");
        reveal_strlit("9");
    }
    let r = if d == 0 {
        "0"
    } else if d == 1 {
        "1"
    } else if d == 2 {
        "2"
    } else if d == 3 {
        "3"
    } else if d == 4 {
        "4"
    } else if d == 5 {
        "5"
    } else if d == 6 {
        "6"
    } else if d == 7 {
        "7"
    } else if d == 8 {
        "8"
    } else {
        "9"
    };
    assert(r@ =~= seq![digit_char(d as nat)]);
    r
}

/// Writes a 32-bit unsigned integer in decimal.
pub fn int_text(n: u32) -> (r: String)
    ensures
        r@ == text_of_int(n as nat),
    decreases n,
{
    if n < 10 {
        String::from_str(digit_text(n))
    } else {
        let head = int_text(n / 10);
        let r = head.concat(digit_text(n % 10));
        assert(r@ =~= text_of_int(n as nat));
        r
    }
}

/// Writes a boolean.
pub fn bool_text(b: bool) -> (r: &'static str)
    ensures
        r@ == text_of_bool(b),
{
    if b {
        "true"
    } else {
        "false"
    }
}

/// Whether the byte `b` is an ASCII decimal digit.
pub open spec fn is_digit_byte(b: u8) -> bool {
    48 <= b <= 57
}

/// Whether the byte `b` is `+` or `-`.
pub open spec fn is_sign_byte(b: u8) -> bool {
    b == 43 || b == 45
}

/// The byte `b` with ASCII capitals turned into small letters.
pub open spec fn lower_byte(b: u8) -> u8 {
    if 65 <= b <= 90 {
        (b + 32) as u8
    } else {
        b
    }
}

/// Where the run of decimal digits that starts at `from` ends.
pub open spec fn digits_end(s: Seq<u8>, from: int) -> int
    decreases s.len() - from,
{
    if 0 <= from < s.len() && is_digit_byte(s[from]) {
        digits_end(s, from + 1)
    } else {
        from
    }
}

/// Whether `s`, from `from` on, spells `word` when capitals are ignored.
pub open spec fn spells(s: Seq<u8>, from: int, word: Seq<char>) -> bool {
    &&& s.len() - from == word.len()
    &&& forall|i: int| 0 <= i < word.len() ==> lower_byte(s[from + i]) as int == (#[trigger] word[i]) as int
}

/// Whether `s`, from `at` on, is an exponent: `e` or `E`, an optional sign,
/// and at least one digit up to the end.
pub open spec fn is_exponent(s: Seq<u8>, at: int) -> bool {
    &&& 0 <= at < s.len()
    &&& (s[at] == 101 || s[at] == 69)
    &&& {
        let d = if at + 1 < s.len() && is_sign_byte(s[at + 1]) {
            at + 2
        } else {
            at + 1
        };
        d < s.len() && digits_end(s, d) == s.len()
    }
}

/// Whether `s`, from `from` on, is a decimal number: digits with at most one
/// `.` among them, at least one digit in all, and an optional exponent.
pub open spec fn is_number(s: Seq<u8>, from: int) -> bool {
    let a = digits_end(s, from);
    let dot = a < s.len() && s[a] == 46;
    let b = if dot {
        digits_end(s, a + 1)
    } else {
        a
    };
    let digits = (a - from) + (if dot {
        b - (a + 1)
    } else {
        0
    });
    digits > 0 && (b == s.len() || is_exponent(s, b))
}

/// Whether the bytes `s` are a floating-point literal: an optional sign, then
/// `inf`, `infinity` or `nan` in any mix of capitals, or a decimal number.
pub open spec fn is_double_bytes(s: Seq<u8>) -> bool {
    let from: int = if s.len() > 0 && is_sign_byte(s[0]) {
        1
    } else {
        0
    };
    spells(s, from, "inf"@) || spells(s, from, "infinity"@) || spells(s, from, "nan"@) || is_number(
        s,
        from,
    )
}

/// Whether `s` is the text of a floating-point literal.
pub open spec fn is_double_text(s: Seq<char>) -> bool {
    is_double_bytes(bytes_of(s))
}

/// Finds the end of the run of digits that starts at `from`.
fn scan_digits(bytes: &[u8], from: usize) -> (to: usize)
    requires
        from <= bytes@.len(),
    ensures
        to == digits_end(bytes@, from as int),
        from <= to <= bytes@.len(),
{
    let mut i: usize = from;
    while i < bytes.len() && bytes[i] >= 48 && bytes[i] <= 57
        invariant
            from <= i <= bytes@.len(),
            digits_end(bytes@, i as int) == digits_end(bytes@, from as int),
        decreases bytes@.len() - i,
    {
        i += 1;
    }
    i
}

/// Whether `bytes`, from `from` on, spell the ASCII `word` when capitals are
/// ignored.
fn spells_word(bytes: &[u8], from: usize, word: &str) -> (r: bool)
    requires
        from <= bytes@.len(),
        is_ascii_chars(word@),
    ensures
        r == spells(bytes@, from as int, word@),
{
    let w = word.as_bytes();
    proof {
        lemma_ascii_bytes(word@);
    }
    let n = bytes.len();
    if n - from != w.len() {
        return false;
    }
    let mut i: usize = 0;
    while i < w.len()
        invariant
            n == bytes@.len(),
            from <= bytes@.len(),
            bytes@.len() - from == w@.len(),
            w@.len() == word@.len(),
            i <= w@.len(),
            forall|k: int| 0 <= k < word@.len() ==> (#[trigger] word@[k]) as int == w@[k] as int,
            forall|k: int| 0 <= k < i ==> lower_byte(bytes@[from + k]) as int == (#[trigger] word@[k]) as int,
        decreases w@.len() - i,
    {
        let b = bytes[from + i];
        let low: u8 = if b >= 65 && b <= 90 {
            b + 32
        } else {
            b
        };
        if low != w[i] {
            assert(lower_byte(bytes@[from + i]) as int != word@[i as int] as int);
            return false;
        }
        i += 1;
    }
    true
}

/// Whether `bytes`, from `from` on, are a decimal number.
fn number_from(bytes: &[u8], from: usize) -> (r: bool)
    requires
        from <= bytes@.len(),
    ensures
        r == is_number(bytes@, from as int),
{
    let n = bytes.len();
    let a = scan_digits(bytes, from);
    let dot = a < n && bytes[a] == 46;
    let b = if dot {
        scan_digits(bytes, a + 1)
    } else {
        a
    };
    let digits = if dot {
        (a - from) + (b - (a + 1))
    } else {
        a - from
    };
    if digits == 0 {
        return false;
    }
    if b == n {
        return true;
    }
    if bytes[b] != 101 && bytes[b] != 69 {
        return false;
    }
    let d = if b + 1 < n && (bytes[b + 1] == 43 || bytes[b + 1] == 45) {
        b + 2
    } else {
        b + 1
    };
    if d >= n {
        return false;
    }
    scan_digits(bytes, d) == n
}

/// Whether `s` is the text of a floating-point literal.
pub fn is_double_literal(s: &str) -> (r: bool)
    ensures
        r == is_double_text(s@),
{
    let bytes = s.as_bytes();
    let from: usize = if bytes.len() > 0 && (bytes[0] == 43 || bytes[0] == 45) {
        1
    } else {
        0
    };
    proof {
        reveal_strlit("inf");
        reveal_strlit("infinity");
        reveal_strlit("nan");
    }
    spells_word(bytes, from, "inf") || spells_word(bytes, from, "infinity") || spells_word(
        bytes,
        from,
        "nan",
    ) || number_from(bytes, from)
}

} // verus!
