//! Text building blocks: decimal numerals and prefixes.

use vstd::prelude::*;
use vstd::string::*;
use vstd::utf8::{
    encode_scalar, encode_utf8, has_width_1_encoding, is_ascii_chars, is_ascii_chars_encode_utf8,
    leading_byte_width_1,
};

verus! {

/// The length of a text in bytes of UTF-8.
pub open spec fn utf8_len(s: Seq<char>) -> nat {
    encode_utf8(s).len()
}

/// The length of a text in bytes.
pub fn byte_len(s: &str) -> (n: usize)
    ensures
        n == utf8_len(s@),
{
    s.as_bytes().len()
}

/// Tells whether a text begins with another.
pub fn starts_with(text: &str, prefix: &str) -> (out: bool)
    ensures
        out == prefix@.is_prefix_of(text@),
{
    let len = prefix.unicode_len();
    if text.unicode_len() < len {
        return false;
    }
    let head = text.substring_char(0, len).to_owned();
    let same = head == prefix.to_owned();
    assert(same == prefix@.is_prefix_of(text@)) by {
        assert(same == (text@.subrange(0, len as int) == prefix@));
        if same {
            assert(prefix@ =~= text@.subrange(0, prefix@.len() as int));
        }
    }
    same
}

/// Tells whether two texts are the same.
pub fn same_text(first: &str, second: &str) -> (out: bool)
    ensures
        out == (first@ == second@),
{
    first.to_owned() == second.to_owned()
}

/// What a byte of a request can come to in the canonical form that is
/// signed: an unreserved byte stays one byte, a `%` can come to nine bytes
/// together with the two that follow it, and any other byte is escaped to
/// three.
pub open spec fn byte_weight(b: u8) -> nat {
    if is_unreserved(b) {
        1
    } else if b == 0x25 {
        7
    } else {
        3
    }
}

/// The sum of the weights of the given bytes.
pub open spec fn bytes_weight(bytes: Seq<u8>) -> nat
    decreases bytes.len(),
{
    if bytes.len() == 0 {
        0
    } else {
        bytes_weight(bytes.drop_last()) + byte_weight(bytes.last())
    }
}

/// The weight of a text: the sum of the weights of the bytes of its UTF-8
/// form.
pub open spec fn text_weight(text: Seq<char>) -> nat {
    bytes_weight(encode_utf8(text))
}

/// The first bytes of a text weigh no more than all of them.
proof fn lemma_weight_grows(bytes: Seq<u8>, k: int)
    requires
        0 <= k <= bytes.len(),
    ensures
        bytes_weight(bytes.take(k)) <= bytes_weight(bytes),
    decreases bytes.len() - k,
{
    if k < bytes.len() {
        lemma_weight_grows(bytes, k + 1);
        assert(bytes.take(k + 1).drop_last() =~= bytes.take(k));
    } else {
        assert(bytes.take(k) =~= bytes);
    }
}

/// Takes the weight of a text from a budget: what is left of the budget, or
/// `None` where the text weighs more than the budget.
pub fn spend_weight(text: &str, budget: usize) -> (out: Option<usize>)
    ensures
        match out {
            Some(left) => left + text_weight(text@) == budget,
            None => text_weight(text@) > budget,
        },
{
    let bytes = text.as_bytes();
    let mut left: usize = budget;
    let mut i: usize = 0;
    assert(bytes@.take(0) =~= Seq::<u8>::empty());
    while i < bytes.len()
        invariant
            i <= bytes.len(),
            bytes@ == encode_utf8(text@),
            left + bytes_weight(bytes@.take(i as int)) == budget,
        decreases bytes.len() - i,
    {
        let b = bytes[i];
        let weight: usize = if (0x41 <= b && b <= 0x5a) || (0x61 <= b && b <= 0x7a) || (0x30 <= b
            && b <= 0x39) || b == 0x2d || b == 0x5f || b == 0x2e || b == 0x7e {
            1
        } else if b == 0x25 {
            7
        } else {
            3
        };
        proof {
            let next = bytes@.take(i + 1);
            assert(next.drop_last() =~= bytes@.take(i as int));
            assert(next.last() == b);
            assert(bytes_weight(next) == bytes_weight(bytes@.take(i as int)) + weight);
            lemma_weight_grows(bytes@, i + 1);
        }
        if weight > left {
            return None;
        }
        left = left - weight;
        i += 1;
    }
    assert(bytes@.take(i as int) =~= bytes@);
    Some(left)
}

/// Whether a text holds a byte that ends the authority of a URL: `/`, `?`
/// or `#`.
pub open spec fn ends_authority(text: Seq<char>) -> bool {
    let bytes = encode_utf8(text);
    bytes.contains(0x2f) || bytes.contains(0x3f) || bytes.contains(0x23)
}

/// Tells whether a text holds a byte that ends the authority of a URL.
pub fn holds_end_of_authority(text: &str) -> (out: bool)
    ensures
        out == ends_authority(text@),
{
    let bytes = text.as_bytes();
    let mut i: usize = 0;
    while i < bytes.len()
        invariant
            i <= bytes.len(),
            bytes@ == encode_utf8(text@),
            forall|j: int| 0 <= j < i ==> bytes@[j] != 0x2f && bytes@[j] != 0x3f && bytes@[j] != 0x23,
        decreases bytes.len() - i,
    {
        let b = bytes[i];
        if b == 0x2f || b == 0x3f || b == 0x23 {
            assert(bytes@.contains(b));
            return true;
        }
        i += 1;
    }
    false
}

/// A character of ASCII has a UTF-8 form of one byte: its own code.
proof fn lemma_ascii_scalar(c: char)
    requires
        c <= '\u{7f}',
    ensures
        encode_scalar(c as u32) == seq![c as u8],
{
    let first = c as u32;
    assert(has_width_1_encoding(first));
    assert(first as u8 == leading_byte_width_1(first)) by (bit_vector)
        requires
            has_width_1_encoding(first),
    ;
    assert(encode_scalar(first) =~= seq![c as u8]);
}

/// A character of ASCII in a text is a byte of its UTF-8 form.
pub proof fn lemma_ascii_char_is_byte(text: Seq<char>, i: int)
    requires
        0 <= i < text.len(),
        text[i] <= '\u{7f}',
    ensures
        encode_utf8(text).contains(text[i] as u8),
    decreases i,
{
    let head = encode_scalar(text[0] as u32);
    let rest = encode_utf8(text.drop_first());
    assert(encode_utf8(text) == head + rest);
    if i == 0 {
        lemma_ascii_scalar(text[0]);
        assert((head + rest)[0] == text[0] as u8);
    } else {
        lemma_ascii_char_is_byte(text.drop_first(), i - 1);
        let b = text[i] as u8;
        let at = choose|j: int| 0 <= j < rest.len() && rest[j] == b;
        assert((head + rest)[head.len() + at] == b);
    }
}

/// A text that holds nothing that ends an authority holds none of the
/// characters `/`, `?` and `#`.
pub proof fn lemma_authority_has_no_end(text: Seq<char>)
    requires
        !ends_authority(text),
    ensures
        forall|i: int|
            0 <= i < text.len() ==> #[trigger] text[i] != '/' && text[i] != '?' && text[i] != '#',
{
    assert forall|i: int| 0 <= i < text.len() implies #[trigger] text[i] != '/' && text[i] != '?'
        && text[i] != '#' by {
        if text[i] == '/' || text[i] == '?' || text[i] == '#' {
            lemma_ascii_char_is_byte(text, i);
        }
    }
}

/// Whether a text begins with the scheme `https://`.
pub open spec fn has_https_scheme(url: Seq<char>) -> bool {
    url.len() >= 8 && url.take(8) == "https://"@
}

/// Tells whether a text begins with the scheme `https://`.
pub fn starts_with_https(url: &str) -> (out: bool)
    ensures
        out == has_https_scheme(url@),
{
    if url.unicode_len() < 8 {
        return false;
    }
    let head = url.substring_char(0, 8).to_owned();
    assert(url@.take(8) =~= url@.subrange(0, 8));
    head == "https://".to_owned()
}

/// Calls `String::push`.
///
/// Believed of it: the character is appended to the text.
#[verifier::external_body]
fn push_char(out: &mut String, c: char)
    ensures
        final(out)@ == old(out)@.push(c),
{
    out.push(c);
}

/// Whether a byte stands for itself in a component of a URI: a letter or a
/// digit of ASCII, or one of `-`, `_`, `.` and `~`.
pub open spec fn is_unreserved(b: u8) -> bool {
    ||| 0x41 <= b <= 0x5a
    ||| 0x61 <= b <= 0x7a
    ||| 0x30 <= b <= 0x39
    ||| b == 0x2d
    ||| b == 0x5f
    ||| b == 0x2e
    ||| b == 0x7e
}

/// The upper-case hexadecimal digit of a number below sixteen.
pub open spec fn hex_upper(d: u8) -> char {
    if d < 10 {
        (0x30 + d) as char
    } else {
        (0x37 + d) as char
    }
}

/// A byte as it stands in a component of a URI: itself if it is unreserved,
/// else `%` and its two upper-case hexadecimal digits.
pub open spec fn escaped_byte(b: u8) -> Seq<char> {
    if is_unreserved(b) {
        seq![b as char]
    } else {
        seq!['%', hex_upper(b / 16), hex_upper(b % 16)]
    }
}

/// The bytes of a text as they stand in a component of a URI, one after the
/// other.
pub open spec fn escaped_bytes(bytes: Seq<u8>) -> Seq<char>
    decreases bytes.len(),
{
    if bytes.len() == 0 {
        Seq::empty()
    } else {
        escaped_bytes(bytes.drop_last()) + escaped_byte(bytes.last())
    }
}

/// A text as a component of a URI: each byte of its UTF-8 form kept if it is
/// unreserved, else written as `%` and two upper-case hexadecimal digits.
pub open spec fn uri_component(text: Seq<char>) -> Seq<char> {
    escaped_bytes(encode_utf8(text))
}

/// Whether a byte stands for itself in a form-encoded text: a letter or a
/// digit of ASCII, or one of `*`, `-`, `.` and `_`.
pub open spec fn is_form_safe(b: u8) -> bool {
    ||| 0x41 <= b <= 0x5a
    ||| 0x61 <= b <= 0x7a
    ||| 0x30 <= b <= 0x39
    ||| b == 0x2a
    ||| b == 0x2d
    ||| b == 0x2e
    ||| b == 0x5f
}

/// A byte as it stands in a form-encoded text: itself if it is safe, `+`
/// for a space, else `%` and its two upper-case hexadecimal digits.
pub open spec fn form_byte(b: u8) -> Seq<char> {
    if is_form_safe(b) {
        seq![b as char]
    } else if b == 0x20 {
        seq!['+']
    } else {
        seq!['%', hex_upper(b / 16), hex_upper(b % 16)]
    }
}

/// The bytes of a text as they stand in a form-encoded text, one after the
/// other.
pub open spec fn form_bytes(bytes: Seq<u8>) -> Seq<char>
    decreases bytes.len(),
{
    if bytes.len() == 0 {
        Seq::empty()
    } else {
        form_bytes(bytes.drop_last()) + form_byte(bytes.last())
    }
}

/// A text as it stands in a query of the type
/// `application/x-www-form-urlencoded`.
pub open spec fn form_encoded(text: Seq<char>) -> Seq<char> {
    form_bytes(encode_utf8(text))
}

/// Whether a character is one that an escaped or form-encoded text can
/// hold: a letter or digit of ASCII or one of `%`, `*`, `+`, `-`, `.`, `_`
/// and `~`.
pub open spec fn is_encoded_char(c: char) -> bool {
    ||| 'A' <= c <= 'Z'
    ||| 'a' <= c <= 'z'
    ||| '0' <= c <= '9'
    ||| c == '%'
    ||| c == '*'
    ||| c == '+'
    ||| c == '-'
    ||| c == '.'
    ||| c == '_'
    ||| c == '~'
}

/// Whether a character stands for itself in a form-encoded text.
pub open spec fn is_form_safe_char(c: char) -> bool {
    ||| 'A' <= c <= 'Z'
    ||| 'a' <= c <= 'z'
    ||| '0' <= c <= '9'
    ||| c == '*'
    ||| c == '-'
    ||| c == '.'
    ||| c == '_'
}

/// Whether every character of a text is one that an escaped or
/// form-encoded text can hold.
pub open spec fn is_encoded_text(text: Seq<char>) -> bool {
    forall|i: int| 0 <= i < text.len() ==> is_encoded_char(#[trigger] text[i])
}

/// An escaped text holds no character but those of an encoded text; so it
/// holds none of `#`, `?`, `&`, `=` and `/`.
pub proof fn lemma_escaped_bytes_are_encoded(bytes: Seq<u8>)
    ensures
        is_encoded_text(escaped_bytes(bytes)),
    decreases bytes.len(),
{
    if bytes.len() > 0 {
        lemma_escaped_bytes_are_encoded(bytes.drop_last());
        let b = bytes.last();
        assert(is_encoded_text(escaped_byte(b)));
    }
}

/// A form-encoded text holds no character but those of an encoded text.
pub proof fn lemma_form_bytes_are_encoded(bytes: Seq<u8>)
    ensures
        is_encoded_text(form_bytes(bytes)),
    decreases bytes.len(),
{
    if bytes.len() > 0 {
        lemma_form_bytes_are_encoded(bytes.drop_last());
        let b = bytes.last();
        assert(is_encoded_text(form_byte(b)));
    }
}

/// Whether a character is unreserved: a letter or a digit of ASCII, or one
/// of `-`, `_`, `.` and `~`.
pub open spec fn is_unreserved_char(c: char) -> bool {
    ||| 'A' <= c <= 'Z'
    ||| 'a' <= c <= 'z'
    ||| '0' <= c <= '9'
    ||| c == '-'
    ||| c == '_'
    ||| c == '.'
    ||| c == '~'
}

/// A text of unreserved characters is its own component of a URI.
pub proof fn lemma_uri_component_keeps(text: Seq<char>)
    requires
        forall|i: int| 0 <= i < text.len() ==> is_unreserved_char(#[trigger] text[i]),
    ensures
        uri_component(text) == text,
{
    assert(is_ascii_chars(text));
    is_ascii_chars_encode_utf8(text);
    let bytes = encode_utf8(text);
    lemma_escaped_bytes_keep(bytes, text, text.len() as int);
    assert(bytes.take(text.len() as int) =~= bytes);
    assert(text.take(text.len() as int) =~= text);
}

/// The first `k` bytes of a text of unreserved characters give its first
/// `k` characters.
proof fn lemma_escaped_bytes_keep(bytes: Seq<u8>, text: Seq<char>, k: int)
    requires
        0 <= k <= text.len() == bytes.len(),
        forall|i: int| 0 <= i < text.len() ==> is_unreserved_char(#[trigger] text[i]),
        forall|i: int| 0 <= i < text.len() ==> text[i] as u8 == #[trigger] bytes[i],
    ensures
        escaped_bytes(bytes.take(k)) == text.take(k),
    decreases k,
{
    if k > 0 {
        lemma_escaped_bytes_keep(bytes, text, k - 1);
        let front = bytes.take(k);
        assert(front.drop_last() =~= bytes.take(k - 1));
        let c = text[k - 1];
        assert(is_unreserved_char(c));
        assert(front.last() == c as u8);
        assert((c as u8) as char == c);
        assert(escaped_byte(front.last()) =~= seq![c]);
        assert(text.take(k) =~= text.take(k - 1) + seq![c]);
    } else {
        assert(bytes.take(0) =~= Seq::<u8>::empty());
        assert(text.take(0) =~= Seq::<char>::empty());
    }
}

/// A text of characters that stand for themselves is its own form-encoded
/// text.
pub proof fn lemma_form_encoded_keeps(text: Seq<char>)
    requires
        forall|i: int| 0 <= i < text.len() ==> is_form_safe_char(#[trigger] text[i]),
    ensures
        form_encoded(text) == text,
{
    assert(is_ascii_chars(text));
    is_ascii_chars_encode_utf8(text);
    let bytes = encode_utf8(text);
    lemma_form_bytes_keep(bytes, text, text.len() as int);
    assert(bytes.take(text.len() as int) =~= bytes);
    assert(text.take(text.len() as int) =~= text);
}

/// The first `k` bytes of a text of characters that stand for themselves
/// give its first `k` characters.
proof fn lemma_form_bytes_keep(bytes: Seq<u8>, text: Seq<char>, k: int)
    requires
        0 <= k <= text.len() == bytes.len(),
        forall|i: int| 0 <= i < text.len() ==> is_form_safe_char(#[trigger] text[i]),
        forall|i: int| 0 <= i < text.len() ==> text[i] as u8 == #[trigger] bytes[i],
    ensures
        form_bytes(bytes.take(k)) == text.take(k),
    decreases k,
{
    if k > 0 {
        lemma_form_bytes_keep(bytes, text, k - 1);
        let front = bytes.take(k);
        assert(front.drop_last() =~= bytes.take(k - 1));
        let c = text[k - 1];
        assert(is_form_safe_char(c));
        assert(front.last() == c as u8);
        assert((c as u8) as char == c);
        assert(form_byte(front.last()) =~= seq![c]);
        assert(text.take(k) =~= text.take(k - 1) + seq![c]);
    } else {
        assert(bytes.take(0) =~= Seq::<u8>::empty());
        assert(text.take(0) =~= Seq::<char>::empty());
    }
}

/// The place of the first occurrence of a character in a text, or the
/// length of the text where it does not occur.
pub open spec fn first_index(text: Seq<char>, c: char) -> int
    decreases text.len(),
{
    if text.len() == 0 {
        0
    } else if text[0] == c {
        0
    } else {
        1 + first_index(text.skip(1), c)
    }
}

/// The first occurrence lies within the text or at its end; the character
/// stands there, and nowhere before.
pub proof fn lemma_first_index(text: Seq<char>, c: char)
    ensures
        0 <= first_index(text, c) <= text.len(),
        first_index(text, c) < text.len() ==> text[first_index(text, c)] == c,
        forall|i: int| 0 <= i < first_index(text, c) ==> text[i] != c,
    decreases text.len(),
{
    if text.len() > 0 && text[0] != c {
        let rest = text.skip(1);
        lemma_first_index(rest, c);
        assert forall|i: int| 0 <= i < first_index(text, c) implies text[i] != c by {
            if i > 0 {
                assert(text[i] == rest[i - 1]);
            }
        }
    }
}

/// The upper-case hexadecimal digit of a number below sixteen.
fn hex_upper_char(d: u8) -> (out: char)
    requires
        d < 16,
    ensures
        out == hex_upper(d),
{
    let code: u8 = if d < 10 {
        0x30 + d
    } else {
        0x37 + d
    };
    code as char
}

/// Appends a text to `out` as a component of a URI.
pub fn push_uri_component(out: &mut String, text: &str)
    ensures
        final(out)@ == old(out)@ + uri_component(text@),
{
    let bytes = text.as_bytes();
    let ghost start = out@;
    let mut i: usize = 0;
    assert(bytes@.take(0) =~= Seq::<u8>::empty());
    while i < bytes.len()
        invariant
            i <= bytes.len(),
            bytes@ == encode_utf8(text@),
            out@ == start + escaped_bytes(bytes@.take(i as int)),
        decreases bytes.len() - i,
    {
        let b = bytes[i];
        let ghost before = out@;
        if (0x41 <= b && b <= 0x5a) || (0x61 <= b && b <= 0x7a) || (0x30 <= b && b <= 0x39) || b
            == 0x2d || b == 0x5f || b == 0x2e || b == 0x7e {
            push_char(out, b as char);
        } else {
            push_char(out, '%');
            push_char(out, hex_upper_char(b / 16));
            push_char(out, hex_upper_char(b % 16));
        }
        proof {
            let next = bytes@.take(i + 1);
            assert(next.drop_last() =~= bytes@.take(i as int));
            assert(next.last() == b);
            assert(out@ =~= before + escaped_byte(b));
            assert(out@ =~= start + escaped_bytes(next));
        }
        i += 1;
    }
    assert(bytes@.take(i as int) =~= bytes@);
}

/// The character that stands for a digit below ten.
pub open spec fn digit_char(d: nat) -> char {
    if d == 0 {
        '0'
    } else if d == 1 {
        '1'
    } else if d == 2 {
        '2'
    } else if d == 3 {
        '3'
    } else if d == 4 {
        '4'
    } else if d == 5 {
        '5'
    } else if d == 6 {
        '6'
    } else if d == 7 {
        '7'
    } else if d == 8 {
        '8'
    } else {
        '9'
    }
}

/// The decimal numeral of `n`, without sign or leading zeros.
pub open spec fn decimal(n: nat) -> Seq<char>
    decreases n,
{
    if n < 10 {
        seq![digit_char(n)]
    } else {
        decimal(n / 10).push(digit_char(n % 10))
    }
}

/// A decimal numeral holds digits only.
pub proof fn lemma_decimal_is_digits(n: nat)
    ensures
        forall|i: int| 0 <= i < decimal(n).len() ==> '0' <= #[trigger] decimal(n)[i] <= '9',
    decreases n,
{
    if n >= 10 {
        lemma_decimal_is_digits(n / 10);
        let front = decimal(n / 10);
        assert forall|i: int| 0 <= i < decimal(n).len() implies '0' <= #[trigger] decimal(n)[i]
            <= '9' by {
            if i < front.len() {
                assert(decimal(n)[i] == front[i]);
            } else {
                assert(decimal(n)[i] == digit_char(n % 10));
            }
        }
    } else {
        assert(decimal(n) =~= seq![digit_char(n)]);
    }
}

/// A decimal numeral is not empty and begins with a digit.
pub proof fn lemma_decimal_begins_with_digit(n: nat)
    ensures
        decimal(n).len() >= 1,
        '0' <= decimal(n)[0] <= '9',
    decreases n,
{
    if n >= 10 {
        lemma_decimal_begins_with_digit(n / 10);
    }
}

/// The one-character text of a digit.
fn digit_text(d: u64) -> (out: &'static str)
    requires
        d < 10,
    ensures
        out@ == seq![digit_char(d as nat)],
{
    proof {
        reveal_strlit("0");
        reveal_strlit("1");
        reveal_strlit("2");
        reveal_strlit("3");
        reveal_strlit("4");
        reveal_strlit("5");
        reveal_strlit("6");
        reveal_strlit("7");
        reveal_strlit("8");
        reveal_strlit("9");
    }
    let out = if d == 0 {
        "0"
    } else if d == 1 {
        "1"
    } else if d == 2 {
        "2"
    } else if d == 3 {
        "3"
    } else if d == 4 {
        "4"
    } else if d == 5 {
        "5"
    } else if d == 6 {
        "6"
    } else if d == 7 {
        "7"
    } else if d == 8 {
        "8"
    } else {
        "9"
    };
    assert(out@ =~= seq![digit_char(d as nat)]);
    out
}

/// Appends the decimal numeral of `n` to `out`.
pub fn push_decimal(out: &mut String, n: u64)
    ensures
        final(out)@ == old(out)@ + decimal(n as nat),
    decreases n,
{
    if n >= 10 {
        push_decimal(out, n / 10);
    }
    out.append(digit_text(n % 10));
    assert(final(out)@ =~= old(out)@ + decimal(n as nat));
}

} // verus!
