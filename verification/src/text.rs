//! Text helpers.

use vstd::prelude::*;
use vstd::utf8::*;

verus! {

/// Whether the two byte strings are equal.
pub fn same_bytes(a: &[u8], b: &[u8]) -> (same: bool)
    ensures
        same == (a@ == b@),
{
    if a.len() != b.len() {
        return false;
    }
    let mut i: usize = 0;
    while i < a.len()
        invariant
            i <= a@.len(),
            a@.len() == b@.len(),
            forall|k: int| 0 <= k < i ==> a@[k] == b@[k],
        decreases a@.len() - i,
    {
        if a[i] != b[i] {
            return false;
        }
        i = i + 1;
    }
    assert(a@ =~= b@);
    true
}

/// Whether the two texts are equal.
pub fn same_text(a: &str, b: &str) -> (same: bool)
    ensures
        same == (a@ == b@),
{
    proof {
        encode_utf8_decode_utf8(a@);
        encode_utf8_decode_utf8(b@);
    }
    same_bytes(a.as_bytes(), b.as_bytes())
}

/// `String::from_utf8`: succeeds exactly on valid UTF-8, and gives the characters that the
/// bytes encode.
#[verifier::external_body]
pub(crate) fn string_from_utf8(bytes: Vec<u8>) -> (text: Option<String>)
    ensures
        text is Some <==> valid_utf8(bytes@),
        text matches Some(s) ==> s@ == decode_utf8(bytes@),
{
    String::from_utf8(bytes).ok()
}

/// The text that `String::from_utf8_lossy` makes of some bytes.
pub uninterp spec fn utf8_lossy(bytes: Seq<u8>) -> Seq<char>;

/// `String::from_utf8_lossy`: the text of the bytes, with a replacement character in place of what
/// is not UTF-8. It depends on the bytes alone, and of valid UTF-8 it is the characters that the
/// bytes encode.
#[verifier::external_body]
fn string_from_utf8_lossy(bytes: &[u8]) -> (text: String)
    ensures
        text@ == utf8_lossy(bytes@),
        valid_utf8(bytes@) ==> text@ == decode_utf8(bytes@),
{
    String::from_utf8_lossy(bytes).to_string()
}

/// The text of some bytes, with a replacement character in place of what is not UTF-8. The bytes of
/// a text give that text back.
pub fn lossy_text(bytes: &[u8]) -> (text: String)
    ensures
        text@ == utf8_lossy(bytes@),
        forall|t: Seq<char>| bytes@ == #[trigger] encode_utf8(t) ==> text@ == t,
{
    let text = string_from_utf8_lossy(bytes);
    assert forall|t: Seq<char>| bytes@ == #[trigger] encode_utf8(t) implies text@ == t by {
        encode_utf8_valid_utf8(t);
        encode_utf8_decode_utf8(t);
    }
    text
}

/// `String::push`: appends the character to the end of the string.
pub assume_specification[ String::push ](s: &mut String, c: char)
    ensures
        final(s)@ == old(s)@.push(c),
;

/// The characters of a text.
pub fn chars_of(text: &str) -> (chars: Vec<char>)
    ensures
        chars@ == text@,
{
    let mut chars: Vec<char> = Vec::new();
    for c in iter: text.chars()
        invariant
            chars@ == text@.take(iter.index() as int),
            iter.seq() == text@,
    {
        chars.push(c);
        assert(text@.take(iter.index() + 1) =~= text@.take(iter.index() as int).push(c));
    }
    assert(text@.take(chars@.len() as int) =~= text@);
    chars
}

/// The text made of some characters.
pub fn text_of(chars: &[char]) -> (text: String)
    ensures
        text@ == chars@,
{
    let mut text = String::new();
    let mut i: usize = 0;
    while i < chars.len()
        invariant
            i <= chars@.len(),
            text@ == chars@.take(i as int),
        decreases chars@.len() - i,
    {
        text.push(chars[i]);
        i = i + 1;
        assert(chars@.take(i as int) =~= chars@.take(i - 1).push(chars@[i - 1]));
    }
    assert(chars@.take(i as int) =~= chars@);
    text
}

/// Whether the character is one of Unicode's control codes.
pub open spec fn control(c: char) -> bool {
    c as int <= 0x1F || 0x7F <= c as int <= 0x9F
}

/// Whether the character has Unicode's white space property.
pub open spec fn white_space(c: char) -> bool {
    let code = c as int;
    ||| 0x09 <= code <= 0x0D
    ||| code == 0x20
    ||| code == 0x85
    ||| code == 0xA0
    ||| code == 0x1680
    ||| 0x2000 <= code <= 0x200A
    ||| code == 0x2028
    ||| code == 0x2029
    ||| code == 0x202F
    ||| code == 0x205F
    ||| code == 0x3000
}

/// The upper-case form of an ASCII letter. Other characters stay as they are.
pub open spec fn ascii_upper(c: char) -> char {
    if 'a' <= c && c <= 'z' {
        (c as int - 32) as char
    } else {
        c
    }
}

/// Whether the character is one of Unicode's control codes.
pub fn is_control(c: char) -> (yes: bool)
    ensures
        yes == control(c),
{
    let code: u32 = c as u32;
    code <= 0x1F || (0x7F <= code && code <= 0x9F)
}

/// Whether the character has Unicode's white space property.
pub fn is_white_space(c: char) -> (yes: bool)
    ensures
        yes == white_space(c),
{
    let code: u32 = c as u32;
    (0x09 <= code && code <= 0x0D) || code == 0x20 || code == 0x85 || code == 0xA0 || code
        == 0x1680 || (0x2000 <= code && code <= 0x200A) || code == 0x2028 || code == 0x2029 || code
        == 0x202F || code == 0x205F || code == 0x3000
}

/// The upper-case form of an ASCII letter. Other characters stay as they are.
pub fn to_ascii_upper(c: char) -> (upper: char)
    ensures
        upper == ascii_upper(c),
{
    if 'a' <= c && c <= 'z' {
        (c as u8 - 32) as char
    } else {
        c
    }
}

/// The number of characters before the first that `stop` picks, or of all if there is none.
pub open spec fn run_length(chars: Seq<char>, stop: spec_fn(char) -> bool) -> nat
    decreases chars.len(),
{
    if chars.len() == 0 || stop(chars[0]) {
        0
    } else {
        1 + run_length(chars.drop_first(), stop)
    }
}

/// The characters without the white space at the front.
pub open spec fn trimmed_front(chars: Seq<char>) -> Seq<char>
    decreases chars.len(),
{
    if chars.len() > 0 && white_space(chars[0]) {
        trimmed_front(chars.drop_first())
    } else {
        chars
    }
}

/// The characters without the white space at the back.
pub open spec fn trimmed_back(chars: Seq<char>) -> Seq<char>
    decreases chars.len(),
{
    if chars.len() > 0 && white_space(chars.last()) {
        trimmed_back(chars.drop_last())
    } else {
        chars
    }
}

/// The characters without the white space at either end.
pub open spec fn trimmed(chars: Seq<char>) -> Seq<char> {
    trimmed_back(trimmed_front(chars))
}

/// The run is as long as the characters before the first that `stop` picks.
pub proof fn lemma_run_length(chars: Seq<char>, stop: spec_fn(char) -> bool, n: nat)
    requires
        n <= chars.len(),
        forall|i: int| 0 <= i < n ==> !stop(#[trigger] chars[i]),
        n == chars.len() || stop(chars[n as int]),
    ensures
        run_length(chars, stop) == n,
    decreases chars.len(),
{
    if n > 0 {
        assert(!stop(chars[0]));
        let rest = chars.drop_first();
        assert forall|i: int| 0 <= i < n - 1 implies !stop(#[trigger] rest[i]) by {
            assert(rest[i] == chars[i + 1]);
        }
        lemma_run_length(rest, stop, (n - 1) as nat);
    }
}

/// The characters without the white space at either end.
pub fn trim(chars: &[char]) -> (t: &[char])
    ensures
        t@ == trimmed(chars@),
{
    let mut from: usize = 0;
    assert(chars@.skip(0) =~= chars@);
    while from < chars.len() && is_white_space(chars[from])
        invariant
            from <= chars@.len(),
            trimmed_front(chars@) == trimmed_front(chars@.skip(from as int)),
        decreases chars@.len() - from,
    {
        assert(chars@.skip(from as int).drop_first() =~= chars@.skip(from + 1));
        from = from + 1;
    }
    let ghost front = chars@.skip(from as int);
    assert(trimmed_front(front) == front);
    let mut to: usize = chars.len();
    assert(front =~= chars@.subrange(from as int, to as int));
    while to > from && is_white_space(chars[to - 1])
        invariant
            from <= to <= chars@.len(),
            trimmed_back(front) == trimmed_back(chars@.subrange(from as int, to as int)),
        decreases to,
    {
        assert(chars@.subrange(from as int, to as int).drop_last() =~= chars@.subrange(
            from as int,
            to - 1,
        ));
        to = to - 1;
    }
    vstd::slice::slice_subrange(chars, from, to)
}

/// The character for a digit below sixteen, in lower case.
pub open spec fn hex_digit(n: int) -> char {
    if n < 10 {
        (48 + n) as char
    } else {
        (87 + n) as char
    }
}

/// The two characters for a byte.
pub open spec fn hex(b: u8) -> Seq<char> {
    seq![hex_digit(b as int / 16), hex_digit(b as int % 16)]
}

fn to_hex_digit(n: u8) -> (c: char)
    requires
        n < 16,
    ensures
        c == hex_digit(n as int),
{
    if n < 10 {
        (48 + n) as char
    } else {
        (87 + n) as char
    }
}

/// Appends the two characters for a byte.
pub fn push_hex(text: &mut String, b: u8)
    ensures
        final(text)@ == old(text)@ + hex(b),
{
    text.push(to_hex_digit(b / 16));
    text.push(to_hex_digit(b % 16));
    assert(text@ =~= old(text)@ + hex(b));
}

/// A number in decimal.
pub open spec fn decimal(n: nat) -> Seq<char>
    decreases n,
{
    let digit = (48 + n % 10) as char;
    if n < 10 {
        seq![digit]
    } else {
        decimal(n / 10).push(digit)
    }
}

/// A signed number in decimal.
pub open spec fn signed_decimal(n: int) -> Seq<char> {
    if n < 0 {
        seq!['-'] + decimal((-n) as nat)
    } else {
        decimal(n as nat)
    }
}

/// Appends a number in decimal.
pub fn push_decimal(text: &mut String, n: u64)
    ensures
        final(text)@ == old(text)@ + decimal(n as nat),
    decreases n,
{
    if n >= 10 {
        push_decimal(text, n / 10);
    }
    text.push((48 + (n % 10) as u8) as char);
    assert(text@ =~= old(text)@ + decimal(n as nat));
}

/// Appends a signed number in decimal.
pub fn push_signed_decimal(text: &mut String, n: i64)
    ensures
        final(text)@ == old(text)@ + signed_decimal(n as int),
{
    if n < 0 {
        text.push('-');
        push_decimal(text, (-(n as i128)) as u64);
    } else {
        push_decimal(text, n as u64);
    }
    assert(text@ =~= old(text)@ + signed_decimal(n as int));
}

/// Two numbers are written alike only if they are the same.
pub proof fn lemma_decimal_is_injective(a: nat, b: nat)
    requires
        decimal(a) == decimal(b),
    ensures
        a == b,
    decreases a,
{
    lemma_decimal_len(a);
    lemma_decimal_len(b);
    assert(decimal(a).last() == (48 + a % 10) as char);
    assert(decimal(b).last() == (48 + b % 10) as char);
    if a >= 10 && b >= 10 {
        assert(decimal(a).drop_last() =~= decimal(a / 10));
        assert(decimal(b).drop_last() =~= decimal(b / 10));
        lemma_decimal_is_injective(a / 10, b / 10);
    }
}

proof fn lemma_decimal_len(n: nat)
    ensures
        decimal(n).len() > 0,
        decimal(n).len() == 1 <==> n < 10,
    decreases n,
{
    if n >= 10 {
        lemma_decimal_len(n / 10);
    }
}

/// A number in decimal is digits alone, at least one.
pub proof fn lemma_decimal_is_digits(n: nat)
    ensures
        decimal(n).len() > 0,
        forall|i: int| 0 <= i < decimal(n).len() ==> '0' <= (#[trigger] decimal(n)[i]) <= '9',
    decreases n,
{
    if n >= 10 {
        lemma_decimal_is_digits(n / 10);
        assert forall|i: int| 0 <= i < decimal(n).len() implies '0' <= (
        #[trigger] decimal(n)[i]) <= '9' by {
            if i < decimal(n / 10).len() {
                assert(decimal(n)[i] == decimal(n / 10)[i]);
            }
        }
    }
}

/// The number that some decimal digits stand for.
pub open spec fn number(digits: Seq<char>) -> int
    decreases digits.len(),
{
    if digits.len() == 0 {
        0
    } else {
        10 * number(digits.drop_last()) + (digits.last() as int - '0' as int)
    }
}

/// A number in decimal stands for that number, and has no zero in front. A negative one has a minus
/// in front, and no other has.
pub proof fn lemma_decimal_stands_for_the_number(n: nat)
    ensures
        number(decimal(n)) == n,
        n > 0 ==> decimal(n)[0] != '0',
        n == 0 ==> decimal(n).len() == 1,
        signed_decimal(n as int) == decimal(n),
        n > 0 ==> signed_decimal(-(n as int)) == seq!['-'] + decimal(n),
    decreases n,
{
    assert(decimal(n).last() as int - '0' as int == n % 10);
    if n >= 10 {
        lemma_decimal_stands_for_the_number(n / 10);
        lemma_decimal_is_digits(n / 10);
        assert(decimal(n).drop_last() =~= decimal(n / 10));
        assert(decimal(n)[0] == decimal(n / 10)[0]);
    } else {
        assert(decimal(n).drop_last() =~= Seq::empty());
        assert(number(decimal(n).drop_last()) == 0);
    }
}

/// The number that a hexadecimal digit in lower case stands for.
pub open spec fn hex_value(c: char) -> int {
    if '0' <= c && c <= '9' {
        c as int - '0' as int
    } else {
        c as int - 'a' as int + 10
    }
}

/// A byte is written in two hexadecimal digits in lower case, the greater first.
pub proof fn lemma_hex_stands_for_the_byte(b: u8)
    ensures
        hex(b).len() == 2,
        16 * hex_value(hex(b)[0]) + hex_value(hex(b)[1]) == b,
        forall|i: int|
            0 <= i < 2 ==> ('0' <= (#[trigger] hex(b)[i]) && hex(b)[i] <= '9') || ('a' <= hex(b)[i]
                && hex(b)[i] <= 'f'),
{
}

/// Upper case is for the ASCII letters in lower case alone: each goes to the one that stands at its
/// place in the alphabet.
pub proof fn lemma_only_letters_have_an_upper_case(c: char)
    ensures
        'a' <= c && c <= 'z' ==> 'A' <= ascii_upper(c) && ascii_upper(c) <= 'Z' && ascii_upper(
            c,
        ) as int - 'A' as int == c as int - 'a' as int,
        !('a' <= c && c <= 'z') ==> ascii_upper(c) == c,
{
}

/// The control characters are the sixty-five of Unicode: those below the space, the delete
/// character, and the thirty-two behind it.
pub proof fn lemma_controls_are_those_of_unicode(c: char)
    ensures
        control(c) <==> (c as int) < 32 || c as int == 127 || 128 <= c as int && (c as int) < 160,
{
}

/// The white space is the twenty-five characters of Unicode: tab, line feed, line tabulation, form
/// feed, carriage return, space, next line, no-break space, the Ogham space, the spaces of the
/// general punctuation, the line and paragraph separators, and the ideographic space.
pub proof fn lemma_white_space_is_that_of_unicode(c: char)
    ensures
        white_space(c) <==> set![
            9int,
            10,
            11,
            12,
            13,
            32,
            133,
            160,
            5760,
            8192,
            8193,
            8194,
            8195,
            8196,
            8197,
            8198,
            8199,
            8200,
            8201,
            8202,
            8232,
            8233,
            8239,
            8287,
            12288,
        ].contains(c as int),
{
}

/// Trimming takes white space off both ends and nothing else: what is left stands in the text as it
/// is, begins and ends with something else than white space, and all around it is white space.
pub proof fn lemma_trimming_takes_white_space(chars: Seq<char>) -> (range: (int, int))
    ensures
        0 <= range.0 <= range.1 <= chars.len(),
        trimmed(chars) == chars.subrange(range.0, range.1),
        forall|i: int| 0 <= i < range.0 ==> white_space(#[trigger] chars[i]),
        forall|i: int| range.1 <= i < chars.len() ==> white_space(#[trigger] chars[i]),
        range.0 < range.1 ==> !white_space(chars[range.0]) && !white_space(chars[range.1 - 1]),
{
    let from = lemma_front_is_trimmed(chars);
    let rest = chars.skip(from);
    let to = lemma_back_is_trimmed(rest);
    assert(rest.take(to) =~= chars.subrange(from, from + to));
    assert forall|i: int| from + to <= i < chars.len() implies white_space(#[trigger] chars[i]) by {
        assert(rest[i - from] == chars[i]);
    }
    if to > 0 {
        assert(rest[to - 1] == chars[from + to - 1]);
    }
    (from, from + to)
}

proof fn lemma_front_is_trimmed(chars: Seq<char>) -> (from: int)
    ensures
        0 <= from <= chars.len(),
        trimmed_front(chars) == chars.skip(from),
        forall|i: int| 0 <= i < from ==> white_space(#[trigger] chars[i]),
        from < chars.len() ==> !white_space(chars[from]),
    decreases chars.len(),
{
    if chars.len() > 0 && white_space(chars[0]) {
        let rest = chars.drop_first();
        let from = lemma_front_is_trimmed(rest);
        assert(rest.skip(from) =~= chars.skip(from + 1));
        assert forall|i: int| 0 <= i < from + 1 implies white_space(#[trigger] chars[i]) by {
            if i > 0 {
                assert(rest[i - 1] == chars[i]);
            }
        }
        from + 1
    } else {
        assert(chars.skip(0) =~= chars);
        0
    }
}

proof fn lemma_back_is_trimmed(chars: Seq<char>) -> (to: int)
    ensures
        0 <= to <= chars.len(),
        trimmed_back(chars) == chars.take(to),
        forall|i: int| to <= i < chars.len() ==> white_space(#[trigger] chars[i]),
        to > 0 ==> !white_space(chars[to - 1]),
    decreases chars.len(),
{
    if chars.len() > 0 && white_space(chars.last()) {
        let front = chars.drop_last();
        let to = lemma_back_is_trimmed(front);
        assert(front.take(to) =~= chars.take(to));
        assert forall|i: int| to <= i < chars.len() implies white_space(#[trigger] chars[i]) by {
            if i < front.len() {
                assert(front[i] == chars[i]);
            }
        }
        to
    } else {
        assert(chars.take(chars.len() as int) =~= chars);
        chars.len() as int
    }
}

} // verus!
