//! Text primitives: building, comparing, searching and rendering strings as character sequences.

use vstd::prelude::*;

verus! {

/// Appends one character.
///
/// Trusted statement about [`String::push`]: the given character is added at the end and nothing
/// else changes.
pub assume_specification[ String::push ](buffer: &mut String, added: char)
    ensures
        final(buffer)@ == old(buffer)@.push(added),
;

/// A character with ASCII capitals made small.
pub open spec fn ascii_lower(character: char) -> char {
    if 'A' <= character <= 'Z' {
        (character as u8 + 32) as char
    } else {
        character
    }
}

/// Whether a text is made of ASCII characters.
pub open spec fn ascii(text: Seq<char>) -> bool {
    forall|i: int| 0 <= i < text.len() ==> #[trigger] text[i] <= '\u{7f}'
}

/// A text with its ASCII capitals made small.
pub open spec fn ascii_lowered(text: Seq<char>) -> Seq<char> {
    Seq::new(text.len(), |i: int| ascii_lower(text[i]))
}

/// What [`str::to_lowercase`] makes of a text with characters that are not ASCII: the Unicode
/// lowercase mapping of all of it.
pub uninterp spec fn lowercased(text: Seq<char>) -> Seq<char>;

/// A text in lower case.
pub open spec fn lower_case(text: Seq<char>) -> Seq<char> {
    if ascii(text) {
        ascii_lowered(text)
    } else {
        lowercased(text)
    }
}

/// The Unicode lowercase equivalent of a text.
///
/// Trusted wrapper of [`str::to_lowercase`]. In an ASCII text, capitals become small letters and
/// nothing else changes. The mapping of other texts is only named: it is a fixed function of the
/// characters, given by the Unicode character database. That it is idempotent, or that it leaves
/// white space alone, is not said.
#[verifier::external_body]
pub(crate) fn to_lowercase(text: &str) -> (lower: String)
    ensures
        lower@ == (if ascii(text@) {
            ascii_lowered(text@)
        } else {
            lowercased(text@)
        }),
{
    text.to_lowercase()
}

/// Decodes UTF-8.
///
/// Trusted wrapper of [`String::from_utf8`]: bytes that are valid UTF-8 become the text that they
/// encode, and other bytes are refused.
#[verifier::external_body]
pub(crate) fn decode_utf8(bytes: Vec<u8>) -> (text: Option<String>)
    ensures
        match text {
            Some(text) => vstd::utf8::valid_utf8(bytes@) && text@ == vstd::utf8::decode_utf8(
                bytes@,
            ),
            None => !vstd::utf8::valid_utf8(bytes@),
        },
{
    String::from_utf8(bytes).ok()
}

/// Collects the characters of a string.
pub fn to_chars(text: &str) -> (chars: Vec<char>)
    ensures
        chars@ == text@,
{
    let mut chars: Vec<char> = Vec::new();
    for character in it: text.chars()
        invariant
            chars@ == text@.take(it.index()),
            it.seq() == text@,
    {
        chars.push(character);
    }
    chars
}

/// Builds the string made of the given characters.
pub fn from_chars(chars: &[char]) -> (text: String)
    ensures
        text@ == chars@,
{
    let mut text = String::new();
    let mut index: usize = 0;
    while index < chars.len()
        invariant
            index <= chars.len(),
            text@ == chars@.take(index as int),
        decreases chars.len() - index,
    {
        text.push(chars[index]);
        index += 1;
    }
    text
}

/// Whether two strings hold the same characters.
pub fn same_text(left: &str, right: &str) -> (same: bool)
    ensures
        same == (left@ == right@),
{
    let left = left.to_owned();
    let right = right.to_owned();
    left == right
}

/// Concatenates three pieces of text.
pub fn join3(first: &str, second: &str, third: &str) -> (text: String)
    ensures
        text@ == first@ + second@ + third@,
{
    let mut text = first.to_owned();
    text.append(second);
    text.append(third);
    text
}

/// The position of `needle` in `text` at or after `from`, or the length of the text.
pub open spec fn find_from(text: Seq<char>, needle: char, from: int) -> int
    decreases text.len() - from,
{
    if from >= text.len() {
        text.len() as int
    } else if text[from] == needle {
        from
    } else {
        find_from(text, needle, from + 1)
    }
}

/// What [`find_from`] returns: the first occurrence, if there is one.
pub proof fn lemma_find_from(text: Seq<char>, needle: char, from: int)
    requires
        0 <= from <= text.len(),
    ensures
        from <= find_from(text, needle, from) <= text.len(),
        find_from(text, needle, from) < text.len() ==> text[find_from(text, needle, from)]
            == needle,
        forall|i: int|
            from <= i < find_from(text, needle, from) ==> #[trigger] text[i] != needle,
    decreases text.len() - from,
{
    if from < text.len() && text[from] != needle {
        lemma_find_from(text, needle, from + 1);
    }
}

/// Finds the first `needle` at or after `from`; the length of the text stands for "absent".
pub fn find_char(text: &[char], needle: char, from: usize) -> (position: usize)
    requires
        from <= text@.len(),
    ensures
        position == find_from(text@, needle, from as int),
        from <= position <= text@.len(),
{
    let mut index: usize = from;
    while index < text.len()
        invariant
            from <= index <= text@.len(),
            find_from(text@, needle, from as int) == find_from(text@, needle, index as int),
        decreases text.len() - index,
    {
        if text[index] == needle {
            return index;
        }
        index += 1;
    }
    index
}

/// Whether `text` starts with `prefix`.
pub fn starts_with(text: &[char], prefix: &[char]) -> (found: bool)
    ensures
        found == prefix@.is_prefix_of(text@),
{
    if prefix.len() > text.len() {
        return false;
    }
    let mut index: usize = 0;
    while index < prefix.len()
        invariant
            index <= prefix@.len() <= text@.len(),
            prefix@.take(index as int) == text@.take(index as int),
        decreases prefix.len() - index,
    {
        if prefix[index] != text[index] {
            proof {
                assert(prefix@[index as int] != text@.take(prefix@.len() as int)[index as int]);
            }
            return false;
        }
        proof {
            assert(prefix@.take(index + 1) == text@.take(index + 1));
        }
        index += 1;
    }
    proof {
        assert(prefix@.take(prefix@.len() as int) == prefix@);
        assert(text@.subrange(0, prefix@.len() as int) == text@.take(prefix@.len() as int));
    }
    true
}

/// Copies `text[from..to]`.
pub fn slice_chars(text: &[char], from: usize, to: usize) -> (part: Vec<char>)
    requires
        from <= to <= text@.len(),
    ensures
        part@ == text@.subrange(from as int, to as int),
{
    let mut part: Vec<char> = Vec::new();
    let mut index: usize = from;
    while index < to
        invariant
            from <= index <= to <= text@.len(),
            part@ == text@.subrange(from as int, index as int),
        decreases to - index,
    {
        part.push(text[index]);
        index += 1;
    }
    part
}

// ---------------------------------------------------------------------------------------------
// Character classes and trimming
// ---------------------------------------------------------------------------------------------

/// The characters with the Unicode `White_Space` property.
pub open spec fn whitespace(character: char) -> bool {
    ||| '\u{9}' <= character <= '\u{d}'
    ||| character == ' '
    ||| character == '\u{85}'
    ||| character == '\u{a0}'
    ||| character == '\u{1680}'
    ||| '\u{2000}' <= character <= '\u{200a}'
    ||| character == '\u{2028}'
    ||| character == '\u{2029}'
    ||| character == '\u{202f}'
    ||| character == '\u{205f}'
    ||| character == '\u{3000}'
}

/// Whether a character is white space.
pub fn is_whitespace(character: char) -> (is: bool)
    ensures
        is == whitespace(character),
{
    ('\u{9}' <= character && character <= '\u{d}') || character == ' ' || character == '\u{85}'
        || character == '\u{a0}' || character == '\u{1680}' || ('\u{2000}' <= character
        && character <= '\u{200a}') || character == '\u{2028}' || character == '\u{2029}'
        || character == '\u{202f}' || character == '\u{205f}' || character == '\u{3000}'
}

/// The control characters (Unicode category `Cc`).
pub open spec fn control(character: char) -> bool {
    character <= '\u{1f}' || '\u{7f}' <= character <= '\u{9f}'
}

/// Whether a character is a control character.
pub fn is_control(character: char) -> (is: bool)
    ensures
        is == control(character),
{
    character <= '\u{1f}' || ('\u{7f}' <= character && character <= '\u{9f}')
}

/// The number of leading white-space characters.
pub open spec fn leading_whitespace(text: Seq<char>) -> nat
    decreases text.len(),
{
    if text.len() > 0 && whitespace(text[0]) {
        1 + leading_whitespace(text.drop_first())
    } else {
        0
    }
}

/// The number of characters before the first white space.
pub open spec fn leading_word(text: Seq<char>) -> nat
    decreases text.len(),
{
    if text.len() > 0 && !whitespace(text[0]) {
        1 + leading_word(text.drop_first())
    } else {
        0
    }
}

proof fn lemma_leading_bounds(text: Seq<char>)
    ensures
        leading_whitespace(text) <= text.len(),
        leading_word(text) <= text.len(),
    decreases text.len(),
{
    if text.len() > 0 {
        lemma_leading_bounds(text.drop_first());
    }
}

/// A text without the white space at its start.
pub open spec fn trim_start(text: Seq<char>) -> Seq<char> {
    text.skip(leading_whitespace(text) as int)
}

/// A text without the white space at its end.
pub open spec fn trim_end(text: Seq<char>) -> Seq<char>
    decreases text.len(),
{
    if text.len() > 0 && whitespace(text.last()) {
        trim_end(text.drop_last())
    } else {
        text
    }
}

/// A text without the white space at either end.
pub open spec fn trimmed(text: Seq<char>) -> Seq<char> {
    trim_end(trim_start(text))
}

/// The position of the first character at or after `from` that is not white space.
pub fn skip_whitespace(text: &[char], from: usize) -> (position: usize)
    requires
        from <= text@.len(),
    ensures
        position == from + leading_whitespace(text@.skip(from as int)),
        from <= position <= text@.len(),
        position < text@.len() ==> !whitespace(text@[position as int]),
{
    let mut index: usize = from;
    while index < text.len() && is_whitespace(text[index])
        invariant
            from <= index <= text@.len(),
            from + leading_whitespace(text@.skip(from as int)) == index + leading_whitespace(
                text@.skip(index as int),
            ),
        decreases text.len() - index,
    {
        proof {
            assert(text@.skip(index as int).drop_first() == text@.skip(index + 1));
        }
        index += 1;
    }
    index
}

/// The position of the first white space at or after `from`, or the length of the text.
pub fn skip_word(text: &[char], from: usize) -> (position: usize)
    requires
        from <= text@.len(),
    ensures
        position == from + leading_word(text@.skip(from as int)),
        from <= position <= text@.len(),
{
    let mut index: usize = from;
    while index < text.len() && !is_whitespace(text[index])
        invariant
            from <= index <= text@.len(),
            from + leading_word(text@.skip(from as int)) == index + leading_word(
                text@.skip(index as int),
            ),
        decreases text.len() - index,
    {
        proof {
            assert(text@.skip(index as int).drop_first() == text@.skip(index + 1));
        }
        index += 1;
    }
    index
}

/// Removes the white space at both ends.
pub fn trim(text: &[char]) -> (result: Vec<char>)
    ensures
        result@ == trimmed(text@),
{
    let from = skip_whitespace(text, 0);
    let mut end: usize = text.len();
    proof {
        assert(text@.skip(0) == text@);
        assert(text@.subrange(from as int, end as int) == trim_start(text@));
    }
    while end > from && is_whitespace(text[end - 1])
        invariant
            from <= end <= text@.len(),
            trimmed(text@) == trim_end(text@.subrange(from as int, end as int)),
        decreases end,
    {
        proof {
            assert(text@.subrange(from as int, end as int).drop_last() == text@.subrange(
                from as int,
                end - 1,
            ));
        }
        end -= 1;
    }
    slice_chars(text, from, end)
}

/// The maximal runs of characters that are not white space, in order.
pub open spec fn words(text: Seq<char>) -> Seq<Seq<char>>
    decreases text.len(),
{
    proof {
        lemma_word_progress(text);
    }
    let rest = trim_start(text);
    if rest.len() == 0 {
        Seq::empty()
    } else {
        seq![rest.take(leading_word(rest) as int)] + words(rest.skip(leading_word(rest) as int))
    }
}

/// Skipping white space and then a word always moves forward.
pub proof fn lemma_word_progress(text: Seq<char>)
    ensures
        leading_whitespace(text) <= text.len(),
        trim_start(text).len() > 0 ==> 0 < leading_word(trim_start(text))
            <= trim_start(text).len(),
    decreases text.len(),
{
    lemma_leading_bounds(text);
    lemma_leading_bounds(trim_start(text));
    if text.len() > 0 && whitespace(text[0]) {
        lemma_word_progress(text.drop_first());
        assert(trim_start(text) == trim_start(text.drop_first()));
    } else {
        assert(trim_start(text) == text);
    }
}

/// The pieces with `separator` between neighbours.
pub open spec fn joined(pieces: Seq<Seq<char>>, separator: Seq<char>) -> Seq<char>
    decreases pieces.len(),
{
    if pieces.len() == 0 {
        Seq::empty()
    } else if pieces.len() == 1 {
        pieces[0]
    } else {
        joined(pieces.drop_last(), separator) + separator + pieces.last()
    }
}

/// The words of a text, with single spaces between them.
pub open spec fn collapsed(text: Seq<char>) -> Seq<char> {
    joined(words(text), seq![' '])
}

/// Puts single spaces between the words of a text.
pub fn collapse_whitespace(text: &str) -> (result: String)
    ensures
        result@ == collapsed(text@),
{
    let chars = to_chars(text);
    let mut result = String::new();
    let ghost mut done: Seq<Seq<char>> = Seq::empty();
    let mut from: usize = 0;
    proof {
        assert(chars@.skip(0) == text@);
        assert(done + words(text@) == words(text@));
    }
    loop
        invariant
            chars@ == text@,
            from <= chars@.len(),
            done + words(chars@.skip(from as int)) == words(text@),
            result@ == joined(done, seq![' ']),
            done.len() == 0 <==> from == 0,
        ensures
            result@ == joined(words(text@), seq![' ']),
        decreases chars@.len() - from,
    {
        let start = skip_whitespace(&chars, from);
        let ghost rest = chars@.skip(from as int);
        proof {
            lemma_word_progress(rest);
            assert(trim_start(rest) == chars@.skip(start as int));
        }
        if start == chars.len() {
            proof {
                assert(words(rest) == Seq::<Seq<char>>::empty());
                assert(done + words(rest) == done);
            }
            break;
        }
        let end = skip_word(&chars, start);
        let word = slice_chars(&chars, start, end);
        proof {
            let first = trim_start(rest).take(leading_word(trim_start(rest)) as int);
            assert(first == word@);
            assert(trim_start(rest).skip(leading_word(trim_start(rest)) as int) == chars@.skip(
                end as int,
            ));
            assert(words(rest) == seq![word@] + words(chars@.skip(end as int)));
            assert(done + words(rest) == done.push(word@) + words(chars@.skip(end as int)));
            assert(done.push(word@).drop_last() == done);
        }
        if from != 0 {
            result.push(' ');
        }
        let ghost before = result@;
        result.append(from_chars(&word).as_str());
        proof {
            if done.len() == 0 {
                assert(before + word@ == word@);
            } else {
                assert(before == joined(done, seq![' ']) + seq![' ']);
            }
            done = done.push(word@);
            assert(result@ == joined(done, seq![' ']));
        }
        from = end;
    }
    result
}

// ---------------------------------------------------------------------------------------------
// Numbers
// ---------------------------------------------------------------------------------------------

/// The character of a digit in base ten or sixteen.
pub open spec fn digit_char(digit: int) -> char
    recommends
        0 <= digit < 16,
{
    if digit < 10 {
        ('0' as int + digit) as char
    } else {
        ('a' as int + digit - 10) as char
    }
}

/// The character of a digit below sixteen.
pub fn digit(value: u8) -> (character: char)
    requires
        value < 16,
    ensures
        character == digit_char(value as int),
{
    if value < 10 {
        (48u8 + value) as char
    } else {
        (97u8 + (value - 10)) as char
    }
}

/// The decimal digits of a number, most significant first, without leading zeros.
pub open spec fn decimal_text(value: nat) -> Seq<char>
    decreases value,
{
    if value < 10 {
        seq![digit_char(value as int)]
    } else {
        decimal_text(value / 10).push(digit_char((value % 10) as int))
    }
}

/// Renders a number in decimal.
pub fn decimal(value: u128) -> (text: String)
    ensures
        text@ == decimal_text(value as nat),
    decreases value,
{
    let last = digit((value % 10) as u8);
    if value < 10 {
        let mut text = String::new();
        text.push(last);
        proof {
            assert(text@ == decimal_text(value as nat));
        }
        text
    } else {
        let mut text = decimal(value / 10);
        text.push(last);
        text
    }
}

/// Whether a character is an ASCII digit.
pub open spec fn is_digit(character: char) -> bool {
    '0' <= character <= '9'
}

/// The number that a run of decimal digits denotes.
pub open spec fn digits_value(digits: Seq<char>) -> nat
    decreases digits.len(),
{
    if digits.len() == 0 {
        0
    } else {
        digits_value(digits.drop_last()) * 10 + (digits.last() as nat - '0' as nat) as nat
    }
}

/// Whether every character is an ASCII digit.
pub open spec fn all_digits(text: Seq<char>) -> bool {
    forall|i: int| 0 <= i < text.len() ==> is_digit(#[trigger] text[i])
}

/// A text without the plus sign that it may start with.
pub open spec fn without_plus(text: Seq<char>) -> Seq<char> {
    if text.len() > 0 && text[0] == '+' {
        text.skip(1)
    } else {
        text
    }
}

/// A decimal integer as the standard integer parser reads it: an optional plus sign, then at least
/// one digit and nothing else, with a value of at most `limit`.
pub open spec fn parsed_decimal(text: Seq<char>, limit: nat) -> Option<nat> {
    let digits = without_plus(text);
    if digits.len() > 0 && all_digits(digits) && digits_value(digits) <= limit {
        Some(digits_value(digits))
    } else {
        None
    }
}

proof fn lemma_digits_value_monotonic(digits: Seq<char>, count: int)
    requires
        0 <= count <= digits.len(),
        all_digits(digits),
    ensures
        digits_value(digits.take(count)) <= digits_value(digits),
    decreases digits.len() - count,
{
    if count < digits.len() {
        assert(digits.take(count + 1).drop_last() == digits.take(count));
        assert(is_digit(digits[count]));
        lemma_digits_value_monotonic(digits, count + 1);
    } else {
        assert(digits.take(count) == digits);
    }
}

/// Parses an unsigned decimal integer of at most `limit`.
pub fn parse_decimal(text: &[char], limit: u64) -> (value: Option<u64>)
    ensures
        match value {
            Some(number) => parsed_decimal(text@, limit as nat) == Some(number as nat),
            None => parsed_decimal(text@, limit as nat) is None,
        },
{
    let from: usize = if text.len() > 0 && text[0] == '+' {
        1
    } else {
        0
    };
    let ghost digits = without_plus(text@);
    proof {
        assert(digits == text@.skip(from as int));
    }
    if from == text.len() {
        return None;
    }
    let mut value: u64 = 0;
    let mut index: usize = from;
    while index < text.len()
        invariant
            from <= index <= text@.len(),
            from < text@.len(),
            digits == without_plus(text@),
            digits == text@.skip(from as int),
            value == digits_value(digits.take(index - from)),
            value <= limit,
            all_digits(digits.take(index - from)),
        decreases text.len() - index,
    {
        let character = text[index];
        proof {
            assert(digits[index - from] == character);
            assert(digits.take(index - from + 1).drop_last() == digits.take(index - from));
            assert(digits.take(index - from + 1).last() == character);
        }
        if !('0' <= character && character <= '9') {
            proof {
                assert(!is_digit(digits[index - from]));
            }
            return None;
        }
        let step: u64 = (character as u32 - '0' as u32) as u64;
        let wide: u128 = value as u128 * 10 + step as u128;
        if wide > limit as u128 {
            proof {
                if all_digits(digits) {
                    lemma_digits_value_monotonic(digits, index - from + 1);
                }
            }
            return None;
        }
        value = wide as u64;
        index += 1;
    }
    proof {
        assert(digits.take(index - from) == digits);
    }
    Some(value)
}

/// The value of the digits of a rendered number is the number.
pub proof fn lemma_decimal_value(value: nat)
    ensures
        decimal_text(value).len() > 0,
        all_digits(decimal_text(value)),
        digits_value(decimal_text(value)) == value,
    decreases value,
{
    let text = decimal_text(value);
    assert(text.last() as nat == '0' as nat + value % 10);
    if value < 10 {
        assert(text.drop_last() == Seq::<char>::empty());
        assert(digits_value(text.drop_last()) == 0);
    } else {
        lemma_decimal_value(value / 10);
        assert(text.drop_last() == decimal_text(value / 10));
    }
}

/// Parsing gives back the number that was rendered, for every number within the limit.
pub proof fn decimal_round_trip(value: nat, limit: nat)
    requires
        value <= limit,
    ensures
        parsed_decimal(decimal_text(value), limit) == Some(value),
{
    lemma_decimal_value(value);
    assert(is_digit(decimal_text(value)[0]));
}

/// The hexadecimal digits of a byte.
pub open spec fn byte_hex(byte: u8) -> Seq<char> {
    seq![digit_char(byte as int / 16), digit_char(byte as int % 16)]
}

/// The hexadecimal digits of some bytes, two for each.
pub open spec fn hex_text(bytes: Seq<u8>) -> Seq<char>
    decreases bytes.len(),
{
    if bytes.len() == 0 {
        Seq::empty()
    } else {
        hex_text(bytes.drop_last()) + byte_hex(bytes.last())
    }
}

/// Renders bytes in lower-case hexadecimal.
pub fn hex(bytes: &[u8]) -> (text: String)
    ensures
        text@ == hex_text(bytes@),
{
    let mut text = String::new();
    let mut index: usize = 0;
    while index < bytes.len()
        invariant
            index <= bytes@.len(),
            text@ == hex_text(bytes@.take(index as int)),
        decreases bytes.len() - index,
    {
        let ghost before = text@;
        text.push(digit(bytes[index] / 16));
        text.push(digit(bytes[index] % 16));
        proof {
            assert(bytes@.take(index + 1).drop_last() == bytes@.take(index as int));
            assert(text@ == before + byte_hex(bytes@[index as int]));
        }
        index += 1;
    }
    proof {
        assert(bytes@.take(bytes@.len() as int) == bytes@);
    }
    text
}

/// There are two digits for each byte.
pub proof fn lemma_hex_length(bytes: Seq<u8>)
    ensures
        hex_text(bytes).len() == 2 * bytes.len(),
    decreases bytes.len(),
{
    if bytes.len() > 0 {
        lemma_hex_length(bytes.drop_last());
    }
}

/// The eight bytes of a 64-bit number, most significant first.
pub open spec fn big_endian(value: u64) -> Seq<u8> {
    seq![
        (value >> 56) as u8,
        (value >> 48) as u8,
        (value >> 40) as u8,
        (value >> 32) as u8,
        (value >> 24) as u8,
        (value >> 16) as u8,
        (value >> 8) as u8,
        value as u8,
    ]
}

/// Splits a 64-bit number into bytes, most significant first.
pub fn to_big_endian(value: u64) -> (bytes: Vec<u8>)
    ensures
        bytes@ == big_endian(value),
{
    let mut bytes: Vec<u8> = Vec::new();
    bytes.push((value >> 56) as u8);
    bytes.push((value >> 48) as u8);
    bytes.push((value >> 40) as u8);
    bytes.push((value >> 32) as u8);
    bytes.push((value >> 24) as u8);
    bytes.push((value >> 16) as u8);
    bytes.push((value >> 8) as u8);
    bytes.push(value as u8);
    proof {
        assert(bytes@ == big_endian(value));
    }
    bytes
}

// ---------------------------------------------------------------------------------------------
// Order
// ---------------------------------------------------------------------------------------------

/// Whether `left` comes before `right` in the order of their characters from `index` on.
pub open spec fn precedes_from(left: Seq<char>, right: Seq<char>, index: int) -> bool
    decreases right.len() - index,
{
    if index >= right.len() {
        false
    } else if index >= left.len() {
        true
    } else if left[index] != right[index] {
        (left[index] as int) < (right[index] as int)
    } else {
        precedes_from(left, right, index + 1)
    }
}

/// Whether `left` comes before `right` in lexicographic order.
pub open spec fn precedes(left: Seq<char>, right: Seq<char>) -> bool {
    precedes_from(left, right, 0)
}

/// Decides whether one text comes before another.
pub fn is_before(left: &str, right: &str) -> (before: bool)
    ensures
        before == precedes(left@, right@),
{
    let left_chars = to_chars(left);
    let right_chars = to_chars(right);
    let mut index: usize = 0;
    while index < right_chars.len()
        invariant
            index <= right_chars@.len(),
            index <= left_chars@.len(),
            left_chars@ == left@,
            right_chars@ == right@,
            precedes(left@, right@) == precedes_from(left@, right@, index as int),
        decreases right_chars.len() - index,
    {
        if index >= left_chars.len() {
            return true;
        }
        let a = left_chars[index];
        let b = right_chars[index];
        if a != b {
            return a < b;
        }
        index += 1;
    }
    false
}

proof fn lemma_precedes_from_transitive(a: Seq<char>, b: Seq<char>, c: Seq<char>, index: int)
    requires
        0 <= index,
        precedes_from(a, b, index),
        precedes_from(b, c, index),
    ensures
        precedes_from(a, c, index),
    decreases b.len() - index,
{
    if index < a.len() && index < b.len() && index < c.len() && a[index] == b[index] && b[index]
        == c[index] {
        lemma_precedes_from_transitive(a, b, c, index + 1);
    }
}

proof fn lemma_precedes_from_total(a: Seq<char>, b: Seq<char>, index: int)
    requires
        0 <= index <= a.len(),
        index <= b.len(),
        a.take(index) == b.take(index),
        !precedes_from(a, b, index),
        !precedes_from(b, a, index),
    ensures
        a == b,
    decreases b.len() - index,
{
    if index >= b.len() {
        assert(index >= a.len());
        assert(a.take(index) =~= a);
        assert(b.take(index) =~= b);
    } else {
        assert(index < a.len());
        assert(a[index] == b[index]);
        assert(a.take(index + 1) =~= a.take(index).push(a[index]));
        assert(b.take(index + 1) =~= b.take(index).push(b[index]));
        lemma_precedes_from_total(a, b, index + 1);
    }
}

proof fn lemma_precedes_from_irreflexive(a: Seq<char>, index: int)
    requires
        0 <= index,
    ensures
        !precedes_from(a, a, index),
    decreases a.len() - index,
{
    if index < a.len() {
        lemma_precedes_from_irreflexive(a, index + 1);
    }
}

/// The order of texts is a strict total order.
pub proof fn text_order_is_total(a: Seq<char>, b: Seq<char>, c: Seq<char>)
    ensures
        !precedes(a, a),
        precedes(a, b) && precedes(b, c) ==> precedes(a, c),
        a == b || precedes(a, b) || precedes(b, a),
        !(precedes(a, b) && precedes(b, a)),
{
    lemma_precedes_from_irreflexive(a, 0);
    if precedes(a, b) && precedes(b, c) {
        lemma_precedes_from_transitive(a, b, c, 0);
    }
    if !precedes(a, b) && !precedes(b, a) {
        assert(a.take(0) =~= b.take(0));
        lemma_precedes_from_total(a, b, 0);
    }
    if precedes(a, b) && precedes(b, a) {
        lemma_precedes_from_transitive(a, b, a, 0);
    }
}

// ---------------------------------------------------------------------------------------------
// Splitting
// ---------------------------------------------------------------------------------------------

/// The parts of a text between separators; there is always at least one, which may be empty.
pub open spec fn split(text: Seq<char>, separator: char) -> Seq<Seq<char>>
    decreases text.len(),
{
    let position = find_from(text, separator, 0);
    if position < 0 || position >= text.len() {
        seq![text]
    } else {
        seq![text.take(position)] + split(text.skip(position + 1), separator)
    }
}

/// Splits a text at a separator.
pub fn split_chars(text: &[char], separator: char) -> (parts: Vec<String>)
    ensures
        parts.deep_view() == split(text@, separator),
{
    let mut parts: Vec<String> = Vec::new();
    let mut from: usize = 0;
    let ghost whole = split(text@, separator);
    proof {
        assert(text@.skip(0) =~= text@);
        assert(parts.deep_view() + whole =~= whole);
    }
    loop
        invariant
            from <= text@.len(),
            whole == split(text@, separator),
            parts.deep_view() + split(text@.skip(from as int), separator) == whole,
        decreases text.len() - from,
    {
        let ghost rest = text@.skip(from as int);
        let position: usize = find_char(text, separator, from);
        proof {
            lemma_find_shift(text@, separator, from as int);
        }
        let part = slice_chars(text, from, position);
        let ghost before = parts.deep_view();
        parts.push(from_chars(part.as_slice()));
        if position >= text.len() {
            proof {
                assert(part@ =~= rest);
                assert(parts.deep_view() =~= before + seq![rest]);
            }
            return parts;
        }
        proof {
            assert(part@ =~= rest.take(position - from));
            assert(rest.skip(position - from + 1) =~= text@.skip(position + 1));
            assert(parts.deep_view() + split(text@.skip(position + 1), separator) =~= before + (
            seq![part@] + split(text@.skip(position + 1), separator)));
        }
        from = position + 1;
    }
}

/// Looking from a position on is looking in the rest.
pub proof fn lemma_find_shift(text: Seq<char>, needle: char, from: int)
    requires
        0 <= from <= text.len(),
    ensures
        find_from(text, needle, from) == from + find_from(text.skip(from), needle, 0),
{
    lemma_find_from(text, needle, from);
    lemma_find_from(text.skip(from), needle, 0);
    let rest = text.skip(from);
    let a = find_from(text, needle, from);
    let b = find_from(rest, needle, 0);
    if a < text.len() {
        assert(rest[a - from] == needle);
    }
    if b < rest.len() {
        assert(text[from + b] == needle);
    }
    if a < from + b {
        assert(rest[a - from] != needle);
    }
    if from + b < a {
        assert(text[from + b] != needle);
    }
}

proof fn lemma_joined_front(first: Seq<char>, parts: Seq<Seq<char>>, separator: Seq<char>)
    requires
        parts.len() > 0,
    ensures
        joined(seq![first] + parts, separator) == first + separator + joined(parts, separator),
    decreases parts.len(),
{
    let all = seq![first] + parts;
    assert(all.drop_last() =~= seq![first] + parts.drop_last());
    assert(all.last() == parts.last());
    if parts.len() == 1 {
        assert(all.drop_last() =~= seq![first]);
        assert(joined(all.drop_last(), separator) == first);
    } else {
        lemma_joined_front(first, parts.drop_last(), separator);
        assert(joined(all, separator) =~= first + separator + joined(parts, separator));
    }
}

/// The parts of a text, put together with the separator, are the text.
pub proof fn split_parts_make_the_text(text: Seq<char>, separator: char)
    ensures
        split(text, separator).len() > 0,
        joined(split(text, separator), seq![separator]) == text,
    decreases text.len(),
{
    lemma_find_from(text, separator, 0);
    let position = find_from(text, separator, 0);
    if position < text.len() {
        let rest = text.skip(position + 1);
        split_parts_make_the_text(rest, separator);
        lemma_joined_front(text.take(position), split(rest, separator), seq![separator]);
        assert(text =~= text.take(position) + seq![separator] + rest);
    }
}

// ---------------------------------------------------------------------------------------------
// Laws of words
// ---------------------------------------------------------------------------------------------

/// Whether every character is white space.
pub open spec fn blank(text: Seq<char>) -> bool {
    forall|i: int| 0 <= i < text.len() ==> whitespace(#[trigger] text[i])
}

/// Whether a text can be a word: it is not empty and holds no white space.
pub open spec fn is_word(text: Seq<char>) -> bool {
    text.len() > 0 && forall|i: int| 0 <= i < text.len() ==> !whitespace(#[trigger] text[i])
}

/// Whether single spaces are the only white space of a text, and stand neither at its start nor at
/// its end.
pub open spec fn tidy(text: Seq<char>) -> bool {
    &&& text.len() > 0 ==> !whitespace(text[0]) && !whitespace(text.last())
    &&& forall|i: int| 0 <= i < text.len() && whitespace(#[trigger] text[i]) ==> text[i] == ' '
    &&& forall|i: int|
        0 < i < text.len() && whitespace(#[trigger] text[i]) ==> !whitespace(text[i - 1])
}

proof fn lemma_leading_blank(blanks: Seq<char>, text: Seq<char>)
    requires
        blank(blanks),
    ensures
        trim_start(blanks + text) == trim_start(text),
        words(blanks + text) == words(text),
    decreases blanks.len(),
{
    if blanks.len() == 0 {
        assert(blanks + text == text);
    } else {
        let rest = blanks.drop_first();
        assert forall|i: int| 0 <= i < rest.len() implies whitespace(#[trigger] rest[i]) by {
            assert(rest[i] == blanks[i + 1]);
        }
        assert(whitespace(blanks[0]));
        assert((blanks + text).drop_first() == rest + text);
        lemma_leading_blank(rest, text);
        lemma_leading_bounds(rest + text);
        assert(trim_start(blanks + text) == trim_start(rest + text));
    }
}

proof fn lemma_leading_word(word: Seq<char>, text: Seq<char>)
    requires
        forall|i: int| 0 <= i < word.len() ==> !whitespace(#[trigger] word[i]),
        text.len() > 0 ==> whitespace(text[0]),
    ensures
        leading_word(word + text) == word.len(),
    decreases word.len(),
{
    if word.len() == 0 {
        assert(word + text == text);
    } else {
        let rest = word.drop_first();
        assert forall|i: int| 0 <= i < rest.len() implies !whitespace(#[trigger] rest[i]) by {
            assert(rest[i] == word[i + 1]);
        }
        assert(!whitespace(word[0]));
        assert((word + text).drop_first() == rest + text);
        lemma_leading_word(rest, text);
    }
}

proof fn lemma_first_word(word: Seq<char>, text: Seq<char>)
    requires
        is_word(word),
        text.len() > 0 ==> whitespace(text[0]),
    ensures
        words(word + text) == seq![word] + words(text),
{
    let whole = word + text;
    assert(!whitespace(word[0]));
    assert(trim_start(whole) == whole);
    lemma_leading_word(word, text);
    assert(whole.take(word.len() as int) == word);
    assert(whole.skip(word.len() as int) == text);
}

/// A text in which something is not white space starts with white space, a word, and what does not
/// belong to the word.
proof fn lemma_word_found(text: Seq<char>)
    ensures
        blank(text.take(leading_whitespace(text) as int)),
        text == text.take(leading_whitespace(text) as int) + trim_start(text),
        trim_start(text).len() > 0 ==> {
            let rest = trim_start(text);
            let length = leading_word(rest) as int;
            &&& 0 < length <= rest.len()
            &&& is_word(rest.take(length))
            &&& rest == rest.take(length) + rest.skip(length)
            &&& length < rest.len() ==> whitespace(rest[length])
        },
{
    lemma_word_progress(text);
    lemma_leading_prefix(text);
    lemma_leading_prefix(trim_start(text));
    let rest = trim_start(text);
    let length = leading_word(rest) as int;
    assert(text == text.take(leading_whitespace(text) as int) + rest);
    if rest.len() > 0 {
        assert(rest == rest.take(length) + rest.skip(length));
    }
}

proof fn lemma_leading_prefix(text: Seq<char>)
    ensures
        leading_whitespace(text) <= text.len(),
        leading_word(text) <= text.len(),
        forall|i: int| 0 <= i < leading_whitespace(text) ==> whitespace(#[trigger] text[i]),
        forall|i: int| 0 <= i < leading_word(text) ==> !whitespace(#[trigger] text[i]),
        leading_word(text) < text.len() ==> whitespace(text[leading_word(text) as int]),
    decreases text.len(),
{
    if text.len() > 0 {
        let rest = text.drop_first();
        lemma_leading_prefix(rest);
        assert forall|i: int| 0 <= i < leading_whitespace(text) implies whitespace(
            #[trigger] text[i],
        ) by {
            if i > 0 {
                assert(text[i] == rest[i - 1]);
            }
        }
        assert forall|i: int| 0 <= i < leading_word(text) implies !whitespace(
            #[trigger] text[i],
        ) by {
            if i > 0 {
                assert(text[i] == rest[i - 1]);
            }
        }
    }
}

/// Every word is one.
proof fn lemma_words_are_words(text: Seq<char>)
    ensures
        forall|i: int| 0 <= i < words(text).len() ==> is_word(#[trigger] words(text)[i]),
    decreases text.len(),
{
    lemma_word_found(text);
    let rest = trim_start(text);
    if rest.len() > 0 {
        let length = leading_word(rest) as int;
        let others = rest.skip(length);
        lemma_words_are_words(others);
        assert forall|i: int| 0 <= i < words(text).len() implies is_word(
            #[trigger] words(text)[i],
        ) by {
            if i > 0 {
                assert(words(text)[i] == words(others)[i - 1]);
            } else {
                assert(words(text)[0] == rest.take(length));
            }
        }
    }
}

/// White space between two texts separates their words.
pub proof fn white_space_separates_words(before: Seq<char>, space: Seq<char>, after: Seq<char>)
    requires
        space.len() > 0,
        blank(space),
    ensures
        words(before + space + after) == words(before) + words(after),
    decreases before.len(),
{
    lemma_word_found(before);
    let lead = before.take(leading_whitespace(before) as int);
    let rest = trim_start(before);
    let whole = before + space + after;
    if rest.len() == 0 {
        let blanks = before + space;
        assert(lead == before);
        assert forall|i: int| 0 <= i < blanks.len() implies whitespace(#[trigger] blanks[i]) by {
            if i < before.len() {
                assert(blanks[i] == lead[i]);
            } else {
                assert(blanks[i] == space[i - before.len()]);
            }
        }
        lemma_leading_blank(blanks, after);
        assert(words(before) + words(after) == words(after));
    } else {
        let length = leading_word(rest) as int;
        let word = rest.take(length);
        let others = rest.skip(length);
        let tail = others + space + after;
        assert(whole == lead + (word + tail));
        lemma_leading_blank(lead, word + tail);
        assert(whitespace(space[0]));
        assert(whitespace(tail[0]));
        lemma_first_word(word, tail);
        white_space_separates_words(others, space, after);
        assert(words(whole) == seq![word] + (words(others) + words(after)));
        assert(words(before) + words(after) == seq![word] + (words(others) + words(after)));
    }
}

/// Words that are put together with single spaces are the words of what they make, which is tidy.
proof fn lemma_joined_words(parts: Seq<Seq<char>>)
    requires
        forall|i: int| 0 <= i < parts.len() ==> is_word(#[trigger] parts[i]),
    ensures
        words(joined(parts, seq![' '])) == parts,
        tidy(joined(parts, seq![' '])),
        parts.len() > 0 ==> joined(parts, seq![' ']).len() > 0,
    decreases parts.len(),
{
    let space = seq![' '];
    if parts.len() == 0 {
        assert(words(Seq::<char>::empty()) == parts);
    } else if parts.len() == 1 {
        let none = Seq::<char>::empty();
        assert(is_word(parts[0]));
        lemma_first_word(parts[0], none);
        assert(parts[0] + none == parts[0]);
        assert(words(none) == Seq::<Seq<char>>::empty());
        assert(words(parts[0]) == parts);
    } else {
        let before = parts.drop_last();
        assert forall|i: int| 0 <= i < before.len() implies is_word(#[trigger] before[i]) by {
            assert(before[i] == parts[i]);
        }
        lemma_joined_words(before);
        let front = joined(before, space);
        let word = parts.last();
        assert(is_word(parts[parts.len() - 1]));
        let none = Seq::<char>::empty();
        lemma_first_word(word, none);
        assert(word + none == word);
        assert(words(none) == Seq::<Seq<char>>::empty());
        assert(words(word) == seq![word]);
        white_space_separates_words(front, space, word);
        assert(before + seq![word] == parts);
        let whole = joined(parts, space);
        assert(whole == front + space + word);
        assert forall|i: int| 0 <= i < whole.len() && whitespace(#[trigger] whole[i]) implies whole[i]
            == ' ' by {
            if i < front.len() {
                assert(whole[i] == front[i]);
            } else if i > front.len() {
                assert(whole[i] == word[i - front.len() - 1]);
            }
        }
        assert forall|i: int| 0 < i < whole.len() && whitespace(#[trigger] whole[i]) implies
            !whitespace(whole[i - 1]) by {
            if i < front.len() {
                assert(whole[i] == front[i]);
            } else if i > front.len() {
                assert(whole[i] == word[i - front.len() - 1]);
            } else {
                assert(whole[i - 1] == front.last());
            }
        }
    }
}

/// A collapsed text is tidy: it starts and ends with no white space, and holds none but single
/// spaces. It has the words that the text has, and collapsing it again changes nothing.
pub proof fn collapsed_texts_are_tidy(text: Seq<char>)
    ensures
        tidy(collapsed(text)),
        words(collapsed(text)) == words(text),
        collapsed(collapsed(text)) == collapsed(text),
{
    lemma_words_are_words(text);
    lemma_joined_words(words(text));
}

/// How much white space there is, and which, does not change the collapsed text.
pub proof fn white_space_is_collapsed(
    before: Seq<char>,
    space: Seq<char>,
    other: Seq<char>,
    after: Seq<char>,
)
    requires
        blank(space),
        blank(other),
        space.len() > 0,
        other.len() > 0,
    ensures
        collapsed(before + space + after) == collapsed(before + other + after),
        collapsed(space + after) == collapsed(after),
        collapsed(before + space) == collapsed(before),
{
    white_space_separates_words(before, space, after);
    white_space_separates_words(before, other, after);
    lemma_leading_blank(space, after);
    let none = Seq::<char>::empty();
    white_space_separates_words(before, space, none);
    assert(before + space + none == before + space);
    assert(words(none) == Seq::<Seq<char>>::empty());
    assert(words(before) + words(none) == words(before));
}

proof fn lemma_ascii_lower(character: char)
    ensures
        whitespace(ascii_lower(character)) == whitespace(character),
        ascii_lower(ascii_lower(character)) == ascii_lower(character),
        ascii_lower(character) <= '\u{7f}' <==> character <= '\u{7f}',
        ascii_lower(character) == ' ' <==> character == ' ',
{
}

/// The words with their ASCII capitals made small.
pub open spec fn lowered_words(parts: Seq<Seq<char>>) -> Seq<Seq<char>> {
    Seq::new(parts.len(), |i: int| ascii_lowered(parts[i]))
}

proof fn lemma_leading_lowered(text: Seq<char>)
    ensures
        leading_whitespace(ascii_lowered(text)) == leading_whitespace(text),
        leading_word(ascii_lowered(text)) == leading_word(text),
    decreases text.len(),
{
    if text.len() > 0 {
        lemma_ascii_lower(text[0]);
        lemma_leading_lowered(text.drop_first());
        assert(ascii_lowered(text).drop_first() == ascii_lowered(text.drop_first()));
    }
}

proof fn lemma_words_lowered(text: Seq<char>)
    ensures
        words(ascii_lowered(text)) == lowered_words(words(text)),
    decreases text.len(),
{
    let lower = ascii_lowered(text);
    lemma_word_found(text);
    lemma_leading_lowered(text);
    lemma_leading_bounds(text);
    let rest = trim_start(text);
    assert(trim_start(lower) == ascii_lowered(rest));
    if rest.len() > 0 {
        lemma_leading_lowered(rest);
        let length = leading_word(rest) as int;
        let others = rest.skip(length);
        lemma_words_lowered(others);
        assert(ascii_lowered(rest).take(length) == ascii_lowered(rest.take(length)));
        assert(ascii_lowered(rest).skip(length) == ascii_lowered(others));
        assert(words(lower) == seq![ascii_lowered(rest.take(length))] + lowered_words(
            words(others),
        ));
        assert(words(text) == seq![rest.take(length)] + words(others));
        assert(lowered_words(words(text)) == words(lower));
    } else {
        assert(words(lower) == lowered_words(words(text)));
    }
}

proof fn lemma_joined_lowered(parts: Seq<Seq<char>>)
    ensures
        joined(lowered_words(parts), seq![' ']) == ascii_lowered(joined(parts, seq![' '])),
    decreases parts.len(),
{
    let lower = lowered_words(parts);
    if parts.len() > 1 {
        lemma_joined_lowered(parts.drop_last());
        assert(lower.drop_last() == lowered_words(parts.drop_last()));
        assert(joined(lower, seq![' ']) == ascii_lowered(joined(parts, seq![' '])));
    } else if parts.len() == 0 {
        assert(joined(lower, seq![' ']) == ascii_lowered(joined(parts, seq![' '])));
    }
}

/// Making ASCII capitals small and collapsing white space do not disturb each other; what is tidy
/// stays so, and nothing is left to be made small.
pub proof fn small_letters_keep_words(text: Seq<char>)
    ensures
        collapsed(ascii_lowered(text)) == ascii_lowered(collapsed(text)),
        ascii_lowered(ascii_lowered(text)) == ascii_lowered(text),
        ascii(ascii_lowered(text)) == ascii(text),
        tidy(text) ==> tidy(ascii_lowered(text)),
{
    let lower = ascii_lowered(text);
    lemma_words_lowered(text);
    lemma_joined_lowered(words(text));
    assert forall|i: int| 0 <= i < text.len() implies {
        &&& whitespace(#[trigger] lower[i]) == whitespace(text[i])
        &&& ascii_lower(lower[i]) == lower[i]
        &&& lower[i] <= '\u{7f}' <==> text[i] <= '\u{7f}'
        &&& lower[i] == ' ' <==> text[i] == ' '
    } by {
        lemma_ascii_lower(text[i]);
    }
    assert(ascii_lowered(lower) == lower);
    if ascii(lower) {
        assert forall|i: int| 0 <= i < text.len() implies #[trigger] text[i] <= '\u{7f}' by {
            assert(lower[i] <= '\u{7f}');
        }
    }
    if tidy(text) {
        assert forall|i: int| 0 <= i < lower.len() && whitespace(#[trigger] lower[i]) implies lower[i]
            == ' ' by {
            assert(whitespace(text[i]));
        }
        assert forall|i: int| 0 < i < lower.len() && whitespace(#[trigger] lower[i]) implies
            !whitespace(lower[i - 1]) by {
            assert(whitespace(text[i]));
            assert(!whitespace(text[i - 1]));
        }
    }
}

proof fn lemma_trim_start_ends(text: Seq<char>)
    ensures
        leading_whitespace(text) <= text.len(),
        forall|i: int|
            0 <= i < leading_whitespace(text) ==> whitespace(#[trigger] text[i]),
        leading_whitespace(text) < text.len() ==> !whitespace(
            text[leading_whitespace(text) as int],
        ),
    decreases text.len(),
{
    if text.len() > 0 && whitespace(text[0]) {
        let rest = text.drop_first();
        lemma_trim_start_ends(rest);
        assert forall|i: int| 0 <= i < leading_whitespace(text) implies whitespace(
            #[trigger] text[i],
        ) by {
            if i > 0 {
                assert(rest[i - 1] == text[i]);
            }
        }
        if leading_whitespace(text) < text.len() {
            assert(rest[leading_whitespace(rest) as int]
                == text[leading_whitespace(text) as int]);
        }
    }
}

proof fn lemma_trim_end_ends(text: Seq<char>)
    ensures
        trim_end(text).is_prefix_of(text),
        forall|i: int|
            trim_end(text).len() <= i < text.len() ==> whitespace(#[trigger] text[i]),
        trim_end(text).len() > 0 ==> !whitespace(trim_end(text).last()),
    decreases text.len(),
{
    if text.len() > 0 && whitespace(text.last()) {
        let rest = text.drop_last();
        lemma_trim_end_ends(rest);
        assert forall|i: int| trim_end(text).len() <= i < text.len() implies whitespace(
            #[trigger] text[i],
        ) by {
            if i < rest.len() {
                assert(rest[i] == text[i]);
            }
        }
        assert(trim_end(text) =~= text.take(trim_end(text).len() as int));
    }
}

/// A text is trimmed of the white space at its ends and of nothing else: what is left neither starts
/// nor ends with white space, and what was taken off is nothing but that.
pub proof fn trimming_takes_white_space_off_the_ends(text: Seq<char>)
    ensures
        exists|from: int, to: int|
            0 <= from <= to <= text.len() && trimmed(text) == #[trigger] text.subrange(from, to)
                && (forall|i: int| 0 <= i < from ==> whitespace(#[trigger] text[i])) && (forall|
                i: int,
            |
                to <= i < text.len() ==> whitespace(#[trigger] text[i])),
        trimmed(text).len() > 0 ==> !whitespace(trimmed(text)[0]) && !whitespace(
            trimmed(text).last(),
        ),
{
    lemma_trim_start_ends(text);
    let rest = trim_start(text);
    lemma_trim_end_ends(rest);
    let from = leading_whitespace(text) as int;
    let to = from + trim_end(rest).len();
    assert(trimmed(text) =~= text.subrange(from, to));
    assert forall|i: int| to <= i < text.len() implies whitespace(#[trigger] text[i]) by {
        assert(rest[i - from] == text[i]);
    }
    if trimmed(text).len() > 0 {
        assert(trimmed(text)[0] == text[from]);
    }
}

/// A number is read from digits alone, behind a plus sign or without one, if it is within its limit.
pub proof fn numbers_are_read_from_digits(digits: Seq<char>, limit: nat, index: int)
    ensures
        0 <= index < digits.len() && !is_digit(digits[index]) && (index > 0 || digits[index] != '+')
            ==> parsed_decimal(digits, limit) is None,
        digits.len() == 0 ==> parsed_decimal(digits, limit) is None,
        all_digits(digits) && digits.len() > 0 ==> parsed_decimal(seq!['+'] + digits, limit)
            == parsed_decimal(digits, limit),
        all_digits(digits) && digits.len() > 0 && digits_value(digits) > limit ==> parsed_decimal(
            digits,
            limit,
        ) is None,
        all_digits(digits) && digits.len() > 0 && digits_value(digits) <= limit ==> parsed_decimal(
            digits,
            limit,
        ) == Some(digits_value(digits)),
{
    assert((seq!['+'] + digits).skip(1) =~= digits);
    if digits.len() > 0 {
        assert(all_digits(digits) ==> is_digit(digits[0]));
    }
    if 0 <= index < digits.len() && !is_digit(digits[index]) && (index > 0 || digits[index]
        != '+') {
        let read = without_plus(digits);
        if digits[0] == '+' {
            assert(read[index - 1] == digits[index]);
        } else {
            assert(read[index] == digits[index]);
        }
    }
}

/// Each digit of a number counts ten times the one behind it.
pub proof fn digits_count_by_their_place(before: Seq<char>, digit: char)
    requires
        is_digit(digit),
    ensures
        digits_value(before.push(digit)) == 10 * digits_value(before) + (digit as int - '0' as int),
        digits_value(Seq::empty()) == 0,
{
    assert(before.push(digit).drop_last() =~= before);
}

/// Two texts come in the order of their first different characters; of a text and a longer one that
/// begins with it, the shorter comes first.
pub proof fn first_differences_decide_the_order(
    common: Seq<char>,
    first: char,
    second: char,
    left: Seq<char>,
    right: Seq<char>,
)
    ensures
        (first as int) < (second as int) ==> precedes(
            common + seq![first] + left,
            common + seq![second] + right,
        ) && !precedes(common + seq![second] + right, common + seq![first] + left),
        precedes(common, common + seq![first] + left),
        !precedes(common + seq![first] + left, common),
        !precedes(common, common),
{
    lemma_order_from(common, first, second, left, right, 0);
}

proof fn lemma_order_from(
    common: Seq<char>,
    first: char,
    second: char,
    left: Seq<char>,
    right: Seq<char>,
    index: int,
)
    requires
        0 <= index <= common.len(),
    ensures
        (first as int) < (second as int) ==> precedes_from(
            common + seq![first] + left,
            common + seq![second] + right,
            index,
        ) && !precedes_from(common + seq![second] + right, common + seq![first] + left, index),
        precedes_from(common, common + seq![first] + left, index),
        !precedes_from(common + seq![first] + left, common, index),
        !precedes_from(common, common, index),
    decreases common.len() - index,
{
    let a = common + seq![first] + left;
    let b = common + seq![second] + right;
    if index < common.len() {
        assert(a[index] == common[index]);
        assert(b[index] == common[index]);
        lemma_order_from(common, first, second, left, right, index + 1);
    } else {
        assert(a[index] == first);
        assert(b[index] == second);
    }
}

/// Of a character only an ASCII capital changes when it is made small, to the letter thirty-two
/// places behind it; making it small twice is the same as once.
pub proof fn only_capitals_are_made_small(character: char)
    ensures
        'A' <= character <= 'Z' ==> ascii_lower(character) as int == character as int + 32,
        !('A' <= character <= 'Z') ==> ascii_lower(character) == character,
        ascii_lower(ascii_lower(character)) == ascii_lower(character),
{
}

/// The two hexadecimal digits of a byte tell it; they are digits or the first six small letters.
pub proof fn hexadecimal_digits_tell_bytes(first: u8, second: u8)
    ensures
        byte_hex(first) == byte_hex(second) ==> first == second,
        byte_hex(first).len() == 2,
        forall|i: int|
            0 <= i < 2 ==> is_digit(#[trigger] byte_hex(first)[i]) || 'a' <= byte_hex(first)[i]
                <= 'f',
        first < 10 ==> byte_hex(first) == seq!['0', ('0' as u8 + first) as char],
{
    let high = first as int / 16;
    let low = first as int % 16;
    assert(0 <= high < 16);
    assert(0 <= low < 16);
    assert(byte_hex(first)[0] == digit_char(high));
    assert(byte_hex(first)[1] == digit_char(low));
    assert(byte_hex(second)[0] == digit_char(second as int / 16));
    assert(byte_hex(second)[1] == digit_char(second as int % 16));
}

} // verus!
