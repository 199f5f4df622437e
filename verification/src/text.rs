//! Text: concatenation, comparison, and number formatting.

use vstd::prelude::*;
use vstd::utf8::*;

use crate::seqs;

verus! {

/// `std`'s `String::push` appends one character.
pub assume_specification[ std::string::String::push ](s: &mut String, c: char)
    ensures
        final(s)@ == old(s)@.push(c),
;

/// What is left of a byte string when its invalid UTF-8 has been replaced.
pub uninterp spec fn utf8_lossy(bytes: Seq<u8>) -> Seq<char>;

/// `std`'s `String::from_utf8_lossy`: the text is a function of the bytes, and valid UTF-8
/// is decoded unchanged. Which replacement characters stand for invalid bytes is left
/// unsaid.
#[verifier::external_body]
pub(crate) fn lossy_text(bytes: &[u8]) -> (decoded: String)
    ensures
        decoded@ == utf8_lossy(bytes@),
        valid_utf8(bytes@) ==> encode_utf8(decoded@) == bytes@,
{
    String::from_utf8_lossy(bytes).into_owned()
}

/// `std`'s `str::from_utf8`: it decodes exactly the valid UTF-8 byte strings.
#[verifier::external_body]
pub(crate) fn utf8_text(bytes: &[u8]) -> (decoded: Option<String>)
    ensures
        decoded is Some == valid_utf8(bytes@),
        decoded matches Some(value) ==> encode_utf8(value@) == bytes@,
{
    std::str::from_utf8(bytes).ok().map(|value| value.to_owned())
}

/// The character that writes one digit below eight or ten.
pub open spec fn digit_char(digit: nat) -> char {
    (48 + digit) as char
}

/// The digits of `value` in a base up to ten, without leading zeros.
pub open spec fn digits(value: nat, base: nat) -> Seq<char>
    decreases value,
{
    if base < 2 || value < base {
        seq![digit_char(value)]
    } else {
        proof {
            vstd::arithmetic::div_mod::lemma_div_decreases(value as int, base as int);
        }
        digits(value / base, base).push(digit_char(value % base))
    }
}

/// The usual decimal notation.
pub open spec fn decimal(value: nat) -> Seq<char> {
    digits(value, 10)
}

/// Text filled up on the left with zeros to at least `width` characters.
pub open spec fn zero_padded(text: Seq<char>, width: nat) -> Seq<char> {
    if text.len() >= width {
        text
    } else {
        Seq::new((width - text.len()) as nat, |i: int| '0') + text
    }
}

/// A permission mode in octal with at least four digits.
pub open spec fn octal4(mode: nat) -> Seq<char> {
    zero_padded(digits(mode, 8), 4)
}

fn digits_of(value: u64, base: u64) -> (text: String)
    requires
        2 <= base <= 10,
    ensures
        text@ == digits(value as nat, base as nat),
    decreases value,
{
    if value < base {
        let mut text = String::new();
        text.push((48u8 + value as u8) as char);
        proof {
            assert(text@ =~= seq![digit_char(value as nat)]);
        }
        text
    } else {
        proof {
            vstd::arithmetic::div_mod::lemma_div_decreases(value as int, base as int);
        }
        let mut text = digits_of(value / base, base);
        let low: u64 = value % base;
        text.push((48u8 + low as u8) as char);
        text
    }
}

/// Formats a number in decimal.
pub fn decimal_text(value: u64) -> (text: String)
    ensures
        text@ == decimal(value as nat),
{
    digits_of(value, 10)
}

/// Formats a mode in octal, padded to four digits.
pub fn octal4_text(mode: u32) -> (text: String)
    ensures
        text@ == octal4(mode as nat),
{
    zero_padded_text(digits_of(mode as u64, 8), 4)
}

/// Pads text on the left with zeros.
pub fn zero_padded_text(text: String, width: usize) -> (padded: String)
    ensures
        padded@ == zero_padded(text@, width as nat),
{
    let length: usize = text.as_str().unicode_len();
    if length >= width {
        return text;
    }
    let mut padded = String::new();
    let mut i: usize = 0;
    while i < width - length
        invariant
            length < width,
            i <= width - length,
            padded@ == Seq::new(i as nat, |k: int| '0'),
        decreases width - length - i,
    {
        padded.push('0');
        i = i + 1;
        assert(padded@ =~= Seq::new(i as nat, |k: int| '0'));
    }
    padded.append(text.as_str());
    padded
}

/// UTF-8 encodings determine their text.
pub proof fn lemma_encoding_injective(a: Seq<char>, b: Seq<char>)
    requires
        encode_utf8(a) == encode_utf8(b),
    ensures
        a == b,
{
    encode_utf8_decode_utf8(a);
    encode_utf8_decode_utf8(b);
}

/// Tells whether two texts are the same.
pub fn text_equal(a: &str, b: &str) -> (equal: bool)
    ensures
        equal == (a@ == b@),
{
    let equal = crate::seqs::bytes_equal(a.as_bytes(), b.as_bytes());
    proof {
        if equal {
            lemma_encoding_injective(a@, b@);
        }
    }
    equal
}

/// The characters of a text.
pub fn characters(text: &str) -> (all: Vec<char>)
    ensures
        all@ == text@,
{
    let mut all: Vec<char> = Vec::new();
    for c in it: text.chars()
        invariant
            all@ == it.seq().take(it.index() as int),
            it.seq() == text@,
    {
        all.push(c);
        assert(all@ =~= it.seq().take(it.index() + 1));
    }
    assert(all@ =~= text@);
    all
}

/// The text made of the given characters.
pub fn from_characters(all: &[char]) -> (text: String)
    ensures
        text@ == all@,
{
    let mut text = String::new();
    let mut i: usize = 0;
    while i < all.len()
        invariant
            i <= all.len(),
            text@ == all@.take(i as int),
        decreases all.len() - i,
    {
        text.push(all[i]);
        i = i + 1;
        assert(text@ =~= all@.take(i as int));
    }
    assert(all@.take(all@.len() as int) =~= all@);
    text
}

/// Tells whether a text starts with `prefix`.
pub fn text_starts_with(text: &str, prefix: &str) -> (starts: bool)
    ensures
        starts == prefix@.is_prefix_of(text@),
{
    let all = characters(text);
    let start = characters(prefix);
    if start.len() > all.len() {
        return false;
    }
    let mut i: usize = 0;
    while i < start.len()
        invariant
            start.len() <= all.len(),
            i <= start.len(),
            all@ == text@,
            start@ == prefix@,
            forall|k: int| 0 <= k < i ==> start@[k] == all@[k],
        decreases start.len() - i,
    {
        if start[i] != all[i] {
            assert(text@.subrange(0, prefix@.len() as int)[i as int] != prefix@[i as int]);
            return false;
        }
        i = i + 1;
    }
    assert(text@.subrange(0, prefix@.len() as int) =~= prefix@);
    true
}

/// The text after its first `count` characters.
pub fn text_skip(text: &str, count: usize) -> (rest: String)
    requires
        count <= text@.len(),
    ensures
        rest@ == text@.skip(count as int),
{
    let all = characters(text);
    let rest = from_characters(&all.as_slice()[count..all.len()]);
    assert(rest@ =~= text@.skip(count as int));
    rest
}

/// Two texts, one after the other.
pub fn concat2(a: &str, b: &str) -> (text: String)
    ensures
        text@ == a@ + b@,
{
    let mut text = a.to_owned();
    text.append(b);
    text
}

/// Three texts, one after the other.
pub fn concat3(a: &str, b: &str, c: &str) -> (text: String)
    ensures
        text@ == a@ + b@ + c@,
{
    let mut text = concat2(a, b);
    text.append(c);
    text
}

/// Four texts, one after the other.
pub fn concat4(a: &str, b: &str, c: &str, d: &str) -> (text: String)
    ensures
        text@ == a@ + b@ + c@ + d@,
{
    let mut text = concat3(a, b, c);
    text.append(d);
    text
}

/// Five texts, one after the other.
pub fn concat5(a: &str, b: &str, c: &str, d: &str, e: &str) -> (text: String)
    ensures
        text@ == a@ + b@ + c@ + d@ + e@,
{
    let mut text = concat4(a, b, c, d);
    text.append(e);
    text
}

/// A text stands somewhere in another.
pub open spec fn occurs_in(needle: Seq<char>, text: Seq<char>) -> bool {
    exists|i: int|
        0 <= i <= text.len() - needle.len() && needle.is_prefix_of(#[trigger] text.skip(i))
}

/// Tells whether a text stands somewhere in another.
pub fn text_contains(text: &str, needle: &str) -> (found: bool)
    ensures
        found == occurs_in(needle@, text@),
{
    let total: usize = characters(text).len();
    let mut i: usize = 0;
    loop
        invariant
            total == text@.len(),
            i <= total,
            forall|k: int|
                0 <= k < i && k <= text@.len() - needle@.len() ==> !needle@.is_prefix_of(
                    #[trigger] text@.skip(k),
                ),
        decreases total - i,
    {
        let rest = text_skip(text, i);
        if text_starts_with(rest.as_str(), needle) {
            assert(needle@.len() <= rest@.len());
            return true;
        }
        if i == total {
            return false;
        }
        i = i + 1;
    }
}

/// How debugging output writes a text: in quotes, with escapes.
pub uninterp spec fn debug_notation(text: Seq<char>) -> Seq<char>;

/// `std`'s `Debug` of `str`, through `format!`: what is written is a function of the text.
/// Which characters are escaped, and how, is left unsaid.
#[verifier::external_body]
pub(crate) fn debug_text(text: &str) -> (written: String)
    ensures
        written@ == debug_notation(text@),
{
    format!("{:?}", text)
}

/// Splits a text at each occurrence of a character.
pub fn split_text(text: &str, separator: char) -> (pieces: Vec<Vec<char>>)
    ensures
        seqs::views(pieces@) == seqs::split_at_each(text@, separator),
{
    let s = characters(text);
    let mut done: Vec<Vec<char>> = Vec::new();
    let mut current: Vec<char> = Vec::new();
    let mut i: usize = 0;
    proof {
        assert(s@.take(0) =~= Seq::empty());
        assert(seqs::views(done@).push(current@) =~= seqs::split_at_each(s@.take(0), separator));
    }
    while i < s.len()
        invariant
            i <= s.len(),
            seqs::views(done@).push(current@) == seqs::split_at_each(
                s@.take(i as int),
                separator,
            ),
        decreases s.len() - i,
    {
        proof {
            assert(s@.take(i + 1).drop_last() =~= s@.take(i as int));
            assert(seqs::views(done@).push(current@).drop_last() =~= seqs::views(done@));
        }
        let ghost before = done@;
        let ghost piece = current@;
        if s[i] == separator {
            done.push(current);
            current = Vec::new();
            proof {
                assert(seqs::views(done@) =~= seqs::views(before).push(piece));
                assert(current@ =~= Seq::empty());
            }
        } else {
            current.push(s[i]);
        }
        i = i + 1;
    }
    let ghost before = done@;
    let ghost piece = current@;
    done.push(current);
    proof {
        assert(s@.take(s@.len() as int) =~= s@);
        assert(seqs::views(done@) =~= seqs::views(before).push(piece));
    }
    done
}

/// Joins texts with one separator between neighbours.
pub fn join_texts(pieces: &Vec<String>, separator: &str) -> (text: String)
    ensures
        text@ == joined_texts(seqs::views(pieces@), separator@),
{
    let ghost all = seqs::views(pieces@);
    let mut text = String::new();
    let mut i: usize = 0;
    proof {
        assert(all.take(0) =~= Seq::<Seq<char>>::empty());
        assert(text@ =~= joined_texts(all.take(0), separator@));
    }
    while i < pieces.len()
        invariant
            i <= pieces.len(),
            all == seqs::views(pieces@),
            text@ == joined_texts(all.take(i as int), separator@),
        decreases pieces.len() - i,
    {
        proof {
            assert(all.take(i + 1).drop_last() =~= all.take(i as int));
            assert(all.take(i + 1).last() == pieces@[i as int]@);
            assert(Seq::<char>::empty() + all[i as int] =~= all[i as int]);
        }
        if i > 0 {
            text.append(separator);
        }
        text.append(pieces[i].as_str());
        proof {
            assert(text@ =~= joined_texts(all.take(i + 1), separator@));
        }
        i = i + 1;
    }
    proof {
        assert(all.take(all.len() as int) =~= all);
    }
    text
}

/// Texts with one separator between neighbours.
pub open spec fn joined_texts(pieces: Seq<Seq<char>>, separator: Seq<char>) -> Seq<char>
    decreases pieces.len(),
{
    if pieces.len() == 0 {
        Seq::empty()
    } else if pieces.len() == 1 {
        pieces[0]
    } else {
        joined_texts(pieces.drop_last(), separator) + separator + pieces.last()
    }
}

/// A number that is written in decimal digits reads as that number, and is written in digits only.
pub proof fn lemma_decimal_is_read_back(value: nat)
    ensures
        decimal(value).len() > 0,
        is_ascii_chars(decimal(value)),
        encode_utf8(decimal(value)).len() == decimal(value).len(),
        seqs::all_decimal_digits(encode_utf8(decimal(value))),
        seqs::decimal_value(encode_utf8(decimal(value))) == value,
    decreases value,
{
    let written = decimal(value);
    if value >= 10 {
        let before = decimal(value / 10);
        let digit = digit_char(value % 10);
        lemma_decimal_is_read_back(value / 10);
        assert(written == before.push(digit));
        assert(is_ascii_chars(written));
        is_ascii_chars_encode_utf8(written);
        is_ascii_chars_encode_utf8(before);
        let bytes = encode_utf8(written);
        assert forall|i: int| 0 <= i < before.len() implies bytes[i] == encode_utf8(before)[i] by {
            assert(written[i] == before[i]);
        }
        assert(bytes.drop_last() =~= encode_utf8(before));
        assert(written[before.len() as int] == digit);
        assert(bytes.last() == (48 + value % 10) as u8);
        assert forall|i: int| 0 <= i < bytes.len() implies seqs::is_decimal_digit(
            #[trigger] bytes[i],
        ) by {
            if i < before.len() {
                assert(seqs::is_decimal_digit(encode_utf8(before)[i]));
            }
        }
    } else {
        assert(written == seq![digit_char(value)]);
        assert(is_ascii_chars(written));
        is_ascii_chars_encode_utf8(written);
        let bytes = encode_utf8(written);
        assert(written[0] == digit_char(value));
        assert(bytes[0] == (48 + value) as u8);
        assert(bytes.drop_last() =~= Seq::<u8>::empty());
        assert(seqs::decimal_value(bytes.drop_last()) == 0);
    }
}

/// Padding puts zeros in front of a text until it is wide enough, and no more.
pub proof fn lemma_padding_fills_the_width(text: Seq<char>, width: nat)
    ensures
        zero_padded(text, width).len() == if text.len() < width {
            width
        } else {
            text.len()
        },
        zero_padded(text, width).skip(zero_padded(text, width).len() - text.len()) == text,
        forall|i: int|
            0 <= i < zero_padded(text, width).len() - text.len() ==> #[trigger] zero_padded(
                text,
                width,
            )[i] == '0',
{
    let padded = zero_padded(text, width);
    assert(padded.skip(padded.len() - text.len()) =~= text);
}

} // verus!
