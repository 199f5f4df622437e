//! Git object kinds, object formats and object IDs.

use vstd::prelude::*;
use vstd::utf8::*;

use crate::text::{text_skip, text_starts_with};

verus! {

/// Raw Git object kind required by the acquisition parser.
#[derive(Clone, Copy, Debug, PartialEq, Eq, Structural)]
pub enum GitObjectKind {
    /// Commit object selected by the lock.
    Commit,
    /// Tree object traversed without checkout semantics.
    Tree,
    /// Blob object retained as a logical pack file.
    Blob,
}

impl GitObjectKind {
    /// Git's name of the kind.
    pub open spec fn name(self) -> Seq<char> {
        match self {
            GitObjectKind::Commit => "commit"@,
            GitObjectKind::Tree => "tree"@,
            GitObjectKind::Blob => "blob"@,
        }
    }

    /// Returns Git's name of the kind.
    pub fn as_str(self) -> (text: &'static str)
        ensures
            text@ == self.name(),
    {
        match self {
            GitObjectKind::Commit => "commit",
            GitObjectKind::Tree => "tree",
            GitObjectKind::Blob => "blob",
        }
    }
}

/// Git object hash format selected by an exact locked object ID.
#[derive(Clone, Copy, Debug, PartialEq, Eq, Structural)]
#[non_exhaustive]
pub enum GitObjectFormat {
    Sha1,
    Sha256,
}

/// A lowercase hexadecimal digit.
pub open spec fn is_lower_hex(c: u8) -> bool {
    (48 <= c <= 57) || (97 <= c <= 102)
}

/// A byte string of `length` lowercase hexadecimal digits.
pub open spec fn is_hex_id(text: Seq<u8>, length: nat) -> bool {
    &&& text.len() == length
    &&& forall|i: int| 0 <= i < text.len() ==> is_lower_hex(#[trigger] text[i])
}

impl GitObjectFormat {
    /// Number of hexadecimal digits in an object ID.
    pub open spec fn digits(self) -> nat {
        match self {
            GitObjectFormat::Sha1 => 40,
            GitObjectFormat::Sha256 => 64,
        }
    }

    /// Git's name of the format.
    pub open spec fn name(self) -> Seq<char> {
        match self {
            GitObjectFormat::Sha1 => "sha1"@,
            GitObjectFormat::Sha256 => "sha256"@,
        }
    }

    /// The text that tags an object ID with this format.
    pub open spec fn tag(self) -> Seq<char> {
        self.name() + "-"@
    }

    /// The object ID behind the tag.
    pub open spec fn untagged(self, tagged: Seq<char>) -> Seq<char> {
        tagged.skip(self.tag().len() as int)
    }

    /// An object ID tagged with its format.
    pub open spec fn is_tagged(self, tagged: Seq<char>) -> bool {
        &&& self.tag().is_prefix_of(tagged)
        &&& is_hex_id(encode_utf8(self.untagged(tagged)), self.digits())
    }

    /// Returns the format that tags an object ID.
    pub fn from_tagged(tagged: &str) -> (format: Self)
        requires
            GitObjectFormat::Sha1.tag().is_prefix_of(tagged@)
                || GitObjectFormat::Sha256.tag().is_prefix_of(tagged@),
        ensures
            format.tag().is_prefix_of(tagged@),
    {
        proof {
            reveal_strlit("sha1");
            reveal_strlit("sha256");
            reveal_strlit("-");
            reveal_strlit("sha1-");
            assert("sha1-"@ =~= GitObjectFormat::Sha1.tag());
        }
        if text_starts_with(tagged, "sha1-") {
            GitObjectFormat::Sha1
        } else {
            GitObjectFormat::Sha256
        }
    }

    /// Some ending of a text has as many bytes as an object ID.
    pub open spec fn ends_in_oid(self, tagged: Seq<char>) -> bool {
        exists|k: int|
            0 <= k <= tagged.len() && encode_utf8(#[trigger] tagged.skip(k)).len() == self.digits()
    }

    /// Returns the object ID at the end of a tagged one: as many bytes as an object ID has. What
    /// stands there is not looked at; hexadecimal digits stay hexadecimal digits.
    pub fn raw_oid(self, tagged: &str) -> (oid: String)
        requires
            self.ends_in_oid(tagged@),
        ensures
            encode_utf8(oid@).len() == self.digits(),
            oid@.len() <= tagged@.len(),
            oid@ == tagged@.skip(tagged@.len() - oid@.len()),
            self.tag().is_prefix_of(tagged@) && encode_utf8(self.untagged(tagged@)).len()
                == self.digits() ==> oid@ == self.untagged(tagged@),
            self.is_tagged(tagged@) ==> is_hex_id(encode_utf8(oid@), self.digits()),
    {
        let length: usize = tagged.unicode_len();
        let mut skipped: usize = 0;
        while skipped < length
            invariant
                length == tagged@.len(),
                skipped <= length,
                forall|k: int|
                    0 <= k < skipped ==> encode_utf8(#[trigger] tagged@.skip(k)).len()
                        != self.digits(),
            decreases length - skipped,
        {
            let rest = text_skip(tagged, skipped);
            if rest.as_str().as_bytes().len() == self.hex_len() {
                proof {
                    if self.tag().is_prefix_of(tagged@) && encode_utf8(
                        self.untagged(tagged@),
                    ).len() == self.digits() {
                        lemma_endings_differ(
                            tagged@,
                            skipped as int,
                            self.tag().len() as int,
                        );
                    }
                }
                return rest;
            }
            skipped = skipped + 1;
        }
        proof {
            let k = choose|k: int|
                0 <= k <= tagged@.len() && encode_utf8(#[trigger] tagged@.skip(k)).len()
                    == self.digits();
            assert(k == tagged@.len());
            assert(tagged@.skip(k).len() == 0);
        }
        text_skip(tagged, length)
    }

    /// Returns Git's canonical object-format name.
    pub fn as_str(self) -> (text: &'static str)
        ensures
            text@ == self.name(),
    {
        match self {
            GitObjectFormat::Sha1 => "sha1",
            GitObjectFormat::Sha256 => "sha256",
        }
    }

    /// Number of hexadecimal digits in an object ID.
    pub fn hex_len(self) -> (length: usize)
        ensures
            length == self.digits(),
    {
        match self {
            GitObjectFormat::Sha1 => 40,
            GitObjectFormat::Sha256 => 64,
        }
    }

    /// Number of raw bytes in an object ID.
    pub fn raw_len(self) -> (length: usize)
        ensures
            2 * length == self.digits(),
    {
        match self {
            GitObjectFormat::Sha1 => 20,
            GitObjectFormat::Sha256 => 32,
        }
    }

    /// Tells whether a byte string is an object ID in this format.
    pub fn is_id(self, text: &[u8]) -> (valid: bool)
        ensures
            valid == is_hex_id(text@, self.digits()),
    {
        if text.len() != self.hex_len() {
            return false;
        }
        let mut i: usize = 0;
        while i < text.len()
            invariant
                i <= text.len(),
                forall|k: int| 0 <= k < i ==> is_lower_hex(#[trigger] text@[k]),
            decreases text.len() - i,
        {
            let c: u8 = text[i];
            let digit = c >= 48 && c <= 57;
            let letter = c >= 97 && c <= 102;
            if !digit && !letter {
                assert(!is_lower_hex(text@[i as int]));
                return false;
            }
            i = i + 1;
        }
        true
    }

    /// Tells whether a text is an object ID in this format.
    pub fn validate_hex(self, value: &str) -> (valid: bool)
        ensures
            valid == is_hex_id(encode_utf8(value@), self.digits()),
    {
        self.is_id(value.as_bytes())
    }
}

/// Endings of a text that have the same number of bytes start at the same place.
proof fn lemma_endings_differ(text: Seq<char>, left: int, right: int)
    requires
        0 <= left <= text.len(),
        0 <= right <= text.len(),
        encode_utf8(text.skip(left)).len() == encode_utf8(text.skip(right)).len(),
    ensures
        left == right,
{
    if left < right {
        lemma_longer_ending(text, left, right);
    } else if right < left {
        lemma_longer_ending(text, right, left);
    }
}

proof fn lemma_longer_ending(text: Seq<char>, left: int, right: int)
    requires
        0 <= left < right <= text.len(),
    ensures
        encode_utf8(text.skip(left)).len() > encode_utf8(text.skip(right)).len(),
    decreases right - left,
{
    assert(text.skip(left).drop_first() =~= text.skip(left + 1));
    encode_utf8_first_scalar(text.skip(left));
    if left + 1 < right {
        lemma_longer_ending(text, left + 1, right);
    }
}

/// The lowercase hexadecimal digit of a value below sixteen.
pub open spec fn hex_digit(value: int) -> char {
    if value < 10 {
        (48 + value) as char
    } else {
        (87 + value) as char
    }
}

/// Two lowercase hexadecimal digits for each byte.
pub open spec fn hex_text(bytes: Seq<u8>) -> Seq<char> {
    Seq::new(
        2 * bytes.len(),
        |i: int|
            if i % 2 == 0 {
                hex_digit(bytes[i / 2] as int / 16)
            } else {
                hex_digit(bytes[i / 2] as int % 16)
            },
    )
}

fn nibble(value: u8) -> (digit: char)
    requires
        value < 16,
    ensures
        digit == hex_digit(value as int),
{
    if value < 10 {
        (48u8 + value) as char
    } else {
        (87u8 + value) as char
    }
}

/// Writes bytes as lowercase hexadecimal digits.
pub fn encode_hex(bytes: &[u8]) -> (text: String)
    ensures
        text@ == hex_text(bytes@),
{
    let mut text = String::new();
    let mut i: usize = 0;
    while i < bytes.len()
        invariant
            i <= bytes.len(),
            text@ == hex_text(bytes@.take(i as int)),
        decreases bytes.len() - i,
    {
        let byte: u8 = bytes[i];
        text.push(nibble(byte / 16));
        text.push(nibble(byte % 16));
        i = i + 1;
        assert(text@ =~= hex_text(bytes@.take(i as int)));
    }
    assert(bytes@.take(bytes@.len() as int) =~= bytes@);
    text
}

/// Written-out raw object IDs are valid object IDs, and different IDs stay different.
pub proof fn lemma_hex_text_is_an_id(format: GitObjectFormat, left: Seq<u8>, right: Seq<u8>)
    requires
        2 * left.len() == format.digits(),
        2 * right.len() == format.digits(),
    ensures
        is_hex_id(encode_utf8(hex_text(left)), format.digits()),
        hex_text(left) == hex_text(right) ==> left == right,
{
    let text = hex_text(left);
    assert forall|i: int| 0 <= i < text.len() implies (#[trigger] text[i] as u32) < 128
        && is_lower_hex(text[i] as u8) by {
        let value = left[i / 2] as int;
        assert(0 <= value / 16 < 16);
    }
    assert(is_ascii_chars(text));
    is_ascii_chars_encode_utf8(text);
    let bytes = encode_utf8(text);
    assert(bytes.len() == text.len());
    assert forall|i: int| 0 <= i < bytes.len() implies is_lower_hex(#[trigger] bytes[i]) by {
        assert(bytes[i] == text[i] as u8);
    }
    lemma_hex_text_injective(left, right);
}

/// Different bytes have different hexadecimal digits.
pub proof fn lemma_hex_text_injective(left: Seq<u8>, right: Seq<u8>)
    ensures
        hex_text(left) == hex_text(right) ==> left == right,
{
    if hex_text(left) == hex_text(right) {
        assert(hex_text(left).len() == 2 * left.len());
        assert(hex_text(right).len() == 2 * right.len());
        assert forall|k: int| 0 <= k < left.len() implies left[k] == right[k] by {
            assert(hex_text(left)[2 * k] == hex_text(right)[2 * k]);
            assert(hex_text(left)[2 * k + 1] == hex_text(right)[2 * k + 1]);
            lemma_hex_digit_injective(left[k] as int / 16, right[k] as int / 16);
            lemma_hex_digit_injective(left[k] as int % 16, right[k] as int % 16);
        }
        assert(left =~= right);
    }
}

proof fn lemma_hex_digit_injective(a: int, b: int)
    requires
        0 <= a < 16,
        0 <= b < 16,
        hex_digit(a) == hex_digit(b),
    ensures
        a == b,
{
    assert(hex_digit(a) as int == if a < 10 { 48 + a } else { 87 + a });
    assert(hex_digit(b) as int == if b < 10 { 48 + b } else { 87 + b });
}

} // verus!
