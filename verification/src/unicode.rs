//! What Unicode says of a character or a text.
use vstd::prelude::*;
use vstd::utf8::is_ascii_chars;

verus! {

/// Whether a character has the White_Space property.
pub open spec fn white_space(c: char) -> bool {
    ||| '\u{9}' <= c <= '\u{d}'
    ||| c == '\u{20}'
    ||| c == '\u{85}'
    ||| c == '\u{a0}'
    ||| c == '\u{1680}'
    ||| '\u{2000}' <= c <= '\u{200a}'
    ||| c == '\u{2028}'
    ||| c == '\u{2029}'
    ||| c == '\u{202f}'
    ||| c == '\u{205f}'
    ||| c == '\u{3000}'
}

/// Whether a character beyond ASCII is alphabetic or numeric.
pub uninterp spec fn alphanumeric_beyond_ascii(c: char) -> bool;

/// Whether a character is alphabetic or numeric; in ASCII these are the letters and the digits.
pub open spec fn alphanumeric(c: char) -> bool {
    if c <= '\u{7f}' {
        'a' <= c <= 'z' || 'A' <= c <= 'Z' || '0' <= c <= '9'
    } else {
        alphanumeric_beyond_ascii(c)
    }
}

/// The lowercase form of a text that is not all ASCII.
pub uninterp spec fn lowercase_beyond_ascii(text: Seq<char>) -> Seq<char>;

/// The lowercase form of an ASCII character.
pub open spec fn ascii_lower(c: char) -> char {
    if 'A' <= c <= 'Z' {
        (c as u32 + 32) as char
    } else {
        c
    }
}

/// The lowercase form of a text; in ASCII each capital letter becomes the small one.
pub open spec fn lowercase(text: Seq<char>) -> Seq<char> {
    if is_ascii_chars(text) {
        text.map_values(|c: char| ascii_lower(c))
    } else {
        lowercase_beyond_ascii(text)
    }
}

/// Tells whether a character has the White_Space property.
pub fn is_white_space(c: char) -> (r: bool)
    ensures
        r == white_space(c),
{
    ('\u{9}' <= c && c <= '\u{d}') || c == '\u{20}' || c == '\u{85}' || c == '\u{a0}' || c
        == '\u{1680}' || ('\u{2000}' <= c && c <= '\u{200a}') || c == '\u{2028}' || c == '\u{2029}'
        || c == '\u{202f}' || c == '\u{205f}' || c == '\u{3000}'
}

/// Calls `char::is_alphanumeric`, which tells whether a character is alphabetic or numeric. Of
/// the ASCII characters these are the letters and the digits; beyond ASCII the answer is a fixed
/// table, named `alphanumeric_beyond_ascii` here, and which characters it holds is left unsaid.
#[verifier::external_body]
pub(crate) fn is_alphanumeric(c: char) -> (r: bool)
    ensures
        r == (if c <= '\u{7f}' {
            'a' <= c <= 'z' || 'A' <= c <= 'Z' || '0' <= c <= '9'
        } else {
            alphanumeric_beyond_ascii(c)
        }),
{
    c.is_alphanumeric()
}

/// Calls `str::to_lowercase`. In an ASCII text each capital letter becomes the small one. Of any
/// other text the result is a function of the text alone, named `lowercase_beyond_ascii` here;
/// how its characters map is left unsaid.
#[verifier::external_body]
pub(crate) fn to_lowercase(text: &str) -> (r: String)
    ensures
        r@ == (if is_ascii_chars(text@) {
            text@.map_values(|c: char| ascii_lower(c))
        } else {
            lowercase_beyond_ascii(text@)
        }),
{
    text.to_lowercase()
}

// ---------------------------------------------------------------------------
// Laws
// ---------------------------------------------------------------------------

/// No character of ASCII is both white space and alphanumeric, and none that can be seen is white
/// space.
pub proof fn seen_characters_are_no_white_space(c: char)
    ensures
        c <= '\u{7f}' && alphanumeric(c) ==> !white_space(c),
        '!' <= c <= '\u{7f}' ==> !white_space(c),
        c < ' ' && white_space(c) ==> '\t' <= c <= '\r',
        c == ' ' || '\t' <= c <= '\r' ==> white_space(c),
{
}

/// The lowercase form of an ASCII text is as long as the text, holds no capital letter, and is its
/// own lowercase form; a text without capital letters is left as it is.
pub proof fn lowercase_of_ascii(text: Seq<char>)
    requires
        is_ascii_chars(text),
    ensures
        lowercase(text).len() == text.len(),
        forall|i: int|
            0 <= i < text.len() ==> !('A' <= #[trigger] lowercase(text)[i] && lowercase(text)[i]
                <= 'Z'),
        forall|i: int|
            0 <= i < text.len() && !('A' <= text[i] && text[i] <= 'Z') ==> #[trigger] lowercase(
                text,
            )[i] == text[i],
        forall|i: int|
            0 <= i < text.len() && 'A' <= text[i] && text[i] <= 'Z' ==> #[trigger] lowercase(
                text,
            )[i] as u32 - 'a' as u32 == text[i] as u32 - 'A' as u32,
        lowercase(lowercase(text)) == lowercase(text),
{
    let low = lowercase(text);
    assert forall|i: int| 0 <= i < low.len() implies low[i] as u32 <= 0x7f by {
        assert(text[i] as u32 <= 0x7f);
    }
    assert(is_ascii_chars(low));
    assert(lowercase(low) =~= low);
}

} // verus!
