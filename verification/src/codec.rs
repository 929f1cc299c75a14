//! Bytes in data URLs.
use base64::Engine;
use vstd::prelude::*;

use crate::text::{chars_of, find, first_index, first_index_is_first, string_from};

verus! {

/// Declares the error of the base64 decoder.
#[verifier::external_type_specification]
#[verifier::external_body]
pub struct ExDecodeError(base64::DecodeError);

/// The base64 text of some bytes, in the standard alphabet and with padding.
pub uninterp spec fn base64_text(bytes: Seq<u8>) -> Seq<char>;

/// The bytes that a base64 text stands for, where it stands for any.
pub uninterp spec fn base64_bytes(text: Seq<char>) -> Option<Seq<u8>>;

/// Whether `c` belongs to base64 text: a letter, a digit, a plus sign, a slash or the padding.
pub open spec fn base64_char(c: char) -> bool {
    'A' <= c <= 'Z' || 'a' <= c <= 'z' || '0' <= c <= '9' || c == '+' || c == '/' || c == '='
}

/// Whether a text is made of the characters of base64 alone.
pub open spec fn in_alphabet(text: Seq<char>) -> bool {
    forall|i: int| 0 <= i < text.len() ==> base64_char(#[trigger] text[i])
}

/// Whether the base64 text of this many bytes fits in memory: four characters for every three
/// bytes begun.
pub open spec fn encodable(len: nat) -> bool {
    4 * ((len + 2) / 3) <= isize::MAX
}

/// Calls `base64::Engine::encode` of the standard engine. The text is a function of the bytes
/// alone, named `base64_text` here; it is made of letters, digits, `+`, `/` and the padding `=`,
/// and the same engine decodes it to the same bytes. The call panics where the text would not
/// fit in memory.
#[verifier::external_body]
pub(crate) fn encode_base64(bytes: &[u8]) -> (s: String)
    requires
        encodable(bytes@.len()),
    ensures
        s@ == base64_text(bytes@),
        in_alphabet(s@),
        base64_bytes(s@) == Some(bytes@),
{
    base64::engine::general_purpose::STANDARD.encode(bytes)
}

/// Calls `base64::Engine::decode` of the standard engine. Whether it succeeds and what it gives
/// is a function of the text alone, named `base64_bytes` here; which error comes is left unsaid.
#[verifier::external_body]
pub(crate) fn decode_base64(text: &str) -> (r: Result<Vec<u8>, base64::DecodeError>)
    ensures
        match r {
            Ok(bytes) => base64_bytes(text@) == Some(bytes@),
            Err(_) => base64_bytes(text@) is None,
        },
{
    base64::engine::general_purpose::STANDARD.decode(text)
}

/// Tells whether so many bytes can be encoded.
pub fn can_encode(len: usize) -> (r: bool)
    ensures
        r == encodable(len as nat),
{
    let chunks = len / 3 + (if len % 3 > 0 {
        1
    } else {
        0
    });
    chunks <= isize::MAX as usize / 4
}

/// Why a data URL gives no bytes.
#[derive(Clone, Copy, PartialEq, Eq, Structural, Debug)]
pub enum DataUrlError {
    /// No comma sets the payload off.
    MissingPayload,
    /// The payload is no base64 text.
    BadBase64,
}

impl DataUrlError {
    /// The message for the console.
    pub fn message(self) -> (s: &'static str)
        ensures
            s@ == (match self {
                DataUrlError::MissingPayload => "data URL missing payload"@,
                DataUrlError::BadBase64 => "data URL base64 decode failed"@,
            }),
    {
        match self {
            DataUrlError::MissingPayload => "data URL missing payload",
            DataUrlError::BadBase64 => "data URL base64 decode failed",
        }
    }
}

/// What stands behind the first comma of a data URL.
pub open spec fn payload(url: Seq<char>) -> Option<Seq<char>> {
    if first_index(url, ',') < url.len() {
        Some(url.skip(first_index(url, ',') + 1))
    } else {
        None
    }
}

/// The bytes of a data URL.
pub open spec fn url_bytes(url: Seq<char>) -> Result<Seq<u8>, DataUrlError> {
    match payload(url) {
        None => Err(DataUrlError::MissingPayload),
        Some(text) => match base64_bytes(text) {
            None => Err(DataUrlError::BadBase64),
            Some(bytes) => Ok(bytes),
        },
    }
}

/// Whether a result is this one.
pub open spec fn gives(r: Result<Vec<u8>, DataUrlError>, wanted: Result<Seq<u8>, DataUrlError>) -> bool {
    match wanted {
        Ok(bytes) => r matches Ok(v) && v@ == bytes,
        Err(e) => r matches Err(x) && x == e,
    }
}

/// Finds what stands behind the first comma of a data URL.
pub fn split_payload(data_url: &str) -> (r: Option<String>)
    ensures
        match payload(data_url@) {
            Some(text) => r matches Some(s) && s@ == text,
            None => r is None,
        },
{
    let chars = chars_of(data_url);
    let comma = find(&chars, ',');
    if comma < chars.len() {
        let text = string_from(&chars, comma + 1, chars.len());
        assert(text@ =~= data_url@.skip(comma + 1));
        Some(text)
    } else {
        None
    }
}

/// What a decoder's answer means for a data URL.
pub fn payload_bytes(decoded: Result<Vec<u8>, base64::DecodeError>) -> (r: Result<
    Vec<u8>,
    DataUrlError,
>)
    ensures
        match decoded {
            Ok(bytes) => r == Ok::<Vec<u8>, DataUrlError>(bytes),
            Err(_) => r == Err::<Vec<u8>, DataUrlError>(DataUrlError::BadBase64),
        },
{
    match decoded {
        Ok(bytes) => Ok(bytes),
        Err(_) => Err(DataUrlError::BadBase64),
    }
}

/// Decodes the bytes of a data URL.
pub fn decode_data_url_bytes(data_url: &str) -> (r: Result<Vec<u8>, DataUrlError>)
    ensures
        gives(r, url_bytes(data_url@)),
{
    match split_payload(data_url) {
        Some(text) => payload_bytes(decode_base64(text.as_str())),
        None => Err(DataUrlError::MissingPayload),
    }
}

/// The data URL of base64 text.
pub open spec fn data_url(mime: Seq<char>, text: Seq<char>) -> Seq<char> {
    "data:"@ + mime + ";base64,"@ + text
}

/// Writes base64 text as a data URL.
pub fn data_url_text(mime: &str, text: &str) -> (url: String)
    ensures
        url@ == data_url(mime@, text@),
{
    let mut url = String::new();
    url.append("data:");
    assert(url@ =~= "data:"@);
    url.append(mime);
    url.append(";base64,");
    url.append(text);
    url
}

/// Writes bytes as a data URL. Decoding the URL gives the bytes back, unless the type already
/// holds a comma.
pub fn encode_data_url(mime: &str, bytes: &[u8]) -> (url: String)
    requires
        encodable(bytes@.len()),
    ensures
        url@ == data_url(mime@, base64_text(bytes@)),
        in_alphabet(base64_text(bytes@)),
        (forall|i: int| 0 <= i < mime@.len() ==> mime@[i] != ',') ==> url_bytes(url@) == Ok::<
            Seq<u8>,
            DataUrlError,
        >(bytes@),
{
    let text = encode_base64(bytes);
    let url = data_url_text(mime, text.as_str());
    proof {
        if forall|i: int| 0 <= i < mime@.len() ==> mime@[i] != ',' {
            payload_is_behind_marker(mime@, text@);
        }
    }
    url
}

// ---------------------------------------------------------------------------
// Laws
// ---------------------------------------------------------------------------

/// The payload of a data URL is the text it was made of, unless the type holds a comma.
pub proof fn payload_is_behind_marker(mime: Seq<char>, text: Seq<char>)
    requires
        forall|i: int| 0 <= i < mime.len() ==> mime[i] != ',',
    ensures
        payload(data_url(mime, text)) == Some(text),
{
    reveal_strlit("data:");
    reveal_strlit(";base64,");
    let url = data_url(mime, text);
    let comma: int = mime.len() as int + 12;
    first_index_is_first(url, ',');
    assert(url[comma] == ',');
    assert forall|i: int| 0 <= i < comma implies url[i] != ',' by {
        if i < 5 {
            assert(url[i] == "data:"@[i]);
        } else if i < 5 + mime.len() {
            assert(url[i] == mime[i - 5]);
        } else {
            assert(url[i] == ";base64,"@[i - 5 - mime.len()]);
        }
    }
    assert(first_index(url, ',') == comma);
    assert(url.skip(comma + 1) =~= text);
}

/// The payload is what stands behind the first comma, whatever stands before it and however many
/// commas follow; without a comma there is none, and the bytes are those of the payload.
pub proof fn first_comma_sets_the_payload_off(before: Seq<char>, text: Seq<char>)
    requires
        forall|i: int| 0 <= i < before.len() ==> before[i] != ',',
    ensures
        payload(before + ","@ + text) == Some(text),
        payload(before) is None,
        url_bytes(before) == Err::<Seq<u8>, DataUrlError>(DataUrlError::MissingPayload),
        base64_bytes(text) is None ==> url_bytes(before + ","@ + text) == Err::<
            Seq<u8>,
            DataUrlError,
        >(DataUrlError::BadBase64),
        base64_bytes(text) is Some ==> url_bytes(before + ","@ + text) == Ok::<
            Seq<u8>,
            DataUrlError,
        >(base64_bytes(text)->0),
{
    reveal_strlit(",");
    let url = before + ","@ + text;
    first_index_is_first(url, ',');
    first_index_is_first(before, ',');
    assert(url[before.len() as int] == ',');
    assert forall|i: int| 0 <= i < before.len() implies url[i] != ',' by {
        assert(url[i] == before[i]);
    }
    assert(first_index(url, ',') == before.len());
    assert(url.skip(before.len() as int + 1) =~= text);
}

} // verus!
