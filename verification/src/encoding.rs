//! Encodings, digests and random bytes.

use vstd::prelude::*;
use vstd::string::*;
use vstd::utf8::encode_utf8;
use base64::engine::general_purpose::URL_SAFE_NO_PAD;
use base64::Engine;
use rand::RngCore;
use sha2::Digest;

verus! {

/// The most bytes that are encoded at once.
pub const MAX_ENCODED_BYTES: usize = 0x4000_0000;

/// The URL-safe base64 text of bytes, without padding.
pub uninterp spec fn b64_encoded(bytes: Seq<u8>) -> Seq<char>;

/// The bytes that a URL-safe base64 text without padding stands for, if it is one.
pub uninterp spec fn b64_decoded(text: Seq<char>) -> Option<Seq<u8>>;

/// The SHA-256 digest of bytes.
pub uninterp spec fn sha256_of(bytes: Seq<u8>) -> Seq<u8>;

/// The characters of URL-safe base64.
pub open spec fn is_b64_char(c: char) -> bool {
    'A' <= c <= 'Z' || 'a' <= c <= 'z' || '0' <= c <= '9' || c == '-' || c == '_'
}

/// The bytes of a list that may be missing.
pub open spec fn opt_byte_list(bytes: Option<Vec<u8>>) -> Option<Seq<u8>> {
    match bytes {
        Some(b) => Some(b@),
        None => None,
    }
}

/// `URL_SAFE_NO_PAD.encode` of `base64`: its result is named. It has four
/// characters for every three bytes, rounded up, all of them letters, digits,
/// hyphens or underscores, and decodes to the bytes again.
#[verifier::external_body]
pub(crate) fn b64_encode(bytes: &[u8]) -> (r: String)
    requires
        bytes@.len() <= MAX_ENCODED_BYTES,
    ensures
        r@ == b64_encoded(bytes@),
        r@.len() == (bytes@.len() * 4 + 2) / 3,
        forall|i: int| 0 <= i < r@.len() ==> is_b64_char(#[trigger] r@[i]),
        b64_decoded(r@) == Some(bytes@),
{
    URL_SAFE_NO_PAD.encode(bytes)
}

/// `URL_SAFE_NO_PAD.decode` of `base64`: its result is named, a failure is `None`.
#[verifier::external_body]
pub(crate) fn b64_decode(text: &str) -> (r: Option<Vec<u8>>)
    ensures
        opt_byte_list(r) == b64_decoded(text@),
{
    URL_SAFE_NO_PAD.decode(text).ok()
}

/// `Sha256::digest` of `sha2`: its result, 32 bytes, is named.
#[verifier::external_body]
pub(crate) fn sha256(bytes: &[u8]) -> (r: Vec<u8>)
    ensures
        r@ == sha256_of(bytes@),
        r@.len() == 32,
{
    sha2::Sha256::digest(bytes).to_vec()
}

/// `rand::rng`, then `RngCore::fill_bytes`: as many bytes as asked for. Nothing is
/// said of what they are. The system has to have a source of randomness.
#[verifier::external_body]
pub(crate) fn random_bytes(count: usize) -> (r: Vec<u8>)
    requires
        count <= 1024,
    ensures
        r@.len() == count,
{
    let mut bytes = vec![0u8; count];
    rand::rng().fill_bytes(&mut bytes);
    bytes
}

/// Whether a byte stands for itself in a percent-encoded text.
pub open spec fn is_unreserved(b: u8) -> bool {
    ||| 48 <= b <= 57
    ||| 65 <= b <= 90
    ||| 97 <= b <= 122
    ||| b == 45 || b == 46 || b == 95 || b == 126
}

/// A number below sixteen as an upper-case hexadecimal digit.
pub open spec fn upper_hex_char(d: nat) -> char {
    if d < 10 {
        (48 + d) as char
    } else {
        (55 + d) as char
    }
}

/// The percent-encoded text of bytes.
pub open spec fn percent_encoded(bytes: Seq<u8>) -> Seq<char>
    decreases bytes.len(),
{
    if bytes.len() == 0 {
        Seq::empty()
    } else {
        let b = bytes.last();
        let front = percent_encoded(bytes.drop_last());
        if is_unreserved(b) {
            front.push(b as char)
        } else {
            front + seq!['%', upper_hex_char((b / 16) as nat), upper_hex_char((b % 16) as nat)]
        }
    }
}

/// `urlencoding::encode`: every byte of the text but letters, digits, `-`, `.`,
/// `_` and `~` turned into a percent sign and two upper-case hexadecimal digits.
#[verifier::external_body]
pub(crate) fn percent_encode(text: &str) -> (r: String)
    ensures
        r@ == percent_encoded(encode_utf8(text@)),
{
    urlencoding::encode(text).into_owned()
}

/// A verifier and its challenge, for the exchange of an authorization code.
pub struct Pkce {
    pub verifier: String,
    pub challenge: String,
}

impl Pkce {
    /// Whether the challenge is that of the verifier.
    pub open spec fn matches(&self) -> bool {
        self.challenge@ == b64_encoded(sha256_of(encode_utf8(self.verifier@)))
    }
}

/// The verifier made of random bytes, and its challenge.
pub fn pkce_from(bytes: &[u8]) -> (r: Pkce)
    requires
        bytes@.len() <= MAX_ENCODED_BYTES,
    ensures
        r.verifier@ == b64_encoded(bytes@),
        r.verifier@.len() == (bytes@.len() * 4 + 2) / 3,
        forall|i: int| 0 <= i < r.verifier@.len() ==> is_b64_char(#[trigger] r.verifier@[i]),
        r.matches(),
        r.challenge@.len() == 43,
{
    let verifier = b64_encode(bytes);
    let digest = sha256(verifier.as_str().as_bytes());
    let challenge = b64_encode(digest.as_slice());
    Pkce { verifier, challenge }
}

/// Percent-encoding goes byte by byte: letters, digits, `-`, `.`, `_` and `~` stand
/// for themselves, and every other byte is a percent sign and two digits.
pub proof fn law_percent_encoding(a: Seq<u8>, b: Seq<u8>, byte: u8)
    ensures
        percent_encoded(a + b) == percent_encoded(a) + percent_encoded(b),
        ({
            let c = byte as char;
            let kept = 'a' <= c <= 'z' || 'A' <= c <= 'Z' || '0' <= c <= '9' || c == '-' || c == '.'
                || c == '_' || c == '~';
            let text = percent_encoded(seq![byte]);
            &&& kept ==> text == seq![c]
            &&& !kept ==> text.len() == 3 && text[0] == '%'
        }),
    decreases b.len(),
{
    assert(seq![byte].drop_last() =~= Seq::<u8>::empty());
    assert(percent_encoded(Seq::<u8>::empty()) == Seq::<char>::empty());
    assert(percent_encoded(seq![byte]).len() <= 3);
    let c = byte as char;
    if is_unreserved(byte) {
        assert(percent_encoded(seq![byte]) =~= seq![c]);
    }
    if b.len() == 0 {
        assert(a + b =~= a);
        assert(percent_encoded(a) + percent_encoded(b) =~= percent_encoded(a));
    } else {
        law_percent_encoding(a, b.drop_last(), byte);
        assert((a + b).drop_last() =~= a + b.drop_last());
        assert((a + b).last() == b.last());
        assert(percent_encoded(a + b) =~= percent_encoded(a) + percent_encoded(b));
    }
}

/// A percent-encoded text holds nothing but letters, digits, `-`, `.`, `_`, `~` and
/// percent signs.
pub proof fn law_percent_encoded_alphabet(bytes: Seq<u8>, i: int)
    requires
        0 <= i < percent_encoded(bytes).len(),
    ensures
        ({
            let c = percent_encoded(bytes)[i];
            'a' <= c <= 'z' || 'A' <= c <= 'Z' || '0' <= c <= '9' || c == '-' || c == '.' || c == '_'
                || c == '~' || c == '%'
        }),
    decreases bytes.len(),
{
    if bytes.len() > 0 && i < percent_encoded(bytes.drop_last()).len() {
        law_percent_encoded_alphabet(bytes.drop_last(), i);
    }
}

} // verus!
