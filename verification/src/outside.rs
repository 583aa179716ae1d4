//! Calls into `uuid`, `sha2` and the standard library's lossy text decoders.
//!
//! Each function here is trusted: Verus believes its contract without
//! reading its body. The contracts say only what the called function's
//! documentation and source give.
use vstd::prelude::*;
use vstd::utf8::{decode_utf8, valid_utf8};
use sha2::Digest;

verus! {

/// The 36 characters of a hyphenated UUID are hyphens at 8, 13, 18 and 23.
pub open spec fn hyphens_in_place(t: Seq<char>) -> bool {
    t.len() == 36 && t[8] == '-' && t[13] == '-' && t[18] == '-' && t[23] == '-'
}

/// The 32 digits of a hyphenated UUID, the hyphens left out.
pub open spec fn without_hyphens(t: Seq<char>) -> Seq<char> {
    t.subrange(0, 8) + t.subrange(9, 13) + t.subrange(14, 18) + t.subrange(19, 23) + t.subrange(24, 36)
}

/// The 32 digits `parse_str` reads, by the shape of the text: 32 digits
/// alone, 36 with hyphens, those 36 in braces, or those 36 after a
/// `urn:uuid:` prefix (ASCII case ignored); `None` for any other shape.
pub open spec fn uuid_digits(t: Seq<char>) -> Option<Seq<char>> {
    if t.len() == 32 {
        Some(t)
    } else if hyphens_in_place(t) {
        Some(without_hyphens(t))
    } else if t.len() == 38 && t[0] == '{' && t[37] == '}' && hyphens_in_place(t.subrange(1, 37)) {
        Some(without_hyphens(t.subrange(1, 37)))
    } else if t.len() == 45 && crate::text::eq_ic(t.take(9), "urn:uuid:"@) && hyphens_in_place(t.skip(9)) {
        Some(without_hyphens(t.skip(9)))
    } else {
        None
    }
}

/// The canonical text of 32 hexadecimal digits: lower case, hyphens at 8,
/// 13, 18 and 23.
pub open spec fn hyphenated(d: Seq<char>) -> Seq<char> {
    let l = crate::text::lower_seq(d);
    l.subrange(0, 8) + seq!['-'] + l.subrange(8, 12) + seq!['-'] + l.subrange(12, 16) + seq!['-']
        + l.subrange(16, 20) + seq!['-'] + l.subrange(20, 32)
}

/// The canonical text (hyphenated, lower-case, as `Uuid`'s `Display`
/// writes it) of the UUID that `uuid::Uuid::parse_str` reads from `text`;
/// `None` where `parse_str` rejects `text`: a shape it does not read, or a
/// digit that is not hexadecimal (either case).
pub open spec fn uuid_canonical(text: Seq<char>) -> Option<Seq<char>> {
    match uuid_digits(text) {
        Some(d) => if crate::text::all_hex(d) {
            Some(hyphenated(d))
        } else {
            None
        },
        None => None,
    }
}

/// The text `Uuid`'s `Display` writes: 36 characters, hyphens at 8, 13,
/// 18 and 23, lower-case hexadecimal digits elsewhere.
pub open spec fn hyphenated_uuid_text(s: Seq<char>) -> bool {
    &&& s.len() == 36
    &&& forall|i: int| 0 <= i < 36 ==> if i == 8 || i == 13 || i == 18 || i == 23 {
        #[trigger] s[i] == '-'
    } else {
        ('0' <= s[i] <= '9') || ('a' <= s[i] <= 'f')
    }
}

/// The lengths of text `parse_str` can accept: 32 (simple), 36
/// (hyphenated), 38 (braced) and 45 (`urn:uuid:` prefix). Every accepted
/// character is ASCII, so characters and bytes count alike.
pub open spec fn uuid_text_length(n: nat) -> bool {
    n == 32 || n == 36 || n == 38 || n == 45
}

/// `uuid::Uuid::parse_str`, followed by `to_string` on the parsed value.
/// Claimed, from parser.rs and fmt.rs: `try_parse` reads the four shapes
/// of `uuid_digits` (it matches on the byte length first, and a text with a
/// character outside ASCII never passes the hyphen and hex checks, so
/// characters and bytes count alike), `decode_hex32` accepts hexadecimal
/// digits of either case, and `Display` writes the 16 bytes back as
/// lower-case hyphenated hex (`format_hyphenated`). So the result is
/// `uuid_canonical(text)`.
#[verifier::external_body]
pub(crate) fn parse_uuid(text: &str) -> (r: Option<String>)
    ensures
        r matches Some(s) ==> uuid_canonical(text@) == Some(s@),
        r is None ==> uuid_canonical(text@) is None,
        r matches Some(s) ==> hyphenated_uuid_text(s@) && uuid_text_length(text@.len()),
{
    uuid::Uuid::parse_str(text).ok().map(|id| id.to_string())
}

/// `uuid::Uuid::new_v4().to_string()`: a fresh random UUID in its
/// canonical text. Claimed: that text parses back to itself, since
/// `parse_str` accepts the hyphenated form `Display` writes. Nothing is
/// stated of which UUID comes out.
#[verifier::external_body]
pub(crate) fn random_uuid() -> (r: String)
    ensures
        uuid_canonical(r@) == Some(r@),
        hyphenated_uuid_text(r@),
{
    uuid::Uuid::new_v4().to_string()
}

/// The SHA-256 digest of `data`.
pub uninterp spec fn sha256(data: Seq<u8>) -> Seq<u8>;

/// `sha2::Sha256::digest`. Claimed: the result is the named digest of
/// `data`, 32 bytes long (the output size of SHA-256).
#[verifier::external_body]
pub(crate) fn sha256_digest(data: &[u8]) -> (r: Vec<u8>)
    ensures
        r@ == sha256(data@),
        r@.len() == 32,
{
    sha2::Sha256::digest(data).to_vec()
}

/// `sha2::Sha256`, the incremental SHA-256 hasher, held opaquely: Verus
/// refuses to declare the nested generic core types it is made of.
#[verifier::external_body]
pub struct Sha256Hasher {
    inner: sha2::Sha256,
}

/// The bytes a hasher has absorbed so far, in order.
pub uninterp spec fn absorbed(h: Sha256Hasher) -> Seq<u8>;

/// `sha2::Sha256::new`. Claimed: the new hasher has absorbed nothing.
#[verifier::external_body]
pub(crate) fn hasher_new() -> (h: Sha256Hasher)
    ensures
        absorbed(h) == Seq::<u8>::empty(),
{
    Sha256Hasher { inner: sha2::Sha256::new() }
}

/// `Digest::update`. Claimed: the hasher has absorbed `data` after what it
/// held before.
#[verifier::external_body]
pub(crate) fn hasher_update(h: &mut Sha256Hasher, data: &[u8])
    ensures
        absorbed(*final(h)) == absorbed(*old(h)) + data@,
{
    h.inner.update(data);
}

/// `Digest::finalize`. Claimed: the result is the named digest of every
/// byte the hasher absorbed, 32 bytes long.
#[verifier::external_body]
pub(crate) fn hasher_finish(h: Sha256Hasher) -> (r: Vec<u8>)
    ensures
        r@ == sha256(absorbed(h)),
        r@.len() == 32,
{
    h.inner.finalize().to_vec()
}

/// What `String::from_utf8_lossy` makes of `bytes`.
pub uninterp spec fn utf8_lossy(bytes: Seq<u8>) -> Seq<char>;

/// `String::from_utf8_lossy`. Claimed: the result is the named decoding of
/// `bytes`, and, as its documentation says, the plain decoding where
/// `bytes` is valid UTF-8.
#[verifier::external_body]
pub(crate) fn from_utf8_lossy(bytes: &[u8]) -> (r: String)
    ensures
        r@ == utf8_lossy(bytes@),
        valid_utf8(bytes@) ==> r@ == decode_utf8(bytes@),
{
    String::from_utf8_lossy(bytes).into_owned()
}

/// What `String::from_utf16_lossy` makes of `units`: each unit outside the
/// surrogate range stands for itself, a high surrogate followed by a low
/// one for the code point they combine to, and every other surrogate for
/// U+FFFD.
pub open spec fn utf16_lossy(units: Seq<u16>) -> Seq<char>
    decreases units.len(),
{
    if units.len() == 0 {
        Seq::empty()
    } else if units[0] < 0xD800 || units[0] >= 0xE000 {
        seq![units[0] as char] + utf16_lossy(units.skip(1))
    } else if units[0] <= 0xDBFF && units.len() >= 2 && 0xDC00 <= units[1] <= 0xDFFF {
        seq![(0x10000 + (units[0] - 0xD800) * 0x400 + (units[1] - 0xDC00)) as char] + utf16_lossy(units.skip(2))
    } else {
        seq!['\u{FFFD}'] + utf16_lossy(units.skip(1))
    }
}

/// The characters UTF-16 code units encode, or `None` where they are not
/// valid UTF-16: a unit outside the surrogate range stands for itself, a
/// high surrogate followed by a low one for the code point they combine to,
/// and any other surrogate is invalid.
pub open spec fn decode_utf16(units: Seq<u16>) -> Option<Seq<char>>
    decreases units.len(),
{
    if units.len() == 0 {
        Some(Seq::empty())
    } else if units[0] < 0xD800 || units[0] >= 0xE000 {
        match decode_utf16(units.skip(1)) {
            Some(rest) => Some(seq![units[0] as char] + rest),
            None => None,
        }
    } else if units[0] <= 0xDBFF && units.len() >= 2 && 0xDC00 <= units[1] <= 0xDFFF {
        match decode_utf16(units.skip(2)) {
            Some(rest) => Some(
                seq![(0x10000 + (units[0] - 0xD800) * 0x400 + (units[1] - 0xDC00)) as char] + rest,
            ),
            None => None,
        }
    } else {
        None
    }
}

/// `String::from_utf16_lossy`. Claimed, as its documentation says (it
/// decodes, replacing invalid data with U+FFFD, and its example turns one
/// unpaired surrogate into one U+FFFD): the result is `utf16_lossy(units)`,
/// which is the plain decoding where `units` is valid UTF-16.
#[verifier::external_body]
pub(crate) fn from_utf16_lossy(units: &[u16]) -> (r: String)
    ensures
        r@ == utf16_lossy(units@),
        decode_utf16(units@) matches Some(text) ==> r@ == text,
{
    String::from_utf16_lossy(units)
}

} // verus!
