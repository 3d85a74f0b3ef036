//! Encodings the proxy relies on: Base64 (the `base64` crate), Unicode
//! lower-casing and `Debug` quoting (std).
use vstd::prelude::*;

use base64::Engine;

verus! {

/// What `base64::engine::general_purpose::STANDARD.encode` returns for
/// `data` (padded standard alphabet).
pub uninterp spec fn base64_standard_encode(data: Seq<u8>) -> Seq<char>;

/// What `base64::engine::general_purpose::STANDARD.decode` returns for
/// the bytes of `text`: the decoded bytes, or `None` when it reports a
/// `DecodeError`.
pub uninterp spec fn base64_standard_decode(text: Seq<char>) -> Option<Seq<u8>>;

/// What `str::to_lowercase` (std) returns for `s`.
pub uninterp spec fn unicode_lowercase(s: Seq<char>) -> Seq<char>;

/// What `format!("{:?}", s)` (std's `Debug` for `str`) writes for `s`.
pub uninterp spec fn debug_quoted(s: Seq<char>) -> Seq<char>;

/// A byte count that a Rust allocation can hold (at most `isize::MAX`).
pub open spec fn fits_allocation(n: int) -> bool {
    0 <= n <= isize::MAX
}

/// `base64::engine::general_purpose::STANDARD.encode(data)`.
///
/// The contract names the result `base64_standard_encode(data)`, and
/// states that `STANDARD.decode` gives `data` back: the padded encoding is
/// canonical, which is what `STANDARD` (padding mode `RequireCanonical`,
/// no trailing bits) decodes.  The crate's `encode` panics only when the
/// encoded length overflows `usize`, which cannot happen for an input of
/// at most `isize::MAX` bytes.
#[verifier::external_body]
pub fn encode_base64(data: &[u8]) -> (r: String)
    requires
        fits_allocation(data@.len() as int),
    ensures
        r@ == base64_standard_encode(data@),
        base64_standard_decode(r@) == Some(data@),
{
    base64::engine::general_purpose::STANDARD.encode(data)
}

/// `base64::engine::general_purpose::STANDARD.decode` of the bytes of `text`.
///
/// The contract names the outcome `base64_standard_decode(text)`; the
/// reason carried by a `DecodeError` is not kept.
#[verifier::external_body]
pub fn decode_base64(text: &str) -> (r: Option<Vec<u8>>)
    ensures
        match base64_standard_decode(text@) {
            Some(b) => r matches Some(v) && v@ == b,
            None => r is None,
        },
{
    base64::engine::general_purpose::STANDARD.decode(text).ok()
}

/// `str::to_lowercase` (std): Unicode lower-casing.
#[verifier::external_body]
pub fn to_lowercase(s: &str) -> (r: String)
    ensures
        r@ == unicode_lowercase(s@),
{
    s.to_lowercase()
}

/// `format!("{:?}", s)` (std): `s` as a quoted, escaped string literal.
#[verifier::external_body]
pub fn debug_quote(s: &str) -> (r: String)
    ensures
        r@ == debug_quoted(s@),
{
    format!("{:?}", s)
}

} // verus!
