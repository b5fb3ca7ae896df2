//! The calls this library makes into std and candid, with what it assumes of
//! them.
use vstd::prelude::*;
use candid::types::principal::PrincipalError;
use candid::Principal;

verus! {

/// The lowercase form of a text, as std's `str::to_lowercase` computes it.
pub uninterp spec fn lower_of(s: Seq<char>) -> Seq<char>;

/// Whether candid accepts a text as the textual form of a principal.
pub uninterp spec fn principal_text_ok(s: Seq<char>) -> bool;

/// The percent-encoding of a text, as `urlencoding::encode` computes it.
pub uninterp spec fn url_encoded(s: Seq<char>) -> Seq<char>;

/// The standard padded base64 encoding of a text's UTF-8 bytes, as
/// `base64::encode` computes it.
pub uninterp spec fn base64_of_text(s: Seq<char>) -> Seq<char>;

/// Characters that percent-encoding leaves as they are.
pub open spec fn unreserved(c: char) -> bool {
    ('a' <= c <= 'z') || ('A' <= c <= 'Z') || ('0' <= c <= '9') || c == '-' || c == '_' || c
        == '.' || c == '~'
}

#[verifier::external_type_specification]
#[verifier::external_body]
pub struct ExPrincipal(Principal);

#[verifier::external_type_specification]
#[verifier::external_body]
pub struct ExPrincipalError(PrincipalError);

/// Relies on `str::to_lowercase`: the result depends on the characters alone,
/// and the empty text stays empty.
#[verifier::external_body]
pub(crate) fn lowercase(s: &str) -> (r: String)
    ensures
        r@ == lower_of(s@),
        s@.len() == 0 ==> r@.len() == 0,
{
    s.to_lowercase()
}

/// Relies on `urlencoding::encode`: every byte but ASCII letters, digits
/// and `-`, `_`, `.`, `~` is percent-encoded, so a text made of those alone
/// comes back as it is.
#[verifier::external_body]
pub(crate) fn url_encode(s: &str) -> (r: String)
    ensures
        r@ == url_encoded(s@),
        (forall|i: int| 0 <= i < s@.len() ==> unreserved(#[trigger] s@[i])) ==> r@ == s@,
{
    urlencoding::encode(s).into_owned()
}

/// Relies on `base64::encode` (the standard alphabet, with padding): the
/// result depends on the bytes alone, and no bytes give the empty text.
#[verifier::external_body]
#[allow(deprecated)]
pub(crate) fn base64_text(s: &str) -> (r: String)
    ensures
        r@ == base64_of_text(s@),
        s@.len() == 0 ==> r@.len() == 0,
{
    base64::encode(s)
}

/// Relies on candid's `Principal::from_text`: whether a text parses depends
/// on the text alone, and the empty text is too short to parse.
#[verifier::external_body]
pub(crate) fn parse_principal(text: &str) -> (r: Result<Principal, PrincipalError>)
    ensures
        r is Ok <==> principal_text_ok(text@),
        text@.len() == 0 ==> r is Err,
{
    Principal::from_text(text)
}

} // verus!
