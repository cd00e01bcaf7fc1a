//! Calls into the `uuid` crate and into parts of std that vstd leaves unspecified.
use crate::text::{is_ascii_blank, is_uuid_shape};
use vstd::prelude::*;

verus! {

/// What `uuid::Uuid::parse_str` makes of a text: the identifier's bits, or nothing.
pub uninterp spec fn uuid_parse_result(s: Seq<char>) -> Option<u128>;

/// The hyphenated text that `uuid` renders for an identifier.
pub uninterp spec fn uuid_text(id: u128) -> Seq<char>;

/// What `str::trim` leaves of a text.
pub uninterp spec fn trim_of(s: Seq<char>) -> Seq<char>;

/// Relies on `uuid::Uuid::parse_str` (then `Uuid::as_u128`): the outcome depends
/// on the text alone, and every text of the hyphenated form parses.
#[verifier::external_body]
pub(crate) fn parse_uuid(s: &str) -> (r: Option<u128>)
    ensures
        r == uuid_parse_result(s@),
        is_uuid_shape(s@) ==> r is Some,
{
    uuid::Uuid::parse_str(s).ok().map(|u| u.as_u128())
}

/// Relies on `uuid::Uuid::new_v4`: a random identifier, of which nothing is known.
#[verifier::external_body]
pub(crate) fn random_uuid() -> (r: u128) {
    uuid::Uuid::new_v4().as_u128()
}

/// Relies on `uuid::Uuid::hyphenated` and its `Display`: the text depends on the
/// identifier alone, is of the hyphenated form (lowercase digits), and
/// `Uuid::parse_str` reads it back.
#[verifier::external_body]
pub(crate) fn format_uuid(id: u128) -> (r: String)
    ensures
        r@ == uuid_text(id),
        is_uuid_shape(r@),
        uuid_parse_result(r@) == Some(id),
{
    uuid::Uuid::from_u128(id).hyphenated().to_string()
}

/// Relies on `str::trim`: the result depends on the text alone, and a text of
/// spaces, tabs and line breaks alone (Unicode white space) trims to nothing.
#[verifier::external_body]
pub(crate) fn trim_text<'a>(s: &'a str) -> (r: &'a str)
    ensures
        r@ == trim_of(s@),
        is_ascii_blank(s@) ==> r@.len() == 0,
{
    s.trim()
}

} // verus!
