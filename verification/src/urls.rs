//! Download locations, checked and normalised when the index is built.

use vstd::prelude::*;
use crate::error::FdmError;

verus! {

#[verifier::external_type_specification]
#[verifier::external_body]
pub struct ExParseError(url::ParseError);

/// The serialisation of the URL that `url::Url::parse` reads from a text,
/// or `None` where it refuses the text.
pub uninterp spec fn parsed_url(text: Seq<char>) -> Option<Seq<char>>;

/// Calls `url::Url::parse` and hands out the serialisation of the URL that
/// it returns. The contract names that serialisation: the same text always
/// gives the same one, or is always refused.
#[verifier::external_body]
fn parse(text: &str) -> (r: Result<String, url::ParseError>)
    ensures
        match r {
            Ok(u) => parsed_url(text@) == Some(u@),
            Err(_) => parsed_url(text@) is None,
        },
{
    match url::Url::parse(text) {
        Ok(u) => Ok(String::from(u)),
        Err(e) => Err(e),
    }
}

/// Reads an absolute URL and gives its normal form. Text that is no
/// absolute URL is refused as a malformed index document.
pub fn parse_url(text: &str) -> (r: Result<String, FdmError>)
    ensures
        match r {
            Ok(u) => parsed_url(text@) == Some(u@),
            Err(e) => parsed_url(text@) is None && e is MalformedIndexDocument,
        },
{
    match parse(text) {
        Ok(u) => Ok(u),
        Err(_) => Err(FdmError::MalformedIndexDocument),
    }
}

} // verus!
