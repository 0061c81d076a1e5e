use vstd::prelude::*;

verus! {

/// The URL parser's error type, carried through unchanged.
#[verifier::external_type_specification]
#[verifier::external_body]
pub struct ExParseError(url::ParseError);

/// Why a crawler could not be built.
#[derive(Debug)]
pub enum BfError {
    /// The root URL is malformed.
    UrlError(url::ParseError),
    /// The root URL parsed, but has no domain name to confine the crawl to.
    NoDomain,
}

} // verus!
