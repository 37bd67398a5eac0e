//! The HTTP JSON-RPC provider that both factories connect through.
use ethers::providers::{Http, Provider};
use vstd::prelude::*;

verus! {

#[verifier::external_type_specification]
#[verifier::external_body]
#[verifier::reject_recursive_types(P)]
pub struct ExProvider<P>(Provider<P>);

#[verifier::external_type_specification]
#[verifier::external_body]
pub struct ExHttp(Http);

#[verifier::external_type_specification]
#[verifier::external_body]
pub struct ExUrlParseError(url::ParseError);

/// Whether `url::Url::parse` accepts this text as an absolute URL.
pub uninterp spec fn url_parses(text: Seq<char>) -> bool;

/// The serialization of the URL that `url::Url::parse` makes of this text.
pub uninterp spec fn parsed_url_text(text: Seq<char>) -> Seq<char>;

/// The error that `url::Url::parse` gives for this text.
pub uninterp spec fn url_parse_error(text: Seq<char>) -> url::ParseError;

/// The serialization of the URL that a provider sends its requests to.
pub uninterp spec fn provider_endpoint(provider: Provider<Http>) -> Seq<char>;

/// `<Provider<Http> as TryFrom<&str>>::try_from` (ethers-providers), which parses the
/// text with `url::Url::parse` and wraps a new HTTP client for that URL. Claimed: it
/// succeeds exactly when the URL parses; the provider then sends its requests to the
/// parsed URL, and a failure carries the parser's own error. Nothing else of the
/// provider is stated. With the features this crate builds ethers with, reqwest has no
/// TLS backend to initialise, so building the HTTP client cannot fail.
#[verifier::external_body]
pub(crate) fn http_provider(rpc_url: &str) -> (res: Result<Provider<Http>, url::ParseError>)
    ensures
        res is Ok <==> url_parses(rpc_url@),
        res matches Ok(provider) ==> provider_endpoint(provider) == parsed_url_text(rpc_url@),
        res matches Err(e) ==> e == url_parse_error(rpc_url@),
{
    Provider::<Http>::try_from(rpc_url)
}

} // verus!
