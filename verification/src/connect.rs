//! Connecting to a chain: the checks and the provider that both factories share.
use crate::err::{require_ethereum, CliError, DomainProtocol};
use crate::rpc::{
    http_provider, parsed_url_text, provider_endpoint, url_parse_error, url_parses,
};
use ethers::providers::{Http, Provider};
use vstd::prelude::*;

verus! {

/// Whether connecting to a chain succeeds: an unknown domain, an unsupported protocol
/// and an unparsable RPC URL are refused, in that order.
pub open spec fn connect_outcome_ok(
    chain_rpc_url: Seq<char>,
    chain_protocol: Option<DomainProtocol>,
) -> bool {
    chain_protocol == Some(DomainProtocol::Ethereum) && url_parses(chain_rpc_url)
}

/// For a known EVM domain, connecting succeeds exactly when the RPC URL parses,
/// whatever else the URL text is; an unknown domain or another protocol never
/// connects.
pub proof fn law_connect_needs_only_a_parsable_url(chain_rpc_url: Seq<char>, protocol: DomainProtocol)
    ensures
        connect_outcome_ok(chain_rpc_url, Some(DomainProtocol::Ethereum)) == url_parses(
            chain_rpc_url,
        ),
        protocol != DomainProtocol::Ethereum ==> !connect_outcome_ok(chain_rpc_url, Some(protocol)),
        !connect_outcome_ok(chain_rpc_url, None),
{
}

/// Checks the domain and its protocol, then opens an HTTP provider for the RPC URL.
pub(crate) fn connect_ethereum(
    chain_rpc_url: &str,
    chain_domain_id: u32,
    chain_protocol: Option<DomainProtocol>,
) -> (res: Result<Provider<Http>, CliError>)
    ensures
        res is Ok <==> connect_outcome_ok(chain_rpc_url@, chain_protocol),
        chain_protocol is None ==> res == Err::<Provider<Http>, CliError>(
            CliError::UnknownDomainId(chain_domain_id),
        ),
        chain_protocol matches Some(p) ==> p == DomainProtocol::Ethereum || res == Err::<
            Provider<Http>,
            CliError,
        >(CliError::UnsupportedProtocol(p)),
        chain_protocol == Some(DomainProtocol::Ethereum) && !url_parses(chain_rpc_url@) ==> res
            == Err::<Provider<Http>, CliError>(
            CliError::UrlParseError(url_parse_error(chain_rpc_url@)),
        ),
        res matches Ok(provider) ==> provider_endpoint(provider) == parsed_url_text(
            chain_rpc_url@,
        ),
{
    match require_ethereum(chain_domain_id, chain_protocol) {
        Err(e) => Err(e),
        Ok(()) => match http_provider(chain_rpc_url) {
            Ok(provider) => Ok(provider),
            Err(e) => Err(CliError::UrlParseError(e)),
        },
    }
}

} // verus!
