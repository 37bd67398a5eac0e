//! Connecting to the mailbox that messages are dispatched through.
use crate::connect::{connect_ethereum, connect_outcome_ok};
use crate::err::{CliError, DomainProtocol};
use crate::rpc::{parsed_url_text, provider_endpoint, url_parse_error, url_parses};
use ethers::providers::{Http, Provider};
use vstd::prelude::*;

verus! {

/// Builds mailboxes.
pub struct MailboxFactory {}

impl MailboxFactory {
    pub fn new() -> (factory: MailboxFactory)
        ensures
            factory == (MailboxFactory {  }),
    {
        MailboxFactory {  }
    }

    /// The first step of opening the mailbox on the chain with id `chain_domain_id`,
    /// whose protocol `chain_protocol` is (`None` when the id is not a known domain):
    /// only EVM chains are supported, and the RPC URL must parse. Gives the provider
    /// that the signing middleware is then built on.
    pub fn new_mailbox_provider(
        self,
        chain_rpc_url: &str,
        chain_domain_id: u32,
        chain_protocol: Option<DomainProtocol>,
    ) -> (res: Result<Provider<Http>, CliError>)
        ensures
            res is Ok <==> connect_outcome_ok(chain_rpc_url@, chain_protocol),
            chain_protocol is None ==> res == Err::<Provider<Http>, CliError>(
                CliError::UnknownDomainId(chain_domain_id),
            ),
            chain_protocol matches Some(p) ==> p == DomainProtocol::Ethereum || res == Err::<
                Provider<Http>,
                CliError,
            >(CliError::UnsupportedProtocol(p)),
            chain_protocol == Some(DomainProtocol::Ethereum) && !url_parses(chain_rpc_url@) ==> res
                == Err::<Provider<Http>, CliError>(
                CliError::UrlParseError(url_parse_error(chain_rpc_url@)),
            ),
            res matches Ok(provider) ==> provider_endpoint(provider) == parsed_url_text(
                chain_rpc_url@,
            ),
    {
        connect_ethereum(chain_rpc_url, chain_domain_id, chain_protocol)
    }
}

} // verus!
