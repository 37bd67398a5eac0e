//! Building the indexer that reads the messages a mailbox dispatched.
use crate::connect::{connect_ethereum, connect_outcome_ok};
use crate::err::{CliError, DomainProtocol};
use crate::hashes::H256;
use crate::rpc::{parsed_url_text, provider_endpoint, url_parse_error, url_parses};
use ethers::providers::{Http, Provider};
use std::sync::Arc;
use vstd::prelude::*;

verus! {

/// Builds mailbox indexers.
pub struct MailboxIndexerFactory {}

/// What an indexer of a mailbox on an EVM chain is made from: the provider, the
/// domain, the mailbox address, and the number of confirmations after which a block
/// counts as final.
pub struct EthereumIndexerParts {
    pub provider: Arc<Provider<Http>>,
    pub chain_domain_id: u32,
    pub mailbox_address: H256,
    pub finality_blocks: u32,
}

impl MailboxIndexerFactory {
    pub fn new() -> (factory: MailboxIndexerFactory)
        ensures
            factory == (MailboxIndexerFactory {  }),
    {
        MailboxIndexerFactory {  }
    }

    /// Prepares an indexer for a mailbox on the chain with id `chain_domain_id`.
    /// `chain_protocol` is the protocol of that domain (`None` when the id is not a
    /// known domain), and `mailbox_address` is the address read from the text the user
    /// gave (`None` when that text is neither a hex nor a base58 address). Only EVM
    /// chains are supported; then the RPC URL must parse, and then the address must
    /// have been read.
    pub fn new_indexer(
        self,
        chain_rpc_url: &str,
        chain_domain_id: u32,
        chain_protocol: Option<DomainProtocol>,
        mailbox_address: Option<H256>,
        finality_blocks: u32,
    ) -> (res: Result<EthereumIndexerParts, CliError>)
        ensures
            res is Ok <==> connect_outcome_ok(chain_rpc_url@, chain_protocol)
                && mailbox_address is Some,
            res matches Ok(parts) ==> parts.chain_domain_id == chain_domain_id
                && Some(parts.mailbox_address) == mailbox_address && parts.finality_blocks
                == finality_blocks,
            chain_protocol is None ==> res == Err::<EthereumIndexerParts, CliError>(
                CliError::UnknownDomainId(chain_domain_id),
            ),
            chain_protocol matches Some(p) ==> p == DomainProtocol::Ethereum || res == Err::<
                EthereumIndexerParts,
                CliError,
            >(CliError::UnsupportedProtocol(p)),
            chain_protocol == Some(DomainProtocol::Ethereum) && !url_parses(chain_rpc_url@) ==> res
                == Err::<EthereumIndexerParts, CliError>(
                CliError::UrlParseError(url_parse_error(chain_rpc_url@)),
            ),
            connect_outcome_ok(chain_rpc_url@, chain_protocol) && mailbox_address is None ==> res
                == Err::<EthereumIndexerParts, CliError>(CliError::InvalidMailboxAddress),
            res matches Ok(parts) ==> provider_endpoint(*parts.provider) == parsed_url_text(
                chain_rpc_url@,
            ),
    {
        let provider = match connect_ethereum(chain_rpc_url, chain_domain_id, chain_protocol) {
            Err(e) => return Err(e),
            Ok(provider) => provider,
        };
        match mailbox_address {
            None => Err(CliError::InvalidMailboxAddress),
            Some(address) => Ok(
                EthereumIndexerParts {
                    provider: Arc::new(provider),
                    chain_domain_id,
                    mailbox_address: address,
                    finality_blocks,
                },
            ),
        }
    }
}

} // verus!
