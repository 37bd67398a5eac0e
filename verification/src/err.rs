//! The errors of the command-line tool, and the domains it knows of.
use vstd::prelude::*;
use vstd::string::StringExecFns;

verus! {

/// The protocol family that a Hyperlane domain runs on.
#[derive(Clone, Copy, Debug, PartialEq, Eq, Structural)]
pub enum DomainProtocol {
    /// An EVM chain.
    Ethereum,
    /// A Fuel chain.
    Fuel,
    /// A Solana-VM chain.
    Sealevel,
}

/// Error types for the Hyperlane CLI
#[derive(Debug, PartialEq)]
pub enum CliError {
    /// The domain id is not one of the known Hyperlane domains
    UnknownDomainId(u32),
    /// Unsupported protocol
    UnsupportedProtocol(DomainProtocol),
    /// Transaction execution failure
    TransactionExecutionFailure(String),
    /// URL ParseError pass through
    UrlParseError(url::ParseError),
    /// The mailbox address is neither a hex nor a base58 address
    InvalidMailboxAddress,
}

/// The decimal digits of `n`, without leading zeros (`"0"` for zero).
pub open spec fn decimal_text(n: nat) -> Seq<char>
    decreases n,
{
    if n < 10 {
        seq![(n + 48) as char]
    } else {
        decimal_text(n / 10).push(((n % 10) + 48) as char)
    }
}

/// `<u32 as ToString>::to_string`, which writes the number in decimal. Claimed: the
/// text is `decimal_text(n)`.
#[verifier::external_body]
fn u32_text(n: u32) -> (text: String)
    ensures
        text@ == decimal_text(n as nat),
{
    n.to_string()
}

/// The text that `<url::ParseError as Display>::fmt` writes for this error.
pub uninterp spec fn url_error_text(e: url::ParseError) -> Seq<char>;

/// `<url::ParseError as Display>::fmt`, through `format!`. Claimed: the text is
/// `url_error_text(e)`, a fixed sentence for each kind of error.
#[verifier::external_body]
fn url_error_message(e: &url::ParseError) -> (text: String)
    ensures
        text@ == url_error_text(*e),
{
    format!("{}", e)
}

/// The name a protocol is shown with.
pub open spec fn protocol_name(protocol: DomainProtocol) -> Seq<char> {
    match protocol {
        DomainProtocol::Ethereum => "ethereum"@,
        DomainProtocol::Fuel => "fuel"@,
        DomainProtocol::Sealevel => "sealevel"@,
    }
}

/// The text an error is reported with.
pub open spec fn cli_error_text(err: CliError) -> Seq<char> {
    match err {
        CliError::UnknownDomainId(id) => "Unknown domain id: "@ + decimal_text(id as nat),
        CliError::UnsupportedProtocol(p) => "Unsupported protocol: protocol="@ + protocol_name(p),
        CliError::TransactionExecutionFailure(tx) => "Transaction execution failure: tx_id="@
            + tx@,
        CliError::UrlParseError(e) => url_error_text(e),
        CliError::InvalidMailboxAddress => "Invalid mailbox address"@,
    }
}

impl DomainProtocol {
    /// The name the protocol is shown with.
    pub fn name(&self) -> (text: &'static str)
        ensures
            text@ == protocol_name(*self),
    {
        match self {
            DomainProtocol::Ethereum => "ethereum",
            DomainProtocol::Fuel => "fuel",
            DomainProtocol::Sealevel => "sealevel",
        }
    }
}

impl CliError {
    /// The text the error is reported with.
    pub fn message(&self) -> (text: String)
        ensures
            text@ == cli_error_text(*self),
    {
        match self {
            CliError::UnknownDomainId(id) => {
                let head = <String as StringExecFns>::from_str("Unknown domain id: ");
                let digits = u32_text(*id);
                head.concat(digits.as_str())
            },
            CliError::UnsupportedProtocol(p) => {
                let head = <String as StringExecFns>::from_str("Unsupported protocol: protocol=");
                head.concat(p.name())
            },
            CliError::TransactionExecutionFailure(tx) => {
                let head = <String as StringExecFns>::from_str(
                    "Transaction execution failure: tx_id=",
                );
                head.concat(tx.as_str())
            },
            CliError::UrlParseError(e) => url_error_message(e),
            CliError::InvalidMailboxAddress => <String as StringExecFns>::from_str(
                "Invalid mailbox address",
            ),
        }
    }
}

/// The decision both factories make before connecting: the domain must be known,
/// and only EVM chains are supported.
pub fn require_ethereum(chain_domain_id: u32, chain_protocol: Option<DomainProtocol>) -> (res:
    Result<(), CliError>)
    ensures
        match chain_protocol {
            None => res == Err::<(), CliError>(CliError::UnknownDomainId(chain_domain_id)),
            Some(DomainProtocol::Ethereum) => res == Ok::<(), CliError>(()),
            Some(protocol) => res == Err::<(), CliError>(CliError::UnsupportedProtocol(protocol)),
        },
{
    match chain_protocol {
        None => Err(CliError::UnknownDomainId(chain_domain_id)),
        Some(DomainProtocol::Ethereum) => Ok(()),
        Some(protocol) => Err(CliError::UnsupportedProtocol(protocol)),
    }
}

} // verus!
