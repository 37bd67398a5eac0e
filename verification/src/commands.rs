//! What the `send` and `search` commands compute between their network calls.
use crate::err::CliError;
use crate::hashes::H256;
use crate::hex::{
    hex_items, parse_hex_bytes, read_all_bytes, read_exact_bytes, strip_hex_prefix, HexDigitError,
};
use vstd::prelude::*;

verus! {

/// The parts of a message that the `send` command sets; every other field of the
/// dispatched message keeps its default.
pub struct OutgoingMessage {
    /// Destination chain domain id
    pub destination: u32,
    /// Recipient address on the destination chain
    pub recipient: H256,
    /// Message body
    pub body: Vec<u8>,
}

/// Builds the message of the `send` command. The recipient is read as a 32-byte hex
/// hash and the body as hex bytes of any length (each with an optional `0x` first);
/// an error in the recipient is reported before one in the body.
pub fn build_message(
    destination_chain_domain_id: u32,
    destination_address: &str,
    message_body_hex: &str,
) -> (res: Result<OutgoingMessage, HexDigitError>)
    ensures
        match res {
            Ok(msg) => {
                &&& msg.destination == destination_chain_domain_id
                &&& read_exact_bytes(hex_items(strip_hex_prefix(destination_address@)), 32) == Ok::<
                    Seq<u8>,
                    HexDigitError,
                >(msg.recipient@)
                &&& read_all_bytes(hex_items(strip_hex_prefix(message_body_hex@))) == Ok::<
                    Seq<u8>,
                    HexDigitError,
                >(msg.body@)
            },
            Err(e) => match read_exact_bytes(hex_items(strip_hex_prefix(destination_address@)), 32) {
                Err(address_error) => e == address_error,
                Ok(_) => read_all_bytes(hex_items(strip_hex_prefix(message_body_hex@))) == Err::<
                    Seq<u8>,
                    HexDigitError,
                >(e),
            },
        },
{
    let recipient = match H256::from_hex_str(destination_address) {
        Ok(hash) => hash,
        Err(e) => return Err(e),
    };
    let body = match parse_hex_bytes(message_body_hex) {
        Ok(bytes) => bytes,
        Err(e) => return Err(e),
    };
    Ok(OutgoingMessage { destination: destination_chain_domain_id, recipient, body })
}

/// The outcome of the `send` command once the dispatch transaction is known: a
/// transaction that did not execute is a failure that names it.
pub fn dispatch_result(executed: bool, tx_id: String) -> (res: Result<(), CliError>)
    ensures
        executed ==> res == Ok::<(), CliError>(()),
        !executed ==> res == Err::<(), CliError>(CliError::TransactionExecutionFailure(tx_id)),
{
    if executed {
        Ok(())
    } else {
        Err(CliError::TransactionExecutionFailure(tx_id))
    }
}

/// The blocks that the `search` command looks through:
/// `[finalized_block - search_range_blocks_width, finalized_block]`.
pub fn search_block_range(finalized_block: u32, search_range_blocks_width: u32) -> (range: (
    u32,
    u32,
))
    requires
        search_range_blocks_width <= finalized_block,
    ensures
        range.0 == finalized_block - search_range_blocks_width,
        range.1 == finalized_block,
{
    (finalized_block - search_range_blocks_width, finalized_block)
}

} // verus!
