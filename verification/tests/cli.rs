use hyperlane_cli::commands::{build_message, dispatch_result, search_block_range};
use hyperlane_cli::err::{require_ethereum, CliError, DomainProtocol};
use hyperlane_cli::hashes::H256;
use hyperlane_cli::hex::HexDigitError;
use hyperlane_cli::mailbox_factory::MailboxFactory;
use hyperlane_cli::mailbox_indexer_factory::MailboxIndexerFactory;

#[test]
fn unknown_domain_is_refused() {
    assert_eq!(require_ethereum(77, None), Err(CliError::UnknownDomainId(77)));
    let res = MailboxIndexerFactory::new().new_indexer("http://localhost:8545", 77, None, Some(H256([0; 32])), 1);
    assert!(matches!(res, Err(CliError::UnknownDomainId(77))));
}

#[test]
fn only_ethereum_is_supported() {
    assert_eq!(require_ethereum(420, Some(DomainProtocol::Ethereum)), Ok(()));
    assert_eq!(
        require_ethereum(1399811149, Some(DomainProtocol::Sealevel)),
        Err(CliError::UnsupportedProtocol(DomainProtocol::Sealevel))
    );
    let res = MailboxFactory::new().new_mailbox_provider("http://localhost:8545", 5, Some(DomainProtocol::Fuel));
    assert!(matches!(res, Err(CliError::UnsupportedProtocol(DomainProtocol::Fuel))));
}

#[test]
fn bad_rpc_url_is_refused() {
    let res = MailboxIndexerFactory::new().new_indexer("not a url", 5, Some(DomainProtocol::Ethereum), None, 1);
    assert!(matches!(res, Err(CliError::UrlParseError(url::ParseError::RelativeUrlWithoutBase))));
    let res = MailboxFactory::new().new_mailbox_provider("", 5, Some(DomainProtocol::Ethereum));
    assert!(matches!(res, Err(CliError::UrlParseError(_))));
}

#[test]
fn indexer_parts_keep_the_arguments() {
    let parts = MailboxIndexerFactory::new()
        .new_indexer(
            "https://optimism-goerli.publicnode.com",
            420,
            Some(DomainProtocol::Ethereum),
            Some(H256([7; 32])),
            1,
        )
        .ok()
        .unwrap();
    assert_eq!(parts.chain_domain_id, 420);
    assert_eq!(parts.mailbox_address, H256([7; 32]));
    assert_eq!(parts.finality_blocks, 1);
    assert_eq!(parts.provider.url().as_str(), "https://optimism-goerli.publicnode.com/");
}

#[test]
fn mailbox_provider_for_ethereum() {
    let provider = MailboxFactory::new()
        .new_mailbox_provider("https://optimism-goerli.publicnode.com", 420, Some(DomainProtocol::Ethereum))
        .ok()
        .unwrap();
    assert_eq!(provider.url().as_str(), "https://optimism-goerli.publicnode.com/");
}

#[test]
fn readme_send_message() {
    let msg = build_message(
        5,
        "0x00000000000000000000000036FdA966CfffF8a9Cdc814f546db0e6378bFef35",
        "0x48656c6c6f20576f726c64",
    )
    .ok()
    .unwrap();
    assert_eq!(msg.destination, 5);
    assert_eq!(&msg.recipient.0[..12], &[0u8; 12]);
    assert_eq!(msg.recipient.0[12..16], [0x36, 0xFd, 0xA9, 0x66]);
    assert_eq!(msg.body, b"Hello World".to_vec());
}

#[test]
fn send_message_with_bad_recipient() {
    let res = build_message(5, "0x36FdA966CfffF8a9Cdc814f546db0e6378bFef35", "hi");
    assert!(matches!(res, Err(HexDigitError::InvalidHexLength)));
}

#[test]
fn failed_dispatch_names_the_transaction() {
    assert_eq!(dispatch_result(true, "0xabc".to_string()), Ok(()));
    assert_eq!(
        dispatch_result(false, "0xabc".to_string()),
        Err(CliError::TransactionExecutionFailure("0xabc".to_string()))
    );
}

#[test]
fn search_range_default_width() {
    assert_eq!(search_block_range(1_000_000, 50_000), (950_000, 1_000_000));
    assert_eq!(search_block_range(7, 0), (7, 7));
    assert_eq!(search_block_range(50_000, 50_000), (0, 50_000));
}

#[test]
fn unreadable_mailbox_address_is_refused_after_the_url() {
    let res = MailboxIndexerFactory::new().new_indexer("http://x", 1, Some(DomainProtocol::Ethereum), None, 1);
    assert!(matches!(res, Err(CliError::InvalidMailboxAddress)));
    let res = MailboxIndexerFactory::new().new_indexer("", 1, Some(DomainProtocol::Ethereum), None, 1);
    assert!(matches!(res, Err(CliError::UrlParseError(_))));
}

#[test]
fn message_body_must_be_hex() {
    let to = "0x00000000000000000000000036FdA966CfffF8a9Cdc814f546db0e6378bFef35";
    assert!(matches!(build_message(5, to, "0x123"), Err(HexDigitError::InvalidHexLength)));
    assert!(matches!(build_message(5, to, "hi"), Err(HexDigitError::InvalidHexCharacter('h', 0))));
    assert_eq!(build_message(5, to, "").ok().unwrap().body, Vec::<u8>::new());
    assert_eq!(build_message(5, to, "0x00 ff").ok().unwrap().body, vec![0x00, 0xff]);
    // the recipient's error comes first
    assert!(matches!(build_message(5, "0x12", "zz"), Err(HexDigitError::InvalidHexLength)));
}

#[test]
fn error_messages() {
    assert_eq!(CliError::UnknownDomainId(420).message(), "Unknown domain id: 420");
    assert_eq!(CliError::UnknownDomainId(0).message(), "Unknown domain id: 0");
    assert_eq!(
        CliError::UnsupportedProtocol(DomainProtocol::Sealevel).message(),
        "Unsupported protocol: protocol=sealevel"
    );
    assert_eq!(
        CliError::TransactionExecutionFailure("0xabc".to_string()).message(),
        "Transaction execution failure: tx_id=0xabc"
    );
    assert_eq!(
        CliError::UrlParseError(url::ParseError::RelativeUrlWithoutBase).message(),
        "relative URL without a base"
    );
    assert_eq!(CliError::InvalidMailboxAddress.message(), "Invalid mailbox address");
}
