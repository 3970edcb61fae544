use nft_indexer::base64::decode_base64;
use nft_indexer::chain::{is_erc721_abi, is_erc721_sierra_abi, text_of_call_result};
use nft_indexer::contract_cache::ContractMetadataCache;
use nft_indexer::document::{
    AddressAtBlock, AttributeValue, ContractMetadata, DisplayType, Erc1155Balance, IndexerMetadata,
    MetadataType, TokenMetadata,
};
use nft_indexer::erc1155::{first_seen_metadata, BalanceBook, Erc1155Transfer};
use nft_indexer::erc721::{
    handle_mint, mint_applies, needs_contract_metadata, run, transition_of, Erc721Transfer, Erc721Transition, HandlerError,
};
use nft_indexer::events::{
    classify_event, log_indices, needs_erc721_probe, transfer_batch_key, transfer_key, transfer_single_key,
    ClassifiedEvent, RawEvent,
};
use nft_indexer::felt::Felt;
use nft_indexer::fetcher::{transfer_filter, EventsPage, FetchError, FetchStep, TransferFetch, TransportError};
use nft_indexer::metadata::{
    attribute_value_of, is_base64_data_uri, metadata_type, resolve_token_metadata, token_metadata_from_json, JsonField,
    JsonValue,
};
use nft_indexer::uint256::Uint256;

fn felt(v: u128) -> Felt {
    Felt::from_u128(v)
}

fn u256(v: u128) -> Uint256 {
    Uint256::from_u128(v)
}

fn erc721_event(sender: u128, recipient: u128, block: u64) -> Erc721Transfer {
    Erc721Transfer {
        contract_address: felt(0xC1),
        block_number: block,
        log_index: 0,
        sender: felt(sender),
        recipient: felt(recipient),
        token_id: u256(1),
    }
}

fn is_empty(m: &TokenMetadata) -> bool {
    m.image.is_none()
        && m.image_data.is_none()
        && m.external_url.is_none()
        && m.description.is_none()
        && m.name.is_none()
        && m.attributes.is_none()
        && m.background_color.is_none()
        && m.animation_url.is_none()
        && m.youtube_url.is_none()
}

#[test]
fn mint_transfer_burn_scenario() {
    let mint = erc721_event(0, 0xA, 100);
    let t = run(&mint, None, "ipfs://unreachable".to_string(), None, true, String::new(), String::new()).unwrap().token;
    assert_eq!(t.owner, felt(0xA));
    assert!(t.previous_owners.is_empty());
    assert_eq!(t.token_uri, "ipfs://unreachable");
    assert!(is_empty(&t.metadata));
    assert_eq!(t.last_updated, 100);
    assert_eq!(t.erc721id.contract_address, felt(0xC1));
    assert_eq!(t.erc721id.token_id, u256(1));

    let transfer = erc721_event(0xA, 0xB, 101);
    let t = run(&transfer, Some(t), String::new(), None, true, String::new(), String::new()).unwrap().token;
    assert_eq!(t.owner, felt(0xB));
    assert_eq!(t.previous_owners, vec![AddressAtBlock { address: felt(0xA), block: 100 }]);
    assert_eq!(t.last_updated, 101);

    let burn = erc721_event(0xB, 0, 102);
    let t = run(&burn, Some(t), String::new(), None, true, String::new(), String::new()).unwrap().token;
    assert_eq!(t.owner, Felt::zero());
    assert_eq!(
        t.previous_owners,
        vec![
            AddressAtBlock { address: felt(0xA), block: 100 },
            AddressAtBlock { address: felt(0xB), block: 101 }
        ]
    );
    assert_eq!(t.last_updated, 102);
    assert_eq!(t.token_uri, "ipfs://unreachable");
}

#[test]
fn transfer_without_mint_is_skipped() {
    let transfer = erc721_event(0xA, 0xB, 5);
    assert_eq!(run(&transfer, None, String::new(), None, true, String::new(), String::new()).unwrap_err(), HandlerError::MissingToken);
    let burn = erc721_event(0xA, 0, 5);
    assert_eq!(run(&burn, None, String::new(), None, true, String::new(), String::new()).unwrap_err(), HandlerError::MissingToken);
}

#[test]
fn mint_keeps_resolved_metadata() {
    let mut m = TokenMetadata::empty();
    m.name = Some("Cat".to_string());
    let t = run(&erc721_event(0, 0xA, 7), None, "u".to_string(), Some(m), true, String::new(), String::new()).unwrap().token;
    assert_eq!(t.metadata.name.as_deref(), Some("Cat"));
}

#[test]
fn transitions_follow_the_zero_address() {
    assert_eq!(transition_of(felt(0), felt(1)), Erc721Transition::Mint);
    assert_eq!(transition_of(felt(1), felt(0)), Erc721Transition::Burn);
    assert_eq!(transition_of(felt(1), felt(2)), Erc721Transition::Transfer);
    assert_eq!(transition_of(felt(0), felt(0)), Erc721Transition::Mint);
}

fn balance(contract: u128, id: u128, owner: u128, v: u128) -> Erc1155Balance {
    Erc1155Balance::new(felt(contract), u256(id), felt(owner), u256(v), 1, 0)
}

#[test]
fn erc1155_batch_scenario() {
    let mut book = BalanceBook::new(vec![balance(0xC1, 1, 0xA, 10), balance(0xC1, 2, 0xA, 3)]);
    let t = Erc1155Transfer {
        contract_address: felt(0xC1),
        block_number: 9,
        log_index: 0,
        sender: felt(0xA),
        recipient: felt(0xB),
        token_ids: vec![u256(1), u256(2)],
        amounts: vec![u256(5), u256(3)],
    };
    assert!(book.apply_transfer(&t).is_ok());
    assert_eq!(book.balance_of(felt(0xC1), u256(1), felt(0xA)), u256(5));
    assert_eq!(book.balance_of(felt(0xC1), u256(2), felt(0xA)), u256(0));
    assert_eq!(book.balance_of(felt(0xC1), u256(1), felt(0xB)), u256(5));
    assert_eq!(book.balance_of(felt(0xC1), u256(2), felt(0xB)), u256(3));
    assert_eq!(book.entries.last().unwrap().last_updated, 9);
}

#[test]
fn erc1155_debit_clamps_at_zero() {
    let mut book = BalanceBook::new(vec![balance(0xC1, 1, 0xA, 2)]);
    assert!(book.debit_clamps(
        &Erc1155Transfer {
            contract_address: felt(0xC1),
            block_number: 3,
            log_index: 0,
            sender: felt(0xA),
            recipient: felt(0xB),
            token_ids: vec![],
            amounts: vec![],
        },
        u256(1),
        u256(5)
    ));
    let t = Erc1155Transfer {
        contract_address: felt(0xC1),
        block_number: 3,
        log_index: 0,
        sender: felt(0xA),
        recipient: felt(0xB),
        token_ids: vec![u256(1)],
        amounts: vec![u256(5)],
    };
    assert!(book.apply_transfer(&t).is_ok());
    assert_eq!(book.balance_of(felt(0xC1), u256(1), felt(0xA)), u256(0));
    assert_eq!(book.balance_of(felt(0xC1), u256(1), felt(0xB)), u256(5));
}

#[test]
fn erc1155_mint_creates_balance_and_burn_takes_it() {
    let mut book = BalanceBook::new(vec![]);
    let mint = Erc1155Transfer {
        contract_address: felt(0xC1),
        block_number: 3,
        log_index: 0,
        sender: felt(0),
        recipient: felt(0xA),
        token_ids: vec![u256(4)],
        amounts: vec![u256(7)],
    };
    assert!(book.apply_transfer(&mint).is_ok());
    assert_eq!(book.entries.len(), 1);
    assert_eq!(book.balance_of(felt(0xC1), u256(4), felt(0xA)), u256(7));
    let burn = Erc1155Transfer {
        contract_address: felt(0xC1),
        block_number: 4,
        log_index: 0,
        sender: felt(0xA),
        recipient: felt(0),
        token_ids: vec![u256(4)],
        amounts: vec![u256(7)],
    };
    assert!(book.apply_transfer(&burn).is_ok());
    assert_eq!(book.balance_of(felt(0xC1), u256(4), felt(0xA)), u256(0));
    assert_eq!(book.balance_of(felt(0xC1), u256(4), felt(0)), u256(0));
}

#[test]
fn erc1155_length_mismatch_and_overflow() {
    let mut book = BalanceBook::new(vec![balance(0xC1, 1, 0xA, 10)]);
    let bad = Erc1155Transfer {
        contract_address: felt(0xC1),
        block_number: 3,
        log_index: 0,
        sender: felt(0xA),
        recipient: felt(0xB),
        token_ids: vec![u256(1), u256(2)],
        amounts: vec![u256(1)],
    };
    assert_eq!(book.apply_transfer(&bad), Err(HandlerError::LengthMismatch));
    assert_eq!(book.entries.len(), 1);

    let max = Uint256 { low: u128::MAX, high: u128::MAX };
    let mut book = BalanceBook::new(vec![Erc1155Balance::new(felt(0xC1), u256(1), felt(0xB), max, 1, 0)]);
    let over = Erc1155Transfer {
        contract_address: felt(0xC1),
        block_number: 3,
        log_index: 0,
        sender: felt(0),
        recipient: felt(0xB),
        token_ids: vec![u256(2), u256(1)],
        amounts: vec![u256(1), u256(1)],
    };
    assert_eq!(book.apply_transfer(&over), Err(HandlerError::BalanceOverflow));
    assert_eq!(book.entries.len(), 1);
    assert_eq!(book.balance_of(felt(0xC1), u256(2), felt(0xB)), u256(0));
}

#[test]
fn uint256_arithmetic() {
    let a = Uint256 { low: u128::MAX, high: 0 };
    let s = a.checked_add(&u256(1)).unwrap();
    assert_eq!(s, Uint256 { low: 0, high: 1 });
    assert_eq!(s.saturating_sub(&u256(1)), a);
    assert_eq!(u256(3).saturating_sub(&u256(5)), u256(0));
    assert!(Uint256 { low: u128::MAX, high: u128::MAX }.checked_add(&u256(1)).is_none());
    assert_eq!(Uint256::from_felts(felt(5), felt(6)), Some(Uint256 { low: 5, high: 6 }));
    assert_eq!(Uint256::from_felts(Felt { high: 1, low: 0 }, felt(0)), None);
}

#[test]
fn contract_metadata_created_once() {
    let mut cache = ContractMetadataCache::new();
    assert!(!cache.contains(felt(0xC1)));
    assert!(cache.create_if_absent(ContractMetadata::new(felt(0xC1), "A".to_string(), "AA".to_string(), 1)));
    assert!(!cache.create_if_absent(ContractMetadata::new(felt(0xC1), "B".to_string(), "BB".to_string(), 2)));
    assert!(cache.create_if_absent(ContractMetadata::new(felt(0xC2), "C".to_string(), "CC".to_string(), 3)));
    assert_eq!(cache.records.len(), 2);
    assert_eq!(cache.records[0].name, "A");
    assert!(cache.contains(felt(0xC1)));
}

#[test]
fn first_mint_records_contract_metadata() {
    let e = erc721_event(0, 0xA, 100);
    assert!(needs_contract_metadata(&e, &None, false));
    assert!(!needs_contract_metadata(&e, &None, true));
    assert!(!needs_contract_metadata(&erc721_event(0xA, 0xB, 100), &None, false));
    let minted = handle_mint(&e, "u".to_string(), None, true, String::new(), String::new()).token;
    assert!(!needs_contract_metadata(&e, &Some(minted.clone()), false));
    assert!(!mint_applies(&e, &Some(minted)));
    assert!(mint_applies(&e, &None));
    let w = handle_mint(&e, "u".to_string(), None, false, "N".to_string(), "S".to_string());
    let c = w.contract_metadata.unwrap();
    assert_eq!(c.id, felt(0xC1));
    assert_eq!(c.name, "N");
    assert_eq!(c.symbol, "S");
    assert_eq!(c.last_updated, 100);
    let w = handle_mint(&e, "u".to_string(), None, true, "N".to_string(), "S".to_string());
    assert!(w.contract_metadata.is_none());
}

#[test]
fn replayed_erc721_events_change_nothing() {
    let none = || (String::new(), None, true, String::new(), String::new());
    let mint = erc721_event(0, 0xA, 100);
    let minted = run(&mint, None, "u".to_string(), None, false, "N".to_string(), "S".to_string()).unwrap();
    assert!(minted.contract_metadata.is_some());
    let (u, m, k, n, s) = none();
    let again = run(&mint, Some(minted.token.clone()), u, m, k, n, s).unwrap();
    assert!(again.contract_metadata.is_none());
    assert_eq!(again.token.owner, felt(0xA));
    assert!(again.token.previous_owners.is_empty());

    let transfer = erc721_event(0xA, 0xB, 101);
    let (u, m, k, n, s) = none();
    let moved = run(&transfer, Some(minted.token), u, m, k, n, s).unwrap().token;
    let (u, m, k, n, s) = none();
    let replayed = run(&transfer, Some(moved.clone()), u, m, k, n, s).unwrap().token;
    assert_eq!(replayed.previous_owners, moved.previous_owners);
    assert_eq!(replayed.owner, felt(0xB));
    assert_eq!(replayed.last_updated, 101);

    let burn = erc721_event(0xB, 0, 102);
    let (u, m, k, n, s) = none();
    let burnt = run(&burn, Some(moved), u, m, k, n, s).unwrap().token;
    let (u, m, k, n, s) = none();
    let replayed = run(&burn, Some(burnt.clone()), u, m, k, n, s).unwrap().token;
    assert_eq!(replayed.previous_owners.len(), 2);
    assert_eq!(replayed.previous_owners, burnt.previous_owners);
    assert_eq!(replayed.owner, Felt::zero());
}

#[test]
fn token_minted_again_after_burn() {
    let none = || (String::new(), None, true, String::new(), String::new());
    let (u, m, k, n, s) = none();
    let t = run(&erc721_event(0, 0xA, 100), None, u, m, k, n, s).unwrap().token;
    let (u, m, k, n, s) = none();
    let t = run(&erc721_event(0xA, 0, 101), Some(t), u, m, k, n, s).unwrap().token;
    assert_eq!(t.owner, Felt::zero());
    let remint = erc721_event(0, 0xC, 105);
    assert!(mint_applies(&remint, &Some(t.clone())));
    let t = run(&remint, Some(t), "v".to_string(), None, true, String::new(), String::new()).unwrap().token;
    assert_eq!(t.owner, felt(0xC));
    assert!(t.previous_owners.is_empty());
    assert_eq!(t.last_updated, 105);
    assert_eq!(t.token_uri, "v");
}

#[test]
fn self_transfer_in_the_same_block_is_recorded() {
    let none = || (String::new(), None, true, String::new(), String::new());
    let (u, m, k, n, s) = none();
    let t = run(&erc721_event(0, 0xA, 100), None, u, m, k, n, s).unwrap().token;
    let first = Erc721Transfer { log_index: 1, ..erc721_event(0xA, 0xA, 100) };
    let (u, m, k, n, s) = none();
    let t = run(&first, Some(t), u, m, k, n, s).unwrap().token;
    assert_eq!(t.previous_owners, vec![AddressAtBlock { address: felt(0xA), block: 100 }]);
    let second = Erc721Transfer { log_index: 2, ..first };
    let (u, m, k, n, s) = none();
    let t = run(&second, Some(t), u, m, k, n, s).unwrap().token;
    assert_eq!(t.previous_owners.len(), 2);
    let (u, m, k, n, s) = none();
    let replayed = run(&second, Some(t.clone()), u, m, k, n, s).unwrap().token;
    assert_eq!(replayed.previous_owners.len(), 2);
    assert_eq!(replayed.log_index, 2);
}

#[test]
fn sierra_abi_probe() {
    let f = |name: &str| JsonValue::Object(vec![field("type", s("function")), field("name", s(name))]);
    let top = JsonValue::Array(vec![f("name"), f("owner_of")]);
    assert!(is_erc721_sierra_abi(&top));
    let nested = JsonValue::Array(vec![JsonValue::Object(vec![
        field("type", s("interface")),
        field("items", JsonValue::Array(vec![f("balance_of"), f("ownerOf")])),
    ])]);
    assert!(is_erc721_sierra_abi(&nested));
    assert!(!is_erc721_sierra_abi(&JsonValue::Array(vec![f("owner")])));
    assert!(!is_erc721_sierra_abi(&JsonValue::Array(vec![JsonValue::Object(vec![
        field("type", s("event")),
        field("name", s("ownerOf")),
    ])])));
    assert!(!is_erc721_sierra_abi(&s("ownerOf")));
}

#[test]
fn replayed_erc1155_transfer_changes_no_balance() {
    let t = Erc1155Transfer {
        contract_address: felt(0xC1),
        block_number: 9,
        log_index: 2,
        sender: felt(0xA),
        recipient: felt(0xB),
        token_ids: vec![u256(1), u256(1)],
        amounts: vec![u256(4), u256(1)],
    };
    let mut book = BalanceBook::new(vec![balance(0xC1, 1, 0xA, 10)]);
    assert!(book.apply_transfer(&t).is_ok());
    assert_eq!(book.balance_of(felt(0xC1), u256(1), felt(0xA)), u256(5));
    assert_eq!(book.balance_of(felt(0xC1), u256(1), felt(0xB)), u256(5));
    let mut replay = BalanceBook::new(book.entries.clone());
    assert!(replay.apply_transfer(&t).is_ok());
    assert_eq!(replay.entries.len(), book.entries.len());
    assert_eq!(replay.balance_of(felt(0xC1), u256(1), felt(0xA)), u256(5));
    assert_eq!(replay.balance_of(felt(0xC1), u256(1), felt(0xB)), u256(5));
    let later = Erc1155Transfer { log_index: 3, ..t.clone() };
    assert!(replay.apply_transfer(&later).is_ok());
    assert_eq!(replay.balance_of(felt(0xC1), u256(1), felt(0xA)), u256(0));
}

#[test]
fn log_indices_count_within_blocks() {
    assert_eq!(log_indices(&vec![5, 5, 5, 6, 7, 7]), vec![0, 1, 2, 0, 0, 1]);
    assert_eq!(log_indices(&vec![]), Vec::<u64>::new());
}

#[test]
fn erc1155_metadata_only_when_first_seen() {
    let t = Erc1155Transfer {
        contract_address: felt(0xC1),
        block_number: 9,
        log_index: 0,
        sender: felt(0),
        recipient: felt(0xB),
        token_ids: vec![u256(1)],
        amounts: vec![u256(1)],
    };
    assert!(first_seen_metadata(&t, u256(1), true, "u".to_string(), None).is_none());
    let m = first_seen_metadata(&t, u256(1), false, "u".to_string(), None).unwrap();
    assert_eq!(m.token_uri, "u");
    assert_eq!(m.token_id, u256(1));
    assert_eq!(m.last_updated, 9);
    assert!(is_empty(&m.metadata));
}

fn raw(key: Felt, data: Vec<u128>) -> RawEvent {
    RawEvent { from_address: felt(0xC1), keys: vec![key], data: data.into_iter().map(felt).collect(), block_number: 50, log_index: 0 }
}

#[test]
fn classify_erc721_transfer() {
    let ev = raw(transfer_key(), vec![0xA, 0xB, 7, 1]);
    assert!(needs_erc721_probe(&ev));
    match classify_event(&ev, true) {
        ClassifiedEvent::Erc721(t) => {
            assert_eq!(t.sender, felt(0xA));
            assert_eq!(t.recipient, felt(0xB));
            assert_eq!(t.token_id, Uint256 { low: 7, high: 1 });
            assert_eq!(t.contract_address, felt(0xC1));
            assert_eq!(t.block_number, 50);
        }
        other => panic!("unexpected {:?}", other),
    }
    assert!(matches!(classify_event(&ev, false), ClassifiedEvent::Ignored));
    let short = raw(transfer_key(), vec![0xA, 0xB, 9]);
    match classify_event(&short, true) {
        ClassifiedEvent::Erc721(t) => assert_eq!(t.token_id, u256(9)),
        other => panic!("unexpected {:?}", other),
    }
    assert!(matches!(classify_event(&raw(transfer_key(), vec![0xA, 0xB]), true), ClassifiedEvent::Malformed));
}

#[test]
fn classify_erc1155_events() {
    let single = raw(transfer_single_key(), vec![0x0, 0xA, 0xB, 3, 0, 8, 0]);
    assert!(!needs_erc721_probe(&single));
    match classify_event(&single, false) {
        ClassifiedEvent::Erc1155(t) => {
            assert_eq!(t.sender, felt(0xA));
            assert_eq!(t.recipient, felt(0xB));
            assert_eq!(t.token_ids, vec![u256(3)]);
            assert_eq!(t.amounts, vec![u256(8)]);
        }
        other => panic!("unexpected {:?}", other),
    }
    let batch = raw(transfer_batch_key(), vec![0x0, 0xA, 0xB, 2, 1, 0, 2, 0, 2, 5, 0, 3, 0]);
    match classify_event(&batch, false) {
        ClassifiedEvent::Erc1155(t) => {
            assert_eq!(t.token_ids, vec![u256(1), u256(2)]);
            assert_eq!(t.amounts, vec![u256(5), u256(3)]);
        }
        other => panic!("unexpected {:?}", other),
    }
    let mismatch = raw(transfer_batch_key(), vec![0x0, 0xA, 0xB, 2, 1, 0, 2, 0, 1, 5, 0]);
    assert!(matches!(classify_event(&mismatch, false), ClassifiedEvent::Malformed));
    let unknown = raw(felt(0x1234), vec![1, 2, 3]);
    assert!(matches!(classify_event(&unknown, true), ClassifiedEvent::Ignored));
}

fn page(blocks: Vec<u64>, cursor: Option<&str>) -> EventsPage {
    EventsPage {
        events: blocks
            .into_iter()
            .map(|b| RawEvent { from_address: felt(1), keys: vec![], data: vec![], block_number: b, log_index: 0 })
            .collect(),
        continuation_token: cursor.map(|c| c.to_string()),
    }
}

#[test]
fn paging_keeps_every_event_in_order() {
    let mut f = TransferFetch::new();
    assert!(matches!(f.absorb(Ok(page(vec![1, 2], Some("c1")))), FetchStep::Next(c) if c == "c1"));
    assert!(matches!(f.absorb(Ok(page(vec![], Some("c2")))), FetchStep::Next(c) if c == "c2"));
    assert!(matches!(f.absorb(Ok(page(vec![3], None))), FetchStep::Complete));
    let many: Vec<u64> = f.finish().unwrap().iter().map(|e| e.block_number).collect();

    let mut one = TransferFetch::new();
    assert!(matches!(one.absorb(Ok(page(vec![1, 2, 3], None))), FetchStep::Complete));
    let single: Vec<u64> = one.finish().unwrap().iter().map(|e| e.block_number).collect();
    assert_eq!(many, vec![1, 2, 3]);
    assert_eq!(many, single);
}

#[test]
fn failed_page_fails_the_range() {
    let mut f = TransferFetch::new();
    f.absorb(Ok(page(vec![1], Some("c"))));
    assert!(matches!(f.absorb(Err(TransportError)), FetchStep::Incomplete));
    assert_eq!(f.finish().unwrap_err(), FetchError::FetchIncomplete);
}

#[test]
fn filter_covers_the_range() {
    let f = transfer_filter(100, 50).unwrap();
    assert_eq!(f.from_block, 100);
    assert_eq!(f.to_block, 150);
    assert_eq!(f.keys, vec![transfer_key(), transfer_single_key(), transfer_batch_key()]);
    assert_eq!(transfer_filter(u64::MAX, 1).unwrap_err(), FetchError::RangeOverflow);
}

#[test]
fn short_string_scalars() {
    assert_eq!(felt(0x455243).to_ascii(), "ERC");
    assert_eq!(felt(0).to_ascii(), "");
    assert_eq!(felt(0xff).to_ascii(), "");
    let bytes = Felt { high: 1, low: 2 }.to_bytes_be();
    assert_eq!(bytes.len(), 32);
    assert_eq!(bytes[15], 1);
    assert_eq!(bytes[31], 2);
    assert_eq!(text_of_call_result(&vec![felt(0x4142), felt(0x43)]), "AB");
    assert_eq!(text_of_call_result(&vec![]), "");
}

#[test]
fn erc721_capability_from_abi() {
    assert!(is_erc721_abi(&vec!["name".to_string(), "ownerOf".to_string()]));
    assert!(is_erc721_abi(&vec!["owner_of".to_string()]));
    assert!(!is_erc721_abi(&vec!["balanceOf".to_string(), "owner".to_string()]));
}

#[test]
fn uri_kinds() {
    assert!(matches!(metadata_type("https://x.io/1.json"), MetadataType::Http("https://x.io/1.json")));
    assert!(matches!(metadata_type("http://x.io/1"), MetadataType::Http("http://x.io/1")));
    assert!(matches!(metadata_type("ipfs://Qm123/1"), MetadataType::Ipfs("Qm123/1")));
    assert!(matches!(metadata_type("data:application/json,{}"), MetadataType::OnChain("{}")));
    assert!(matches!(metadata_type(""), MetadataType::OnChain("")));
    assert!(matches!(metadata_type("{\"name\":\"x\"}"), MetadataType::OnChain("{\"name\":\"x\"}")));
}

#[test]
fn base64_payloads_decode() {
    assert_eq!(decode_base64(b"eyJhIjoxfQ==").unwrap(), b"{\"a\":1}".to_vec());
    assert_eq!(decode_base64(b"TWFu").unwrap(), b"Man".to_vec());
    assert_eq!(decode_base64(b"TWE=").unwrap(), b"Ma".to_vec());
    assert_eq!(decode_base64(b"").unwrap(), Vec::<u8>::new());
    assert!(decode_base64(b"TWE").is_none());
    assert!(decode_base64(b"TW=a").is_none());
    assert!(decode_base64(b"TQ==TWFu").is_none());
    assert!(decode_base64(b"T!Fu").is_none());
    assert!(is_base64_data_uri("data:application/json;base64,eyJhIjoxfQ=="));
    assert!(!is_base64_data_uri("data:application/json,{}"));
    assert!(!is_base64_data_uri("https://x/;base64,"));
}

fn s(v: &str) -> JsonValue {
    JsonValue::Str(v.to_string())
}

fn field(k: &str, v: JsonValue) -> JsonField {
    JsonField { key: k.to_string(), value: v }
}

#[test]
fn attribute_value_probe_order() {
    assert_eq!(attribute_value_of(&s("red")), Some(AttributeValue::String("red".to_string())));
    assert_eq!(
        attribute_value_of(&JsonValue::Number("4.5".to_string())),
        Some(AttributeValue::Number("4.5".to_string()))
    );
    assert_eq!(attribute_value_of(&JsonValue::Bool(true)), Some(AttributeValue::Bool(true)));
    assert_eq!(attribute_value_of(&JsonValue::Array(vec![])), Some(AttributeValue::StringVec(vec![])));
    assert_eq!(
        attribute_value_of(&JsonValue::Array(vec![JsonValue::Bool(true), JsonValue::Bool(false)])),
        Some(AttributeValue::BoolVec(vec![true, false]))
    );
    assert_eq!(
        attribute_value_of(&JsonValue::Array(vec![JsonValue::Number("1".to_string())])),
        Some(AttributeValue::NumberVec(vec!["1".to_string()]))
    );
    assert_eq!(attribute_value_of(&JsonValue::Array(vec![s("a"), JsonValue::Bool(true)])), None);
    assert_eq!(attribute_value_of(&JsonValue::Null), None);
}

#[test]
fn metadata_document_is_read() {
    let doc = JsonValue::Object(vec![
        field("name", s("Cat")),
        field("image", s("ipfs://img")),
        field("description", JsonValue::Number("3".to_string())),
        field(
            "attributes",
            JsonValue::Array(vec![
                JsonValue::Object(vec![
                    field("trait_type", s("eyes")),
                    field("value", s("blue")),
                    field("display_type", s("Number")),
                ]),
                JsonValue::Object(vec![field("value", JsonValue::Array(vec![s("a"), JsonValue::Bool(true)]))]),
                JsonValue::Object(vec![field("value", JsonValue::Bool(false))]),
            ]),
        ),
    ]);
    let m = token_metadata_from_json(&doc).unwrap();
    assert_eq!(m.name.as_deref(), Some("Cat"));
    assert_eq!(m.image.as_deref(), Some("ipfs://img"));
    assert!(m.description.is_none());
    let attrs = m.attributes.unwrap();
    assert_eq!(attrs.len(), 2);
    assert_eq!(attrs[0].trait_type.as_deref(), Some("eyes"));
    assert_eq!(attrs[0].display_type, Some(DisplayType::Number));
    assert_eq!(attrs[0].value, AttributeValue::String("blue".to_string()));
    assert_eq!(attrs[1].value, AttributeValue::Bool(false));
}

#[test]
fn metadata_resolution_never_fails() {
    assert!(is_empty(&resolve_token_metadata(None)));
    assert!(is_empty(&resolve_token_metadata(Some(s("not an object")))));
    assert!(is_empty(&resolve_token_metadata(Some(JsonValue::Object(vec![])))));
    let m = resolve_token_metadata(Some(JsonValue::Object(vec![field("youtube_url", s("y"))])));
    assert_eq!(m.youtube_url.as_deref(), Some("y"));
    assert!(is_empty(&TokenMetadata::default()));
}

#[test]
fn checkpoint_defaults_and_advances() {
    let mut c = IndexerMetadata::default();
    assert_eq!(c.last_sync(), 1630);
    c.advance(2000);
    assert_eq!(c.last_sync(), 2000);
    c.advance(1500);
    assert_eq!(c.last_sync(), 2000);
    assert_eq!(IndexerMetadata::new(7).last_sync(), 7);
}
