//! Indexes single-owner (ERC721) and multi-owner (ERC1155) token ownership and
//! metadata from ledger transfer events into store records.

pub mod felt;
pub mod uint256;
pub mod document;
pub mod contract_cache;
pub mod erc721;
pub mod erc1155;
pub mod events;
pub mod fetcher;
pub mod metadata;
pub mod chain;
pub mod base64;
