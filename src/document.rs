//! The records kept in the document store.
use vstd::prelude::*;
use crate::felt::Felt;
use crate::uint256::Uint256;

verus! {

/// One entry of a token's ownership history.
#[derive(Clone, Copy, Debug, PartialEq, Eq, Structural)]
pub struct AddressAtBlock {
    pub address: Felt,
    pub block: u64,
}

/// Name and symbol of a token contract, recorded on its first mint.
#[derive(Clone, Debug)]
pub struct ContractMetadata {
    pub id: Felt,
    pub name: String,
    pub symbol: String,
    pub last_updated: u64,
}

impl ContractMetadata {
    pub fn new(contract_address: Felt, name: String, symbol: String, last_updated: u64) -> (r: Self)
        ensures
            r.id == contract_address,
            r.name@ == name@,
            r.symbol@ == symbol@,
            r.last_updated == last_updated,
    {
        ContractMetadata { id: contract_address, name, symbol, last_updated }
    }
}

/// Key of a single-owner token: contract and token id.
#[derive(Clone, Copy, Debug, PartialEq, Eq, Structural)]
pub struct Erc721Id {
    pub contract_address: Felt,
    pub token_id: Uint256,
}

impl Erc721Id {
    pub fn new(contract_address: Felt, token_id: Uint256) -> (r: Self)
        ensures
            r.contract_address == contract_address,
            r.token_id == token_id,
    {
        Erc721Id { contract_address, token_id }
    }
}

/// A single-owner token with its ownership history.
#[derive(Clone, Debug)]
pub struct Erc721 {
    pub erc721id: Erc721Id,
    pub owner: Felt,
    pub previous_owners: Vec<AddressAtBlock>,
    pub token_uri: String,
    pub metadata: TokenMetadata,
    pub last_updated: u64,
    /// Place in its block's log of the event that last changed the token.
    pub log_index: u64,
}

impl Erc721 {
    /// A freshly minted token: no history yet.
    pub fn new(
        contract_address: Felt,
        token_id: Uint256,
        owner: Felt,
        token_uri: String,
        metadata: TokenMetadata,
        last_updated: u64,
        log_index: u64,
    ) -> (r: Self)
        ensures
            r.erc721id.contract_address == contract_address,
            r.erc721id.token_id == token_id,
            r.owner == owner,
            r.previous_owners@ == Seq::<AddressAtBlock>::empty(),
            r.token_uri@ == token_uri@,
            r.metadata == metadata,
            r.last_updated == last_updated,
            r.log_index == log_index,
    {
        Erc721 {
            erc721id: Erc721Id::new(contract_address, token_id),
            owner,
            previous_owners: Vec::new(),
            token_uri,
            metadata,
            last_updated,
            log_index,
        }
    }

    /// Hands the token to `new_owner` at log position (`block`, `log_index`) (the zero address burns it);
    /// the owner before the change is appended to the history with the block
    /// at which it took the token.
    pub fn change_owner(&mut self, new_owner: Felt, block: u64, log_index: u64)
        ensures
            final(self).log_index == log_index,
            final(self).previous_owners@ == old(self).previous_owners@.push(
                AddressAtBlock { address: old(self).owner, block: old(self).last_updated },
            ),
            final(self).owner == new_owner,
            final(self).last_updated == block,
            final(self).erc721id == old(self).erc721id,
            final(self).token_uri == old(self).token_uri,
            final(self).metadata == old(self).metadata,
    {
        let entry = AddressAtBlock { address: self.owner, block: self.last_updated };
        self.previous_owners.push(entry);
        self.owner = new_owner;
        self.last_updated = block;
        self.log_index = log_index;
    }
}

/// The metadata of a multi-owner token id, one record per (contract, id).
#[derive(Clone, Debug)]
pub struct Erc1155Metadata {
    pub contract_address: Felt,
    pub token_id: Uint256,
    pub token_uri: String,
    pub metadata: TokenMetadata,
    pub last_updated: u64,
}

impl Erc1155Metadata {
    pub fn new(
        contract_address: Felt,
        token_id: Uint256,
        token_uri: String,
        metadata: TokenMetadata,
        last_updated: u64,
    ) -> (r: Self)
        ensures
            r.contract_address == contract_address,
            r.token_id == token_id,
            r.token_uri@ == token_uri@,
            r.metadata == metadata,
            r.last_updated == last_updated,
    {
        Erc1155Metadata { contract_address, token_id, token_uri, metadata, last_updated }
    }
}

/// What one owner holds of one multi-owner token id.
#[derive(Clone, Copy, Debug, PartialEq, Eq, Structural)]
pub struct Erc1155Balance {
    pub contract_address: Felt,
    pub token_id: Uint256,
    pub owner: Felt,
    pub balance: Uint256,
    pub last_updated: u64,
    /// Place in its block's log of the event that last changed the balance.
    pub log_index: u64,
}

impl Erc1155Balance {
    pub fn new(
        contract_address: Felt,
        token_id: Uint256,
        owner: Felt,
        balance: Uint256,
        last_updated: u64,
        log_index: u64,
    ) -> (r: Self)
        ensures
            r.contract_address == contract_address,
            r.token_id == token_id,
            r.owner == owner,
            r.balance == balance,
            r.last_updated == last_updated,
            r.log_index == log_index,
    {
        Erc1155Balance { contract_address, token_id, owner, balance, last_updated, log_index }
    }

    pub fn balance(&self) -> (r: Uint256)
        ensures
            r == self.balance,
    {
        self.balance
    }
}

/// Where a token URI's document lives.
#[derive(Debug)]
pub enum MetadataType<'a> {
    /// A web URL, as given.
    Http(&'a str),
    /// A content-addressed path (what follows the `ipfs://` scheme).
    Ipfs(&'a str),
    /// A document carried on chain (a data URI or the document itself).
    OnChain(&'a str),
}

/// How a numeric attribute is meant to be shown.
#[derive(Clone, Copy, Debug, PartialEq, Eq, Structural)]
pub enum DisplayType {
    Number,
    BoostPercentage,
    BoostNumber,
    Date,
}

/// An attribute's value; numbers are kept as their literal text.
#[derive(Clone, Debug, PartialEq, Eq)]
pub enum AttributeValue {
    String(String),
    Number(String),
    Bool(bool),
    StringVec(Vec<String>),
    NumberVec(Vec<String>),
    BoolVec(Vec<bool>),
}

#[derive(Clone, Debug)]
pub struct Attribute {
    pub display_type: Option<DisplayType>,
    pub trait_type: Option<String>,
    pub value: AttributeValue,
}

/// The off-chain description of a token.
#[derive(Clone, Debug)]
pub struct TokenMetadata {
    pub image: Option<String>,
    pub image_data: Option<String>,
    pub external_url: Option<String>,
    pub description: Option<String>,
    pub name: Option<String>,
    pub attributes: Option<Vec<Attribute>>,
    pub background_color: Option<String>,
    pub animation_url: Option<String>,
    pub youtube_url: Option<String>,
}

impl TokenMetadata {
    /// Every field absent.
    pub open spec fn spec_is_empty(self) -> bool {
        &&& self.image is None
        &&& self.image_data is None
        &&& self.external_url is None
        &&& self.description is None
        &&& self.name is None
        &&& self.attributes is None
        &&& self.background_color is None
        &&& self.animation_url is None
        &&& self.youtube_url is None
    }

    pub fn empty() -> (r: Self)
        ensures
            r.spec_is_empty(),
    {
        TokenMetadata {
            image: None,
            image_data: None,
            external_url: None,
            description: None,
            name: None,
            attributes: None,
            background_color: None,
            animation_url: None,
            youtube_url: None,
        }
    }
}

impl Default for TokenMetadata {
    fn default() -> (r: Self)
        ensures
            r.spec_is_empty(),
    {
        TokenMetadata::empty()
    }
}

/// Block from which indexing starts when nothing has been synced yet.
pub const FIRST_SYNC_BLOCK: u64 = 1630;

/// The sync checkpoint: the last block whose events are all committed.
#[derive(Clone, Copy, Debug, PartialEq, Eq, Structural)]
pub struct IndexerMetadata {
    pub last_sync: u64,
}

impl IndexerMetadata {
    pub fn new(last_sync: u64) -> (r: Self)
        ensures
            r.last_sync == last_sync,
    {
        IndexerMetadata { last_sync }
    }

    pub fn last_sync(&self) -> (r: u64)
        ensures
            r == self.last_sync,
    {
        self.last_sync
    }

    /// Records that every block up to `block` is committed; the checkpoint
    /// never moves backwards.
    pub fn advance(&mut self, block: u64)
        ensures
            final(self).last_sync == if block > old(self).last_sync {
                block
            } else {
                old(self).last_sync
            },
    {
        if block > self.last_sync {
            self.last_sync = block;
        }
    }
}

impl Default for IndexerMetadata {
    fn default() -> (r: Self)
        ensures
            r.last_sync == FIRST_SYNC_BLOCK,
    {
        IndexerMetadata { last_sync: FIRST_SYNC_BLOCK }
    }
}

} // verus!
