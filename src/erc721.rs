//! Mint, burn and transfer of single-owner tokens.
use vstd::prelude::*;
use crate::document::{AddressAtBlock, ContractMetadata, Erc721, TokenMetadata};
use crate::felt::Felt;
use crate::uint256::Uint256;

verus! {

/// A transfer of a single-owner token, as read from its event.
#[derive(Clone, Copy, Debug, PartialEq, Eq, Structural)]
pub struct Erc721Transfer {
    pub contract_address: Felt,
    pub block_number: u64,
    /// Place of the event among the events of its block.
    pub log_index: u64,
    pub sender: Felt,
    pub recipient: Felt,
    pub token_id: Uint256,
}

#[derive(Clone, Copy, Debug, PartialEq, Eq, Structural)]
pub enum Erc721Transition {
    Mint,
    Burn,
    Transfer,
}

/// Why an event was skipped.
#[derive(Clone, Copy, Debug, PartialEq, Eq, Structural)]
pub enum HandlerError {
    /// A burn or transfer of a token with no record (never minted here).
    MissingToken,
    /// A balance would leave the 256-bit range.
    BalanceOverflow,
    /// A batch whose id and amount lists differ in length.
    LengthMismatch,
}

pub open spec fn spec_transition(sender: Felt, recipient: Felt) -> Erc721Transition {
    if sender.spec_is_zero() {
        Erc721Transition::Mint
    } else if recipient.spec_is_zero() {
        Erc721Transition::Burn
    } else {
        Erc721Transition::Transfer
    }
}

/// From the zero address: a mint; to it: a burn; otherwise a transfer.
pub fn transition_of(sender: Felt, recipient: Felt) -> (r: Erc721Transition)
    ensures
        r == spec_transition(sender, recipient),
{
    if sender.is_zero() {
        Erc721Transition::Mint
    } else if recipient.is_zero() {
        Erc721Transition::Burn
    } else {
        Erc721Transition::Transfer
    }
}

/// The metadata to store: what was resolved, or the empty document.
pub open spec fn metadata_or_empty(m: Option<TokenMetadata>, r: TokenMetadata) -> bool {
    match m {
        Some(x) => r == x,
        None => r.spec_is_empty(),
    }
}

/// Whether `t` already shows `event` applied: the token was last changed at
/// the event's place in the log or later. Events reach a token in log order,
/// so such an event is a replay.
pub open spec fn already_applied(t: Erc721, event: Erc721Transfer) -> bool {
    t.last_updated > event.block_number || (t.last_updated == event.block_number && t.log_index
        >= event.log_index)
}

fn is_applied(t: &Erc721, event: &Erc721Transfer) -> (r: bool)
    ensures
        r == already_applied(*t, *event),
{
    t.last_updated > event.block_number || (t.last_updated == event.block_number && t.log_index
        >= event.log_index)
}

/// Whether the mint of `event` still has to be applied to the stored token,
/// so that its URI and metadata are needed.
pub fn mint_applies(event: &Erc721Transfer, existing: &Option<Erc721>) -> (r: bool)
    ensures
        r == (spec_transition(event.sender, event.recipient) == Erc721Transition::Mint && match *existing {
            None => true,
            Some(t) => !already_applied(t, *event),
        }),
{
    if transition_of(event.sender, event.recipient) != Erc721Transition::Mint {
        return false;
    }
    match existing {
        None => true,
        Some(t) => !is_applied(t, event),
    }
}

/// What handling an event writes: the token record, and on a first mint of
/// a contract without metadata, the contract's metadata record.
#[derive(Clone, Debug)]
pub struct Erc721Writes {
    pub token: Erc721,
    pub contract_metadata: Option<ContractMetadata>,
}

/// Whether handling `event` needs the contract's name and symbol: a mint to
/// apply, of a contract without metadata.
pub fn needs_contract_metadata(event: &Erc721Transfer, existing: &Option<Erc721>, contract_known: bool) -> (r: bool)
    ensures
        r == (spec_transition(event.sender, event.recipient) == Erc721Transition::Mint && match *existing {
            None => true,
            Some(t) => !already_applied(t, *event),
        } && !contract_known),
{
    mint_applies(event, existing) && !contract_known
}

/// The writes of a newly minted token; `metadata` is `None` when it could not
/// be resolved. `contract_known` says whether the contract already has its
/// metadata record: then it is left alone (first writer wins) and `name` and
/// `symbol` are not read; otherwise the record is made from them.
pub fn handle_mint(
    event: &Erc721Transfer,
    token_uri: String,
    metadata: Option<TokenMetadata>,
    contract_known: bool,
    name: String,
    symbol: String,
) -> (r: Erc721Writes)
    ensures
        r.token.erc721id.contract_address == event.contract_address,
        r.token.erc721id.token_id == event.token_id,
        r.token.owner == event.recipient,
        r.token.previous_owners@ == Seq::<AddressAtBlock>::empty(),
        r.token.token_uri@ == token_uri@,
        metadata_or_empty(metadata, r.token.metadata),
        r.token.last_updated == event.block_number,
        r.token.log_index == event.log_index,
        contract_known ==> r.contract_metadata is None,
        !contract_known ==> (r.contract_metadata matches Some(c) && {
            &&& c.id == event.contract_address
            &&& c.name@ == name@
            &&& c.symbol@ == symbol@
            &&& c.last_updated == event.block_number
        }),
{
    let m = match metadata {
        Some(m) => m,
        None => TokenMetadata::empty(),
    };
    let token = Erc721::new(event.contract_address, event.token_id, event.recipient, token_uri, m, event.block_number, event.log_index);
    let contract_metadata = if contract_known {
        None
    } else {
        Some(ContractMetadata::new(event.contract_address, name, symbol, event.block_number))
    };
    Erc721Writes { token, contract_metadata }
}

/// The token leaves circulation: its owner becomes the zero address and the
/// last live holder joins the history, with the block at which it took the
/// token. A burn already applied leaves the token as it is.
pub fn handle_burn(token: &mut Erc721, event: &Erc721Transfer)
    requires
        event.recipient.spec_is_zero(),
    ensures
        already_applied(*old(token), *event) ==> *final(token) == *old(token),
        !already_applied(*old(token), *event) ==> {
            &&& final(token).owner.spec_is_zero()
            &&& final(token).previous_owners@ == old(token).previous_owners@.push(
                AddressAtBlock { address: old(token).owner, block: old(token).last_updated },
            )
            &&& final(token).last_updated == event.block_number
            &&& final(token).log_index == event.log_index
            &&& final(token).erc721id == old(token).erc721id
            &&& final(token).token_uri == old(token).token_uri
            &&& final(token).metadata == old(token).metadata
        },
{
    if !is_applied(token, event) {
        token.change_owner(Felt::zero(), event.block_number, event.log_index);
    }
}

/// The token passes to the recipient; the owner before joins the history,
/// with the block at which it took the token. A transfer already applied
/// leaves the token as it is.
pub fn handle_transfer(token: &mut Erc721, event: &Erc721Transfer)
    ensures
        already_applied(*old(token), *event) ==> *final(token) == *old(token),
        !already_applied(*old(token), *event) ==> {
            &&& final(token).owner == event.recipient
            &&& final(token).previous_owners@ == old(token).previous_owners@.push(
                AddressAtBlock { address: old(token).owner, block: old(token).last_updated },
            )
            &&& final(token).last_updated == event.block_number
            &&& final(token).log_index == event.log_index
            &&& final(token).erc721id == old(token).erc721id
            &&& final(token).token_uri == old(token).token_uri
            &&& final(token).metadata == old(token).metadata
        },
{
    if !is_applied(token, event) {
        token.change_owner(event.recipient, event.block_number, event.log_index);
    }
}

/// Applies one transfer event to the token's stored record, if any, and says
/// what to write. A mint of a token with no record builds it as
/// `handle_mint` does (only a mint reads `token_uri`, `metadata`,
/// `contract_known`, `name` and `symbol`), and so does a mint of a token whose
/// record predates the event (a token minted again after a burn); a mint the
/// record already shows is a replay and changes nothing. A burn or transfer of a token with
/// no record is skipped with `MissingToken`; one already applied changes
/// nothing.
pub fn run(
    event: &Erc721Transfer,
    existing: Option<Erc721>,
    token_uri: String,
    metadata: Option<TokenMetadata>,
    contract_known: bool,
    name: String,
    symbol: String,
) -> (r: Result<Erc721Writes, HandlerError>)
    ensures
        spec_transition(event.sender, event.recipient) == Erc721Transition::Mint && (existing matches Some(t)
            && already_applied(t, *event)) ==> (r matches Ok(w) && w.token == existing->0
            && w.contract_metadata is None),
        spec_transition(event.sender, event.recipient) == Erc721Transition::Mint && !(existing matches Some(t)
            && already_applied(t, *event)) ==> {
                &&& r is Ok
                &&& r->Ok_0.token.owner == event.recipient
                &&& r->Ok_0.token.previous_owners@ == Seq::<AddressAtBlock>::empty()
                &&& r->Ok_0.token.erc721id.contract_address == event.contract_address
                &&& r->Ok_0.token.erc721id.token_id == event.token_id
                &&& r->Ok_0.token.token_uri@ == token_uri@
                &&& metadata_or_empty(metadata, r->Ok_0.token.metadata)
                &&& r->Ok_0.token.last_updated == event.block_number
                &&& r->Ok_0.token.log_index == event.log_index
                &&& contract_known ==> r->Ok_0.contract_metadata is None
                &&& !contract_known ==> (r->Ok_0.contract_metadata matches Some(c) && {
                    &&& c.id == event.contract_address
                    &&& c.name@ == name@
                    &&& c.symbol@ == symbol@
                    &&& c.last_updated == event.block_number
                })
        },
        spec_transition(event.sender, event.recipient) != Erc721Transition::Mint ==> match existing {
            None => r is Err && r->Err_0 == HandlerError::MissingToken,
            Some(t) => {
                &&& r is Ok
                &&& r->Ok_0.contract_metadata is None
                &&& already_applied(t, *event) ==> r->Ok_0.token == t
                &&& !already_applied(t, *event) ==> {
                    &&& r->Ok_0.token.owner == event.recipient
                    &&& r->Ok_0.token.previous_owners@ == t.previous_owners@.push(
                        AddressAtBlock { address: t.owner, block: t.last_updated },
                    )
                    &&& r->Ok_0.token.last_updated == event.block_number
                    &&& r->Ok_0.token.log_index == event.log_index
                    &&& r->Ok_0.token.erc721id == t.erc721id
                    &&& r->Ok_0.token.token_uri == t.token_uri
                    &&& r->Ok_0.token.metadata == t.metadata
                }
            },
        },
{
    match transition_of(event.sender, event.recipient) {
        Erc721Transition::Mint => match existing {
            Some(t) => {
                if is_applied(&t, event) {
                    Ok(Erc721Writes { token: t, contract_metadata: None })
                } else {
                    Ok(handle_mint(event, token_uri, metadata, contract_known, name, symbol))
                }
            },
            None => Ok(handle_mint(event, token_uri, metadata, contract_known, name, symbol)),
        },
        Erc721Transition::Burn => match existing {
            Some(mut t) => {
                handle_burn(&mut t, event);
                Ok(Erc721Writes { token: t, contract_metadata: None })
            },
            None => Err(HandlerError::MissingToken),
        },
        Erc721Transition::Transfer => match existing {
            Some(mut t) => {
                handle_transfer(&mut t, event);
                Ok(Erc721Writes { token: t, contract_metadata: None })
            },
            None => Err(HandlerError::MissingToken),
        },
    }
}

} // verus!
