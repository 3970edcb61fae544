//! Balance changes of multi-owner tokens.
use vstd::prelude::*;
use crate::document::{Erc1155Balance, Erc1155Metadata, TokenMetadata};
use crate::erc721::{HandlerError, metadata_or_empty};
use crate::felt::Felt;
use crate::uint256::{Uint256, max_uint256, uint256_of, lemma_uint256_of_value, lemma_uint256_of_range, lemma_uint256_range};

verus! {

/// A single or batched transfer of multi-owner tokens: `amounts[i]` of
/// `token_ids[i]` for each `i`. `(block_number, log_index)` is the event's
/// place in the ledger's log.
#[derive(Clone, Debug)]
pub struct Erc1155Transfer {
    pub contract_address: Felt,
    pub block_number: u64,
    pub log_index: u64,
    pub sender: Felt,
    pub recipient: Felt,
    pub token_ids: Vec<Uint256>,
    pub amounts: Vec<Uint256>,
}

/// Balance records staged for one event. Later entries replace earlier ones
/// with the same (contract, token id, owner); a key with no entry holds zero.
#[derive(Clone, Debug)]
pub struct BalanceBook {
    pub entries: Vec<Erc1155Balance>,
}

pub open spec fn same_key(r: Erc1155Balance, contract: Felt, id: Uint256, owner: Felt) -> bool {
    r.contract_address == contract && r.token_id == id && r.owner == owner
}

/// The entry that `s` holds for the key: its last one.
pub open spec fn last_entry(s: Seq<Erc1155Balance>, contract: Felt, id: Uint256, owner: Felt) -> Option<Erc1155Balance>
    decreases s.len(),
{
    if s.len() == 0 {
        None
    } else if same_key(s.last(), contract, id, owner) {
        Some(s.last())
    } else {
        last_entry(s.drop_last(), contract, id, owner)
    }
}

/// The balance that `s` records for the key: its last entry's, or zero.
pub open spec fn balance_in(s: Seq<Erc1155Balance>, contract: Felt, id: Uint256, owner: Felt) -> int {
    match last_entry(s, contract, id, owner) {
        Some(e) => e.balance.value(),
        None => 0,
    }
}

/// Whether the key's balance in `s0` predates the event `t` in the log, so
/// that `t` has yet to change it. A key that `t` (or a later event) already
/// changed is left alone: replaying an event changes no balance.
pub open spec fn fresh(s0: Seq<Erc1155Balance>, owner: Felt, id: Uint256, t: Erc1155Transfer) -> bool {
    match last_entry(s0, t.contract_address, id, owner) {
        None => true,
        Some(e) => e.last_updated < t.block_number || (e.last_updated == t.block_number && e.log_index
            < t.log_index),
    }
}

/// What is left after taking `amount` from `balance`, never below zero.
pub open spec fn debited(balance: int, amount: int) -> int {
    if balance >= amount {
        balance - amount
    } else {
        0
    }
}

pub open spec fn takes_debit(s0: Seq<Erc1155Balance>, t: Erc1155Transfer, id: Uint256) -> bool {
    !t.sender.spec_is_zero() && fresh(s0, t.sender, id, t)
}

pub open spec fn takes_credit(s0: Seq<Erc1155Balance>, t: Erc1155Transfer, id: Uint256) -> bool {
    !t.recipient.spec_is_zero() && fresh(s0, t.recipient, id, t)
}

/// The entries after the sender gives and the recipient gets `amount` of
/// `id`, each only where its balance in `s0` (the book before the event) is
/// fresh and it is not the zero address; `None` when the recipient's balance
/// would overflow.
pub open spec fn apply_pair(
    s0: Seq<Erc1155Balance>,
    s: Seq<Erc1155Balance>,
    t: Erc1155Transfer,
    id: Uint256,
    amount: Uint256,
) -> Option<Seq<Erc1155Balance>> {
    let s1 = if takes_debit(s0, t, id) {
        s.push(Erc1155Balance {
            contract_address: t.contract_address,
            token_id: id,
            owner: t.sender,
            balance: uint256_of(debited(balance_in(s, t.contract_address, id, t.sender), amount.value())),
            last_updated: t.block_number,
            log_index: t.log_index,
        })
    } else {
        s
    };
    if !takes_credit(s0, t, id) {
        Some(s1)
    } else if balance_in(s1, t.contract_address, id, t.recipient) + amount.value() > max_uint256() {
        None
    } else {
        Some(s1.push(Erc1155Balance {
            contract_address: t.contract_address,
            token_id: id,
            owner: t.recipient,
            balance: uint256_of(balance_in(s1, t.contract_address, id, t.recipient) + amount.value()),
            last_updated: t.block_number,
            log_index: t.log_index,
        }))
    }
}

/// The entries after the first `n` pairs of the transfer, in order, starting
/// from the book `s0`.
pub open spec fn apply_pairs(s0: Seq<Erc1155Balance>, t: Erc1155Transfer, n: nat) -> Option<Seq<Erc1155Balance>>
    decreases n,
{
    if n == 0 {
        Some(s0)
    } else {
        match apply_pairs(s0, t, (n - 1) as nat) {
            None => None,
            Some(s1) => apply_pair(s0, s1, t, t.token_ids@[n - 1], t.amounts@[n - 1]),
        }
    }
}

proof fn lemma_entry_push(s: Seq<Erc1155Balance>, r: Erc1155Balance, contract: Felt, id: Uint256, owner: Felt)
    ensures
        last_entry(s.push(r), contract, id, owner) == if same_key(r, contract, id, owner) {
            Some(r)
        } else {
            last_entry(s, contract, id, owner)
        },
{
    assert(s.push(r).drop_last() =~= s);
}

/// What one pair does to balances: the sender loses `amount`, never going
/// below zero, then the recipient gains it, each only where the event has yet
/// to change that balance and it is not the zero address; every other key
/// keeps its balance.
pub proof fn lemma_pair_balances(
    s0: Seq<Erc1155Balance>,
    s: Seq<Erc1155Balance>,
    t: Erc1155Transfer,
    id: Uint256,
    amount: Uint256,
    owner: Felt,
    other_id: Uint256,
)
    requires
        apply_pair(s0, s, t, id, amount) is Some,
    ensures
        ({
            let after = apply_pair(s0, s, t, id, amount)->0;
            let mid = if takes_debit(s0, t, id) && owner == t.sender {
                debited(balance_in(s, t.contract_address, id, owner), amount.value())
            } else {
                balance_in(s, t.contract_address, id, owner)
            };
            &&& balance_in(after, t.contract_address, id, owner) == if takes_credit(s0, t, id)
                && owner == t.recipient {
                mid + amount.value()
            } else {
                mid
            }
            &&& other_id != id ==> balance_in(after, t.contract_address, other_id, owner)
                == balance_in(s, t.contract_address, other_id, owner)
        }),
{
    let b0 = balance_in(s, t.contract_address, id, t.sender);
    let s1 = if takes_debit(s0, t, id) {
        let r = Erc1155Balance {
            contract_address: t.contract_address,
            token_id: id,
            owner: t.sender,
            balance: uint256_of(debited(b0, amount.value())),
            last_updated: t.block_number,
            log_index: t.log_index,
        };
        lemma_entry_push(s, r, t.contract_address, id, owner);
        lemma_entry_push(s, r, t.contract_address, other_id, owner);
        lemma_balance_in_range(s, t.contract_address, id, t.sender);
        lemma_uint256_range(amount);
        lemma_uint256_of_range(debited(b0, amount.value()));
        s.push(r)
    } else {
        s
    };
    if takes_credit(s0, t, id) {
        let v = balance_in(s1, t.contract_address, id, t.recipient) + amount.value();
        let r = Erc1155Balance {
            contract_address: t.contract_address,
            token_id: id,
            owner: t.recipient,
            balance: uint256_of(v),
            last_updated: t.block_number,
            log_index: t.log_index,
        };
        lemma_balance_in_range(s1, t.contract_address, id, t.recipient);
        lemma_uint256_of_range(v);
        lemma_entry_push(s1, r, t.contract_address, id, owner);
        lemma_entry_push(s1, r, t.contract_address, other_id, owner);
    }
}

/// Every recorded balance lies in the 256-bit range.
pub proof fn lemma_balance_in_range(s: Seq<Erc1155Balance>, contract: Felt, id: Uint256, owner: Felt)
    ensures
        0 <= balance_in(s, contract, id, owner) <= max_uint256(),
    decreases s.len(),
{
    if s.len() > 0 {
        lemma_uint256_range(s.last().balance);
        lemma_balance_in_range(s.drop_last(), contract, id, owner);
    }
}

impl BalanceBook {
    pub fn new(entries: Vec<Erc1155Balance>) -> (r: Self)
        ensures
            r.entries@ == entries@,
    {
        BalanceBook { entries }
    }

    /// The last entry for the key among the first `end` entries.
    fn entry_before(&self, contract: Felt, id: Uint256, owner: Felt, end: usize) -> (r: Option<Erc1155Balance>)
        requires
            end <= self.entries@.len(),
        ensures
            r == last_entry(self.entries@.subrange(0, end as int), contract, id, owner),
    {
        let mut i: usize = end;
        while i > 0
            invariant
                i <= end <= self.entries@.len(),
                last_entry(self.entries@.subrange(0, end as int), contract, id, owner) == last_entry(
                    self.entries@.subrange(0, i as int),
                    contract,
                    id,
                    owner,
                ),
            decreases i,
        {
            let e = self.entries[i - 1];
            proof {
                let p = self.entries@.subrange(0, i as int);
                assert(p.drop_last() =~= self.entries@.subrange(0, i - 1));
            }
            if e.contract_address == contract && e.token_id == id && e.owner == owner {
                return Some(e);
            }
            i = i - 1;
        }
        None
    }

    /// The balance recorded for the key, zero when there is none.
    pub fn balance_of(&self, contract: Felt, id: Uint256, owner: Felt) -> (r: Uint256)
        ensures
            r.value() == balance_in(self.entries@, contract, id, owner),
    {
        assert(self.entries@.subrange(0, self.entries@.len() as int) =~= self.entries@);
        match self.entry_before(contract, id, owner, self.entries.len()) {
            Some(e) => e.balance,
            None => Uint256::from_u128(0),
        }
    }

    /// Whether taking `amount` of `id` from the sender would go below zero
    /// and stop there: a data-integrity problem worth logging.
    pub fn debit_clamps(&self, t: &Erc1155Transfer, id: Uint256, amount: Uint256) -> (r: bool)
        ensures
            r == (!t.sender.spec_is_zero() && balance_in(self.entries@, t.contract_address, id, t.sender)
                < amount.value()),
    {
        if t.sender.is_zero() {
            return false;
        }
        let held = self.balance_of(t.contract_address, id, t.sender);
        !amount.le(&held)
    }

    fn is_fresh(&self, owner: Felt, id: Uint256, t: &Erc1155Transfer, start: usize) -> (r: bool)
        requires
            start <= self.entries@.len(),
        ensures
            r == fresh(self.entries@.subrange(0, start as int), owner, id, *t),
    {
        match self.entry_before(t.contract_address, id, owner, start) {
            None => true,
            Some(e) => e.last_updated < t.block_number || (e.last_updated == t.block_number
                && e.log_index < t.log_index),
        }
    }

    fn apply_one(&mut self, t: &Erc1155Transfer, id: Uint256, amount: Uint256, start: usize) -> (r: Result<(), HandlerError>)
        requires
            start <= old(self).entries@.len(),
        ensures
            match apply_pair(old(self).entries@.subrange(0, start as int), old(self).entries@, *t, id, amount) {
                Some(s) => r is Ok && final(self).entries@ == s,
                None => r is Err && r->Err_0 == HandlerError::BalanceOverflow
                    && final(self).entries@.len() >= old(self).entries@.len(),
            },
            final(self).entries@.subrange(0, old(self).entries@.len() as int) == old(self).entries@,
    {
        let ghost s0 = self.entries@.subrange(0, start as int);
        let ghost s = self.entries@;
        let debit = !t.sender.is_zero() && self.is_fresh(t.sender, id, t, start);
        let credit = !t.recipient.is_zero() && self.is_fresh(t.recipient, id, t, start);
        if debit {
            let b = self.balance_of(t.contract_address, id, t.sender);
            let nb = b.saturating_sub(&amount);
            proof {
                lemma_uint256_of_value(nb);
            }
            self.entries.push(Erc1155Balance::new(t.contract_address, id, t.sender, nb, t.block_number, t.log_index));
        }
        let ghost s1 = self.entries@;
        assert(s1.subrange(0, s.len() as int) =~= s);
        if credit {
            let b = self.balance_of(t.contract_address, id, t.recipient);
            match b.checked_add(&amount) {
                Some(nb) => {
                    proof {
                        lemma_uint256_of_value(nb);
                    }
                    self.entries.push(Erc1155Balance::new(t.contract_address, id, t.recipient, nb, t.block_number, t.log_index));
                    assert(self.entries@.subrange(0, s.len() as int) =~= s);
                },
                None => {
                    return Err(HandlerError::BalanceOverflow);
                },
            }
        }
        Ok(())
    }

    /// Applies every pair of the transfer in order, all or nothing: on an
    /// error the book is left as it was. Lists of different lengths are a
    /// malformed event. Balances the event already changed are left alone.
    pub fn apply_transfer(&mut self, t: &Erc1155Transfer) -> (r: Result<(), HandlerError>)
        ensures
            t.token_ids@.len() != t.amounts@.len() ==> r is Err && r->Err_0 == HandlerError::LengthMismatch
                && final(self).entries@ == old(self).entries@,
            t.token_ids@.len() == t.amounts@.len() ==> match apply_pairs(old(self).entries@, *t, t.token_ids@.len()) {
                Some(s) => r is Ok && final(self).entries@ == s,
                None => r is Err && r->Err_0 == HandlerError::BalanceOverflow
                    && final(self).entries@ == old(self).entries@,
            },
    {
        if t.token_ids.len() != t.amounts.len() {
            return Err(HandlerError::LengthMismatch);
        }
        let start: usize = self.entries.len();
        let ghost s0 = self.entries@;
        let mut i: usize = 0;
        while i < t.token_ids.len()
            invariant
                i <= t.token_ids@.len() == t.amounts@.len(),
                start == s0.len(),
                s0 == old(self).entries@,
                apply_pairs(s0, *t, i as nat) == Some(self.entries@),
                self.entries@.len() >= start,
                self.entries@.subrange(0, start as int) == s0,
            decreases t.token_ids@.len() - i,
        {
            let ghost before = self.entries@;
            let res = self.apply_one(t, t.token_ids[i], t.amounts[i], start);
            proof {
                assert(self.entries@.subrange(0, start as int) =~= self.entries@.subrange(0, before.len() as int).subrange(0, start as int));
            }
            if res.is_err() {
                proof {
                    assert(apply_pair(s0, before, *t, t.token_ids@[i as int], t.amounts@[i as int]) is None);
                    assert(apply_pairs(s0, *t, (i + 1) as nat) is None);
                    lemma_apply_pairs_none(s0, *t, (i + 1) as nat, t.token_ids@.len());
                }
                self.entries.truncate(start);
                assert(self.entries@ =~= s0);
                return Err(HandlerError::BalanceOverflow);
            }
            i = i + 1;
        }
        Ok(())
    }
}

/// The entry carries the log position of `t`.
pub open spec fn stamped(e: Option<Erc1155Balance>, t: Erc1155Transfer) -> bool {
    e matches Some(x) && x.last_updated == t.block_number && x.log_index == t.log_index
}

proof fn lemma_pair_stamps(s0: Seq<Erc1155Balance>, s: Seq<Erc1155Balance>, t: Erc1155Transfer, id: Uint256, amount: Uint256)
    requires
        apply_pair(s0, s, t, id, amount) is Some,
    ensures
        ({
            let s2 = apply_pair(s0, s, t, id, amount)->0;
            &&& forall|x: Uint256, o: Felt| #![trigger last_entry(s2, t.contract_address, x, o)]
                last_entry(s2, t.contract_address, x, o) == last_entry(s, t.contract_address, x, o)
                    || stamped(last_entry(s2, t.contract_address, x, o), t)
            &&& forall|x: Uint256, o: Felt| #![trigger last_entry(s2, t.contract_address, x, o)]
                stamped(last_entry(s, t.contract_address, x, o), t) ==> stamped(
                    last_entry(s2, t.contract_address, x, o),
                    t,
                )
            &&& takes_debit(s0, t, id) ==> stamped(last_entry(s2, t.contract_address, id, t.sender), t)
            &&& takes_credit(s0, t, id) ==> stamped(last_entry(s2, t.contract_address, id, t.recipient), t)
        }),
{
    let s1 = if takes_debit(s0, t, id) {
        let r = Erc1155Balance {
            contract_address: t.contract_address,
            token_id: id,
            owner: t.sender,
            balance: uint256_of(debited(balance_in(s, t.contract_address, id, t.sender), amount.value())),
            last_updated: t.block_number,
            log_index: t.log_index,
        };
        assert forall|x: Uint256, o: Felt| #[trigger] last_entry(s.push(r), t.contract_address, x, o) == (
        if same_key(r, t.contract_address, x, o) {
            Some(r)
        } else {
            last_entry(s, t.contract_address, x, o)
        }) by {
            lemma_entry_push(s, r, t.contract_address, x, o);
        }
        s.push(r)
    } else {
        s
    };
    if takes_credit(s0, t, id) {
        let v = balance_in(s1, t.contract_address, id, t.recipient) + amount.value();
        let r = Erc1155Balance {
            contract_address: t.contract_address,
            token_id: id,
            owner: t.recipient,
            balance: uint256_of(v),
            last_updated: t.block_number,
            log_index: t.log_index,
        };
        assert forall|x: Uint256, o: Felt| #[trigger] last_entry(s1.push(r), t.contract_address, x, o) == (
        if same_key(r, t.contract_address, x, o) {
            Some(r)
        } else {
            last_entry(s1, t.contract_address, x, o)
        }) by {
            lemma_entry_push(s1, r, t.contract_address, x, o);
        }
    }
}

proof fn lemma_pairs_stamps(s0: Seq<Erc1155Balance>, t: Erc1155Transfer, k: nat)
    requires
        k <= t.token_ids@.len() == t.amounts@.len(),
        apply_pairs(s0, t, k) is Some,
    ensures
        ({
            let sk = apply_pairs(s0, t, k)->0;
            &&& forall|x: Uint256, o: Felt| #![trigger last_entry(sk, t.contract_address, x, o)]
                last_entry(sk, t.contract_address, x, o) == last_entry(s0, t.contract_address, x, o)
                    || stamped(last_entry(sk, t.contract_address, x, o), t)
            &&& forall|i: int| 0 <= i < k ==> (takes_debit(s0, t, #[trigger] t.token_ids@[i]) ==> stamped(
                last_entry(sk, t.contract_address, t.token_ids@[i], t.sender),
                t,
            ))
            &&& forall|i: int| 0 <= i < k ==> (takes_credit(s0, t, #[trigger] t.token_ids@[i]) ==> stamped(
                last_entry(sk, t.contract_address, t.token_ids@[i], t.recipient),
                t,
            ))
        }),
    decreases k,
{
    if k > 0 {
        lemma_pairs_stamps(s0, t, (k - 1) as nat);
        let sp = apply_pairs(s0, t, (k - 1) as nat)->0;
        lemma_pair_stamps(s0, sp, t, t.token_ids@[k - 1], t.amounts@[k - 1]);
    }
}

/// Replaying a transfer changes no balance: applying `t` to the book that
/// `t` itself produced adds no entry, so every balance stays as it is.
pub proof fn lemma_replay_changes_nothing(s0: Seq<Erc1155Balance>, t: Erc1155Transfer)
    requires
        t.token_ids@.len() == t.amounts@.len(),
        apply_pairs(s0, t, t.token_ids@.len()) is Some,
    ensures
        apply_pairs(apply_pairs(s0, t, t.token_ids@.len())->0, t, t.token_ids@.len())
            == apply_pairs(s0, t, t.token_ids@.len()),
{
    let n = t.token_ids@.len();
    let s1 = apply_pairs(s0, t, n)->0;
    lemma_pairs_stamps(s0, t, n);
    assert forall|i: int| 0 <= i < n implies !takes_debit(s1, t, #[trigger] t.token_ids@[i])
        && !takes_credit(s1, t, t.token_ids@[i]) by {
        let id = t.token_ids@[i];
        let ds = last_entry(s1, t.contract_address, id, t.sender);
        let dr = last_entry(s1, t.contract_address, id, t.recipient);
        assert(ds == last_entry(s0, t.contract_address, id, t.sender) || stamped(ds, t));
        assert(dr == last_entry(s0, t.contract_address, id, t.recipient) || stamped(dr, t));
    }
    lemma_no_change(s1, t, n);
}

proof fn lemma_no_change(s1: Seq<Erc1155Balance>, t: Erc1155Transfer, k: nat)
    requires
        k <= t.token_ids@.len(),
        forall|i: int| 0 <= i < t.token_ids@.len() ==> !takes_debit(s1, t, #[trigger] t.token_ids@[i])
            && !takes_credit(s1, t, t.token_ids@[i]),
    ensures
        apply_pairs(s1, t, k) == Some(s1),
    decreases k,
{
    if k > 0 {
        lemma_no_change(s1, t, (k - 1) as nat);
        assert(!takes_debit(s1, t, t.token_ids@[k - 1]));
        assert(!takes_credit(s1, t, t.token_ids@[k - 1]));
    }
}

/// The metadata record of a token id the first time its (contract, id) pair
/// is seen; `None` when it already has one. `metadata` is `None` when it
/// could not be resolved, and the record then holds the empty metadata.
pub fn first_seen_metadata(
    t: &Erc1155Transfer,
    id: Uint256,
    exists: bool,
    token_uri: String,
    metadata: Option<TokenMetadata>,
) -> (r: Option<Erc1155Metadata>)
    ensures
        exists ==> r is None,
        !exists ==> (r matches Some(m) && {
            &&& m.contract_address == t.contract_address
            &&& m.token_id == id
            &&& m.token_uri@ == token_uri@
            &&& metadata_or_empty(metadata, m.metadata)
            &&& m.last_updated == t.block_number
        }),
{
    if exists {
        return None;
    }
    let m = match metadata {
        Some(m) => m,
        None => TokenMetadata::empty(),
    };
    Some(Erc1155Metadata::new(t.contract_address, id, token_uri, m, t.block_number))
}

proof fn lemma_apply_pairs_none(s: Seq<Erc1155Balance>, t: Erc1155Transfer, i: nat, n: nat)
    requires
        i <= n,
        apply_pairs(s, t, i) is None,
    ensures
        apply_pairs(s, t, n) is None,
    decreases n - i,
{
    if i < n {
        lemma_apply_pairs_none(s, t, i + 1, n);
    }
}

} // verus!
