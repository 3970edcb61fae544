//! Classification of raw ledger events into typed transfers.
use vstd::prelude::*;
use crate::erc1155::Erc1155Transfer;
use crate::erc721::Erc721Transfer;
use crate::felt::Felt;
use crate::uint256::Uint256;

verus! {

/// Topic key of `Transfer` (single-owner tokens), high and low limbs.
pub const TRANSFER_KEY_HIGH: u128 = 0x99cd8bde557814842a3121e8ddfd43;
pub const TRANSFER_KEY_LOW: u128 = 0x3a539b8c9f14bf31ebf108d12e6196e9;
/// Topic key of `TransferSingle` (multi-owner tokens).
pub const TRANSFER_SINGLE_KEY_HIGH: u128 = 0x182d859c0807ba9db63baf8b9d9fdbf;
pub const TRANSFER_SINGLE_KEY_LOW: u128 = 0xeb885d820be6e206b9dab626d995c433;
/// Topic key of `TransferBatch` (multi-owner tokens).
pub const TRANSFER_BATCH_KEY_HIGH: u128 = 0x2563683c757f3abe19c4b7237e2285d;
pub const TRANSFER_BATCH_KEY_LOW: u128 = 0x8993417ddffe0b54a19eb212ea574b08;

pub fn transfer_key() -> (r: Felt)
    ensures
        r == (Felt { high: TRANSFER_KEY_HIGH, low: TRANSFER_KEY_LOW }),
{
    Felt { high: TRANSFER_KEY_HIGH, low: TRANSFER_KEY_LOW }
}

pub fn transfer_single_key() -> (r: Felt)
    ensures
        r == (Felt { high: TRANSFER_SINGLE_KEY_HIGH, low: TRANSFER_SINGLE_KEY_LOW }),
{
    Felt { high: TRANSFER_SINGLE_KEY_HIGH, low: TRANSFER_SINGLE_KEY_LOW }
}

pub fn transfer_batch_key() -> (r: Felt)
    ensures
        r == (Felt { high: TRANSFER_BATCH_KEY_HIGH, low: TRANSFER_BATCH_KEY_LOW }),
{
    Felt { high: TRANSFER_BATCH_KEY_HIGH, low: TRANSFER_BATCH_KEY_LOW }
}

/// The topic keys an event fetch asks for, in this order: transfer,
/// single transfer, batch transfer.
pub fn transfer_keys() -> (r: Vec<Felt>)
    ensures
        r@ == seq![transfer_key_spec(), transfer_single_key_spec(), transfer_batch_key_spec()],
{
    let mut v: Vec<Felt> = Vec::new();
    v.push(transfer_key());
    v.push(transfer_single_key());
    v.push(transfer_batch_key());
    v
}

pub open spec fn transfer_key_spec() -> Felt {
    Felt { high: TRANSFER_KEY_HIGH, low: TRANSFER_KEY_LOW }
}

pub open spec fn transfer_single_key_spec() -> Felt {
    Felt { high: TRANSFER_SINGLE_KEY_HIGH, low: TRANSFER_SINGLE_KEY_LOW }
}

pub open spec fn transfer_batch_key_spec() -> Felt {
    Felt { high: TRANSFER_BATCH_KEY_HIGH, low: TRANSFER_BATCH_KEY_LOW }
}

/// An event as the ledger emits it.
#[derive(Clone, Debug)]
pub struct RawEvent {
    pub from_address: Felt,
    pub keys: Vec<Felt>,
    pub data: Vec<Felt>,
    pub block_number: u64,
    /// Place of the event among the events of its block, in emission order.
    pub log_index: u64,
}

/// What an event means to the indexer.
#[derive(Clone, Debug)]
pub enum ClassifiedEvent {
    Erc721(Erc721Transfer),
    Erc1155(Erc1155Transfer),
    /// Not a token transfer this indexer follows.
    Ignored,
    /// A transfer event whose payload does not have the expected shape.
    Malformed,
}

/// The word at `i`, or zero past the end.
pub open spec fn word_or_zero(d: Seq<Felt>, i: int) -> Felt {
    if 0 <= i < d.len() {
        d[i]
    } else {
        Felt { high: 0, low: 0 }
    }
}

/// The 256-bit value held by the words at `i` (low) and `i + 1` (high).
pub open spec fn u256_at(d: Seq<Felt>, i: int) -> Option<Uint256> {
    if 0 <= i && i + 1 < d.len() && d[i].high == 0 && d[i + 1].high == 0 {
        Some(Uint256 { low: d[i].low, high: d[i + 1].low })
    } else {
        None
    }
}

/// `n` 256-bit values laid out from word `start` on.
pub open spec fn u256_list(d: Seq<Felt>, start: int, n: nat) -> Option<Seq<Uint256>>
    decreases n,
{
    if n == 0 {
        Some(Seq::empty())
    } else {
        match u256_list(d, start, (n - 1) as nat) {
            None => None,
            Some(s) => match u256_at(d, start + 2 * (n - 1)) {
                None => None,
                Some(x) => Some(s.push(x)),
            },
        }
    }
}

/// A length word: a count no larger than the payload.
pub open spec fn count_at(d: Seq<Felt>, i: int) -> Option<nat> {
    if 0 <= i < d.len() && d[i].high == 0 && d[i].low <= d.len() {
        Some(d[i].low as nat)
    } else {
        None
    }
}

/// The id and amount lists of a batch payload
/// `[operator, from, to, n, ids (2n words), m, amounts (2m words)]`,
/// when it has that shape and `n == m`.
pub open spec fn batch_lists(d: Seq<Felt>) -> Option<(Seq<Uint256>, Seq<Uint256>)> {
    match count_at(d, 3) {
        None => None,
        Some(n) => match count_at(d, (4 + 2 * n) as int) {
            None => None,
            Some(m) => if n != m {
                None
            } else {
                match (u256_list(d, 4, n), u256_list(d, (5 + 2 * n) as int, m)) {
                    (Some(ids), Some(amounts)) => Some((ids, amounts)),
                    _ => None,
                }
            },
        },
    }
}

pub open spec fn batch_ids(d: Seq<Felt>) -> Seq<Uint256> {
    let (ids, _) = batch_lists(d)->0;
    ids
}

pub open spec fn batch_amounts(d: Seq<Felt>) -> Seq<Uint256> {
    let (_, amounts) = batch_lists(d)->0;
    amounts
}

pub enum EventKind {
    Erc721,
    Erc1155,
    Ignored,
    Malformed,
}

/// Which kind a raw event classifies as.
pub open spec fn kind_of(ev: RawEvent, is_erc721: bool) -> EventKind {
    let d = ev.data@;
    if ev.keys@.len() == 0 {
        EventKind::Ignored
    } else if ev.keys@[0] == transfer_key_spec() {
        if !is_erc721 {
            EventKind::Ignored
        } else if d.len() >= 3 && u256_at(d.push(Felt { high: 0, low: 0 }), 2) is Some {
            EventKind::Erc721
        } else {
            EventKind::Malformed
        }
    } else if ev.keys@[0] == transfer_single_key_spec() {
        if u256_at(d, 3) is Some && u256_at(d, 5) is Some {
            EventKind::Erc1155
        } else {
            EventKind::Malformed
        }
    } else if ev.keys@[0] == transfer_batch_key_spec() {
        if batch_lists(d) is Some {
            EventKind::Erc1155
        } else {
            EventKind::Malformed
        }
    } else {
        EventKind::Ignored
    }
}

impl ClassifiedEvent {
    pub open spec fn kind(self) -> EventKind {
        match self {
            ClassifiedEvent::Erc721(_) => EventKind::Erc721,
            ClassifiedEvent::Erc1155(_) => EventKind::Erc1155,
            ClassifiedEvent::Ignored => EventKind::Ignored,
            ClassifiedEvent::Malformed => EventKind::Malformed,
        }
    }
}

fn read_u256(d: &Vec<Felt>, i: usize) -> (r: Option<Uint256>)
    ensures
        r == u256_at(d@, i as int),
{
    if i < d.len() && d.len() - i >= 2 && d[i].high == 0 && d[i + 1].high == 0 {
        Some(Uint256 { low: d[i].low, high: d[i + 1].low })
    } else {
        None
    }
}

proof fn lemma_u256_list_none(d: Seq<Felt>, start: int, i: nat, n: nat)
    requires
        i <= n,
        u256_list(d, start, i) is None,
    ensures
        u256_list(d, start, n) is None,
    decreases n - i,
{
    if i < n {
        lemma_u256_list_none(d, start, i + 1, n);
    }
}

fn read_u256_list(d: &Vec<Felt>, start: usize, n: usize) -> (r: Option<Vec<Uint256>>)
    requires
        start <= d@.len(),
    ensures
        match u256_list(d@, start as int, n as nat) {
            None => r is None,
            Some(s) => r is Some && r->0@ == s,
        },
{
    let mut out: Vec<Uint256> = Vec::new();
    let mut i: usize = 0;
    let mut p: usize = start;
    let len = d.len();
    while i < n
        invariant
            len == d@.len(),
            i <= n,
            p == start + 2 * i,
            p <= d@.len(),
            u256_list(d@, start as int, i as nat) == Some(out@),
        decreases n - i,
    {
        match read_u256(d, p) {
            Some(x) => {
                out.push(x);
                p = p + 2;
                i = i + 1;
            },
            None => {
                proof {
                    lemma_u256_list_none(d@, start as int, (i + 1) as nat, n as nat);
                }
                return None;
            },
        }
    }
    Some(out)
}

fn read_count(d: &Vec<Felt>, i: usize) -> (r: Option<usize>)
    ensures
        match count_at(d@, i as int) {
            None => r is None,
            Some(c) => r == Some(c as usize),
        },
{
    if i < d.len() && d[i].high == 0 && d[i].low <= d.len() as u128 {
        Some(d[i].low as usize)
    } else {
        None
    }
}

/// The place of event `i` among the events of its block, for a run of
/// events in emission order given by their block numbers.
pub open spec fn index_in_block(blocks: Seq<u64>, i: int) -> int
    decreases i,
{
    if i <= 0 {
        0
    } else if blocks[i] == blocks[i - 1] {
        index_in_block(blocks, i - 1) + 1
    } else {
        0
    }
}

proof fn lemma_index_in_block_bound(blocks: Seq<u64>, i: int)
    ensures
        0 <= index_in_block(blocks, i) <= if i > 0 { i } else { 0 },
    decreases i,
{
    if i > 0 {
        lemma_index_in_block_bound(blocks, i - 1);
    }
}

/// The log index of each event of a fetched range, from the events' block
/// numbers in emission order. A range always holds whole blocks, so fetching
/// it again gives every event the same index.
pub fn log_indices(blocks: &Vec<u64>) -> (r: Vec<u64>)
    ensures
        r@.len() == blocks@.len(),
        forall|i: int| 0 <= i < blocks@.len() ==> r@[i] == index_in_block(blocks@, i),
{
    let mut out: Vec<u64> = Vec::new();
    let mut i: usize = 0;
    while i < blocks.len()
        invariant
            i <= blocks@.len(),
            out@.len() == i,
            forall|j: int| 0 <= j < i ==> out@[j] == index_in_block(blocks@, j),
        decreases blocks@.len() - i,
    {
        proof {
            lemma_index_in_block_bound(blocks@, i as int);
        }
        let v: u64 = if i > 0 && blocks[i] == blocks[i - 1] {
            out[i - 1] + 1
        } else {
            0
        };
        out.push(v);
        i = i + 1;
    }
    out
}

/// Whether telling the event apart needs to know if its contract is a
/// single-owner token contract (a `Transfer` event may come from other
/// token kinds too).
pub fn needs_erc721_probe(ev: &RawEvent) -> (r: bool)
    ensures
        r == (ev.keys@.len() > 0 && ev.keys@[0] == transfer_key_spec()),
{
    ev.keys.len() > 0 && ev.keys[0] == transfer_key()
}

/// Reads the typed transfer out of a raw event. `is_erc721` says whether the
/// emitting contract is a single-owner token contract; only `Transfer`
/// events consult it.
pub fn classify_event(ev: &RawEvent, is_erc721: bool) -> (r: ClassifiedEvent)
    ensures
        r.kind() == kind_of(*ev, is_erc721),
        r matches ClassifiedEvent::Erc721(t) ==> {
            &&& t.contract_address == ev.from_address
            &&& t.block_number == ev.block_number
            &&& t.log_index == ev.log_index
            &&& t.sender == ev.data@[0]
            &&& t.recipient == ev.data@[1]
            &&& Some(t.token_id) == u256_at(ev.data@.push(Felt { high: 0, low: 0 }), 2)
        },
        r matches ClassifiedEvent::Erc1155(t) ==> {
            &&& t.contract_address == ev.from_address
            &&& t.block_number == ev.block_number
            &&& t.log_index == ev.log_index
            &&& t.sender == ev.data@[1]
            &&& t.recipient == ev.data@[2]
            &&& ev.keys@[0] == transfer_single_key_spec() ==> {
                &&& t.token_ids@ == seq![u256_at(ev.data@, 3)->0]
                &&& t.amounts@ == seq![u256_at(ev.data@, 5)->0]
            }
            &&& ev.keys@[0] == transfer_batch_key_spec() ==> {
                &&& t.token_ids@ == batch_ids(ev.data@)
                &&& t.amounts@ == batch_amounts(ev.data@)
            }
        },
{
    if ev.keys.len() == 0 {
        return ClassifiedEvent::Ignored;
    }
    let key = ev.keys[0];
    let d = &ev.data;
    if key == transfer_key() {
        if !is_erc721 {
            return ClassifiedEvent::Ignored;
        }
        if d.len() < 3 {
            return ClassifiedEvent::Malformed;
        }
        let high = if d.len() > 3 { d[3] } else { Felt::zero() };
        proof {
            let dz = d@.push(Felt { high: 0, low: 0 });
            assert(dz[2] == d@[2]);
            assert(dz[3] == high);
        }
        match Uint256::from_felts(d[2], high) {
            Some(token_id) => ClassifiedEvent::Erc721(Erc721Transfer {
                contract_address: ev.from_address,
                block_number: ev.block_number,
                log_index: ev.log_index,
                sender: d[0],
                recipient: d[1],
                token_id,
            }),
            None => ClassifiedEvent::Malformed,
        }
    } else if key == transfer_single_key() {
        match (read_u256(d, 3), read_u256(d, 5)) {
            (Some(id), Some(amount)) => {
                let mut token_ids: Vec<Uint256> = Vec::new();
                token_ids.push(id);
                let mut amounts: Vec<Uint256> = Vec::new();
                amounts.push(amount);
                ClassifiedEvent::Erc1155(Erc1155Transfer {
                    contract_address: ev.from_address,
                    block_number: ev.block_number,
                    log_index: ev.log_index,
                    sender: d[1],
                    recipient: d[2],
                    token_ids,
                    amounts,
                })
            },
            _ => ClassifiedEvent::Malformed,
        }
    } else if key == transfer_batch_key() {
        let n = match read_count(d, 3) {
            Some(n) => n,
            None => return ClassifiedEvent::Malformed,
        };
        let pos: u128 = 4 + 2 * (n as u128);
        if pos >= d.len() as u128 {
            return ClassifiedEvent::Malformed;
        }
        let m = match read_count(d, pos as usize) {
            Some(m) => m,
            None => return ClassifiedEvent::Malformed,
        };
        if n != m {
            return ClassifiedEvent::Malformed;
        }
        let ids = match read_u256_list(d, 4, n) {
            Some(v) => v,
            None => return ClassifiedEvent::Malformed,
        };
        let amounts = match read_u256_list(d, pos as usize + 1, m) {
            Some(v) => v,
            None => return ClassifiedEvent::Malformed,
        };
        ClassifiedEvent::Erc1155(Erc1155Transfer {
            contract_address: ev.from_address,
            block_number: ev.block_number,
            log_index: ev.log_index,
            sender: d[1],
            recipient: d[2],
            token_ids: ids,
            amounts,
        })
    } else {
        ClassifiedEvent::Ignored
    }
}

} // verus!
