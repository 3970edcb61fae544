//! Contract metadata, recorded once per contract.
use vstd::prelude::*;
use crate::document::ContractMetadata;
use crate::felt::Felt;

verus! {

/// How many records of `s` belong to contract `a`.
pub open spec fn count_for(s: Seq<ContractMetadata>, a: Felt) -> nat
    decreases s.len(),
{
    if s.len() == 0 {
        0
    } else {
        count_for(s.drop_last(), a) + if s.last().id == a {
            1nat
        } else {
            0nat
        }
    }
}

/// First writer wins: the record is added only when its contract has none.
pub open spec fn insert_if_absent(s: Seq<ContractMetadata>, r: ContractMetadata) -> Seq<ContractMetadata> {
    if count_for(s, r.id) > 0 {
        s
    } else {
        s.push(r)
    }
}

/// The records after each of `rs` was offered in turn.
pub open spec fn insert_all(s: Seq<ContractMetadata>, rs: Seq<ContractMetadata>) -> Seq<ContractMetadata>
    decreases rs.len(),
{
    if rs.len() == 0 {
        s
    } else {
        insert_all(insert_if_absent(s, rs[0]), rs.drop_first())
    }
}

/// At most one record per contract.
pub open spec fn unique_contracts(s: Seq<ContractMetadata>) -> bool {
    forall|a: Felt| #[trigger] count_for(s, a) <= 1
}

proof fn lemma_count_push(s: Seq<ContractMetadata>, r: ContractMetadata, a: Felt)
    ensures
        count_for(s.push(r), a) == count_for(s, a) + if r.id == a {
            1nat
        } else {
            0nat
        },
{
    assert(s.push(r).drop_last() =~= s);
}

proof fn lemma_count_pos(s: Seq<ContractMetadata>, i: int, a: Felt)
    requires
        0 <= i < s.len(),
        s[i].id == a,
    ensures
        count_for(s, a) > 0,
    decreases s.len(),
{
    if i < s.len() - 1 {
        lemma_count_pos(s.drop_last(), i, a);
    }
}

proof fn lemma_insert_if_absent(s: Seq<ContractMetadata>, r: ContractMetadata, a: Felt)
    requires
        unique_contracts(s),
    ensures
        unique_contracts(insert_if_absent(s, r)),
        count_for(insert_if_absent(s, r), a) == if count_for(s, a) > 0 || r.id == a {
            1nat
        } else {
            0nat
        },
{
    assert forall|b: Felt| #[trigger] count_for(insert_if_absent(s, r), b) <= 1 by {
        lemma_count_push(s, r, b);
        assert(count_for(s, b) <= 1);
    }
    lemma_count_push(s, r, a);
    assert(count_for(s, a) <= 1);
}

/// Contract metadata is created exactly once per contract: however many
/// first-mint records are offered, in whatever order, each contract that any
/// of them names ends with exactly one record, and no contract with more.
pub proof fn lemma_created_once(s: Seq<ContractMetadata>, rs: Seq<ContractMetadata>, a: Felt)
    requires
        unique_contracts(s),
    ensures
        unique_contracts(insert_all(s, rs)),
        count_for(insert_all(s, rs), a) == if count_for(s, a) > 0 || exists|i: int|
            0 <= i < rs.len() && (#[trigger] rs[i]).id == a {
            1nat
        } else {
            0nat
        },
    decreases rs.len(),
{
    if rs.len() > 0 {
        let s1 = insert_if_absent(s, rs[0]);
        lemma_insert_if_absent(s, rs[0], a);
        lemma_created_once(s1, rs.drop_first(), a);
        if exists|i: int| 0 <= i < rs.len() && (#[trigger] rs[i]).id == a {
            if rs[0].id != a {
                let i = choose|i: int| 0 <= i < rs.len() && (#[trigger] rs[i]).id == a;
                assert(rs.drop_first()[i - 1].id == a);
            }
        } else {
            assert forall|i: int| 0 <= i < rs.drop_first().len() implies (
            #[trigger] rs.drop_first()[i]).id != a by {
                assert(rs[i + 1].id != a);
            }
        }
    }
}

/// The contract-metadata collection.
pub struct ContractMetadataCache {
    pub records: Vec<ContractMetadata>,
}

impl ContractMetadataCache {
    pub open spec fn wf(&self) -> bool {
        unique_contracts(self.records@)
    }

    pub fn new() -> (r: Self)
        ensures
            r.wf(),
            r.records@.len() == 0,
    {
        let r = ContractMetadataCache { records: Vec::new() };
        assert forall|a: Felt| #[trigger] count_for(r.records@, a) <= 1 by {}
        r
    }

    /// Whether `contract_address` has a record.
    pub fn contains(&self, contract_address: Felt) -> (r: bool)
        ensures
            r == (count_for(self.records@, contract_address) > 0),
    {
        let mut i: usize = 0;
        while i < self.records.len()
            invariant
                i <= self.records@.len(),
                count_for(self.records@.subrange(0, i as int), contract_address) == 0,
            decreases self.records@.len() - i,
        {
            proof {
                let s = self.records@;
                assert(s.subrange(0, i as int + 1) =~= s.subrange(0, i as int).push(s[i as int]));
                lemma_count_push(s.subrange(0, i as int), s[i as int], contract_address);
            }
            if self.records[i].id == contract_address {
                proof {
                    lemma_count_pos(self.records@, i as int, contract_address);
                }
                return true;
            }
            i = i + 1;
        }
        assert(self.records@.subrange(0, i as int) =~= self.records@);
        false
    }

    /// Adds `record` unless its contract already has one; says whether it did.
    pub fn create_if_absent(&mut self, record: ContractMetadata) -> (created: bool)
        requires
            old(self).wf(),
        ensures
            final(self).wf(),
            final(self).records@ == insert_if_absent(old(self).records@, record),
            created == (count_for(old(self).records@, record.id) == 0),
    {
        proof {
            lemma_insert_if_absent(self.records@, record, record.id);
        }
        if self.contains(record.id) {
            false
        } else {
            self.records.push(record);
            true
        }
    }
}

} // verus!
