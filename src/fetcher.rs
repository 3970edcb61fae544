//! Cursor-paginated retrieval of transfer events over a block range.
use vstd::prelude::*;
use crate::events::{RawEvent, transfer_keys, transfer_key_spec, transfer_single_key_spec, transfer_batch_key_spec};
use crate::felt::Felt;

verus! {

/// Events asked for per page.
pub const CHUNK_SIZE: u64 = 1024;

/// The query for one range: blocks `from_block ..= to_block`, the three
/// transfer topic keys.
#[derive(Clone, Debug)]
pub struct EventFilter {
    pub from_block: u64,
    pub to_block: u64,
    pub keys: Vec<Felt>,
}

/// One page of events with the cursor to the next, absent on the last page.
#[derive(Clone, Debug)]
pub struct EventsPage {
    pub events: Vec<RawEvent>,
    pub continuation_token: Option<String>,
}

/// The node could not be reached or answered with an error.
#[derive(Clone, Copy, Debug, PartialEq, Eq, Structural)]
pub struct TransportError;

#[derive(Clone, Copy, Debug, PartialEq, Eq, Structural)]
pub enum FetchError {
    /// The range end does not fit in a block number.
    RangeOverflow,
    /// A page failed: nothing of the range may be used.
    FetchIncomplete,
}

/// The filter for `[start_block, start_block + range]`.
pub fn transfer_filter(start_block: u64, range: u64) -> (r: Result<EventFilter, FetchError>)
    ensures
        start_block + range <= u64::MAX <==> r is Ok,
        r is Err ==> r == Err::<EventFilter, FetchError>(FetchError::RangeOverflow),
        r matches Ok(f) ==> {
            &&& f.from_block == start_block
            &&& f.to_block == start_block + range
            &&& f.keys@ == seq![transfer_key_spec(), transfer_single_key_spec(), transfer_batch_key_spec()]
        },
{
    if range > u64::MAX - start_block {
        return Err(FetchError::RangeOverflow);
    }
    Ok(EventFilter { from_block: start_block, to_block: start_block + range, keys: transfer_keys() })
}

/// All events of the pages, page after page.
pub open spec fn concat_pages(pages: Seq<Seq<RawEvent>>) -> Seq<RawEvent>
    decreases pages.len(),
{
    if pages.len() == 0 {
        Seq::empty()
    } else {
        concat_pages(pages.drop_last()) + pages.last()
    }
}

/// Paging is order-preserving and lossless: the events of a run of pages,
/// split anywhere, are those of the first part followed by those of the rest.
pub proof fn lemma_concat_split(a: Seq<Seq<RawEvent>>, b: Seq<Seq<RawEvent>>)
    ensures
        concat_pages(a + b) == concat_pages(a) + concat_pages(b),
    decreases b.len(),
{
    if b.len() == 0 {
        assert(a + b =~= a);
        assert(concat_pages(a) + Seq::<RawEvent>::empty() =~= concat_pages(a));
    } else {
        assert((a + b).drop_last() =~= a + b.drop_last());
        lemma_concat_split(a, b.drop_last());
        assert(concat_pages(a) + concat_pages(b.drop_last()) + b.last() =~= concat_pages(a) + (
        concat_pages(b.drop_last()) + b.last()));
    }
}

/// Fetching a range in many pages gives what one page holding everything
/// gives: the events after following the cursor through `pages` equal those
/// of the single page `concat_pages(pages)`.
pub proof fn lemma_paging_lossless(pages: Seq<Seq<RawEvent>>)
    ensures
        concat_pages(pages) == concat_pages(seq![concat_pages(pages)]),
{
    let one = seq![concat_pages(pages)];
    assert(one.drop_last() =~= Seq::<Seq<RawEvent>>::empty());
    assert(concat_pages(one.drop_last()) == Seq::<RawEvent>::empty());
    assert(one.last() == concat_pages(pages));
    assert(concat_pages(one) == concat_pages(one.drop_last()) + one.last());
    assert(Seq::<RawEvent>::empty() + concat_pages(pages) =~= concat_pages(pages));
}

/// What to do after a page came back.
#[derive(Clone, Debug)]
pub enum FetchStep {
    /// Ask for the next page at this cursor.
    Next(String),
    /// The range is complete.
    Complete,
    /// A page failed; the range must be fetched again from its start.
    Incomplete,
}

/// The state of one range fetch.
pub struct TransferFetch {
    pub events: Vec<RawEvent>,
    /// The events of every page taken so far, in order.
    pub pages: Ghost<Seq<Seq<RawEvent>>>,
    pub failed: bool,
}

impl TransferFetch {
    pub open spec fn wf(&self) -> bool {
        self.events@ == concat_pages(self.pages@)
    }

    pub fn new() -> (r: Self)
        ensures
            r.wf(),
            r.pages@ == Seq::<Seq<RawEvent>>::empty(),
            !r.failed,
    {
        TransferFetch { events: Vec::new(), pages: Ghost(Seq::empty()), failed: false }
    }

    /// Takes one answer of the node. A page is kept whole, even when empty,
    /// and the cursor alone decides whether another page follows; a failed
    /// page fails the whole range.
    pub fn absorb(&mut self, answer: Result<EventsPage, TransportError>) -> (step: FetchStep)
        requires
            old(self).wf(),
        ensures
            final(self).wf(),
            match answer {
                Ok(page) => {
                    &&& final(self).pages@ == old(self).pages@.push(page.events@)
                    &&& final(self).events@ == old(self).events@ + page.events@
                    &&& final(self).failed == old(self).failed
                    &&& match page.continuation_token {
                        Some(c) => (step matches FetchStep::Next(n) && n@ == c@),
                        None => step is Complete,
                    }
                },
                Err(_) => {
                    &&& final(self).pages@ == old(self).pages@
                    &&& final(self).events@ == old(self).events@
                    &&& final(self).failed
                    &&& step is Incomplete
                },
            },
    {
        match answer {
            Ok(page) => {
                let EventsPage { events, continuation_token } = page;
                let mut events = events;
                let ghost added = events@;
                self.events.append(&mut events);
                self.pages = Ghost(self.pages@.push(added));
                proof {
                    assert(self.pages@.drop_last() =~= old(self).pages@);
                }
                match continuation_token {
                    Some(c) => FetchStep::Next(c),
                    None => FetchStep::Complete,
                }
            },
            Err(_) => {
                self.failed = true;
                FetchStep::Incomplete
            },
        }
    }

    /// The events of the range once it is complete; `FetchIncomplete` when
    /// a page failed.
    pub fn finish(self) -> (r: Result<Vec<RawEvent>, FetchError>)
        requires
            self.wf(),
        ensures
            self.failed ==> r == Err::<Vec<RawEvent>, FetchError>(FetchError::FetchIncomplete),
            !self.failed ==> (r matches Ok(v) && v@ == concat_pages(self.pages@)),
    {
        if self.failed {
            Err(FetchError::FetchIncomplete)
        } else {
            Ok(self.events)
        }
    }
}

} // verus!
