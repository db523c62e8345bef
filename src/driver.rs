//! The per-collection enumeration as a state machine: it says which token id
//! to query next and folds in what became of each query.

use crate::export::{fold_traits, trait_types, HeaderSet, MetadataTable, TokenEntry};
use crate::metadata::{metadata_normalizes_to, normalize_metadata, RawMetadata};
use crate::uri::ResolveError;
use vstd::prelude::*;

verus! {

/// How many token ids may be probed, as a multiple of the total supply,
/// before the scan is abandoned.
pub const PROBE_FACTOR: u64 = 4;

/// The first token id that is no longer probed.
pub open spec fn probe_limit(supply: u64) -> u64 {
    if supply > u64::MAX / PROBE_FACTOR {
        u64::MAX
    } else {
        (supply * PROBE_FACTOR) as u64
    }
}

/// What became of the query for the current token id.
pub enum Event {
    /// The ledger does not know the id.
    UriRejected,
    /// The URI was resolved and its document decoded.
    Resolved(RawMetadata),
    /// The URI was returned but its document could not be obtained or decoded.
    Failed(ResolveError),
}

/// What the enumeration asks for next.
#[derive(Debug, Clone, Copy, PartialEq, Eq, Structural)]
pub enum Action {
    /// Query the token URI of this id.
    QueryUri(u64),
    /// Every token of the supply has been accounted for.
    Finished,
    /// The ledger recognised too few ids below the probe limit.
    ProbeLimitExceeded,
}

/// The state of one collection's scan.
pub struct Enumeration {
    supply: u64,
    next_id: u64,
    remaining: u64,
    table: MetadataTable,
    headers: HeaderSet,
}

impl Enumeration {
    pub closed spec fn supply(&self) -> u64 {
        self.supply
    }

    /// The token id to query next.
    pub closed spec fn next_id(&self) -> u64 {
        self.next_id
    }

    /// Recognised ids still to be accounted for.
    pub closed spec fn remaining(&self) -> u64 {
        self.remaining
    }

    pub closed spec fn table(&self) -> MetadataTable {
        self.table
    }

    pub closed spec fn headers(&self) -> HeaderSet {
        self.headers
    }

    /// A query is due: some recognised ids remain and the probe limit is not reached.
    pub open spec fn awaiting_query(&self) -> bool {
        self.remaining() > 0 && self.next_id() < probe_limit(self.supply())
    }

    pub open spec fn wf(&self) -> bool {
        &&& self.table().wf()
        &&& self.headers().wf()
        &&& self.remaining() <= self.supply()
        &&& forall|i: int|
            0 <= i < self.table().entries().len() ==> #[trigger] self.table().entries()[i].id
                < self.next_id()
    }

    /// A scan of a collection of `supply` tokens, from id 0.
    pub fn new(supply: u64) -> (r: Enumeration)
        ensures
            r.wf(),
            r.supply() == supply,
            r.next_id() == 0,
            r.remaining() == supply,
            r.table().entries().len() == 0,
            r.headers()@ == HeaderSet::new_spec(),
    {
        Enumeration {
            supply,
            next_id: 0,
            remaining: supply,
            table: MetadataTable::new(),
            headers: HeaderSet::new(),
        }
    }

    /// Finished once nothing remains; abandoned once the probe limit is
    /// reached; otherwise the next id to query.
    pub fn next_action(&self) -> (r: Action)
        ensures
            r == (if self.remaining() == 0 {
                Action::Finished
            } else if self.next_id() >= probe_limit(self.supply()) {
                Action::ProbeLimitExceeded
            } else {
                Action::QueryUri(self.next_id())
            }),
    {
        if self.remaining == 0 {
            Action::Finished
        } else {
            if self.next_id >= probe_limit_of(self.supply) {
                Action::ProbeLimitExceeded
            } else {
                Action::QueryUri(self.next_id)
            }
        }
    }

    /// Folds in the outcome of the query for the current id and moves to the
    /// next id. A rejected id does not count against the supply; a resolved
    /// or failed one does. A resolved document is stored under the id and its
    /// trait types join the columns. Where no query is due the state stays.
    pub fn record(&mut self, event: Event)
        requires
            old(self).wf(),
        ensures
            final(self).wf(),
            !old(self).awaiting_query() ==> *final(self) == *old(self),
            old(self).awaiting_query() ==> final(self).supply() == old(self).supply(),
            old(self).awaiting_query() ==> final(self).next_id() == old(self).next_id() + 1,
            old(self).awaiting_query() ==> match event {
                Event::Resolved(raw) => {
                    let e = final(self).table().entries();
                    &&& final(self).remaining() == old(self).remaining() - 1
                    &&& e.len() == old(self).table().entries().len() + 1
                    &&& e.drop_last() == old(self).table().entries()
                    &&& e.last().id == old(self).next_id()
                    &&& metadata_normalizes_to(raw, e.last().metadata)
                    &&& final(self).headers()@ == fold_traits(
                        old(self).headers()@,
                        trait_types(e.last().metadata.attributes@),
                    )
                },
                Event::Failed(_) => {
                    &&& final(self).remaining() == old(self).remaining() - 1
                    &&& final(self).table() == old(self).table()
                    &&& final(self).headers() == old(self).headers()
                },
                Event::UriRejected => {
                    &&& final(self).remaining() == old(self).remaining()
                    &&& final(self).table() == old(self).table()
                    &&& final(self).headers() == old(self).headers()
                },
            },
    {
        if self.remaining == 0 || self.next_id >= probe_limit_of(self.supply) {
            return;
        }
        let id = self.next_id;
        match event {
            Event::UriRejected => {},
            Event::Resolved(raw) => {
                let m = normalize_metadata(&raw);
                self.headers.add_traits(&m.attributes);
                proof {
                    lemma_fresh_key(self.table.entries(), id);
                }
                self.table.insert(id, m);
                self.remaining = self.remaining - 1;
                proof {
                    let e = self.table.entries();
                    assert(e.drop_last() =~= old(self).table().entries());
                }
            },
            Event::Failed(_) => {
                self.remaining = self.remaining - 1;
            },
        }
        self.next_id = id + 1;
    }

    pub fn supply_count(&self) -> (r: u64)
        ensures
            r == self.supply(),
    {
        self.supply
    }

    pub fn remaining_count(&self) -> (r: u64)
        ensures
            r == self.remaining(),
    {
        self.remaining
    }

    /// The table and the columns gathered so far.
    pub fn into_results(self) -> (r: (MetadataTable, HeaderSet))
        ensures
            r.0 == self.table(),
            r.1 == self.headers(),
    {
        (self.table, self.headers)
    }
}

fn probe_limit_of(supply: u64) -> (r: u64)
    ensures
        r == probe_limit(supply),
{
    if supply > u64::MAX / PROBE_FACTOR {
        u64::MAX
    } else {
        supply * PROBE_FACTOR
    }
}

proof fn lemma_fresh_key(s: Seq<TokenEntry>, id: u64)
    requires
        forall|i: int| 0 <= i < s.len() ==> #[trigger] s[i].id < id,
    ensures
        crate::export::key_index(s, id) == -1,
{
    lemma_fresh_key_upto(s, id, s.len() as int);
}

proof fn lemma_fresh_key_upto(s: Seq<TokenEntry>, id: u64, end: int)
    requires
        end <= s.len(),
        forall|i: int| 0 <= i < s.len() ==> #[trigger] s[i].id < id,
    ensures
        crate::export::key_index_upto(s, id, end) == -1,
    decreases end,
{
    if end > 0 {
        assert(s[end - 1].id < id);
        lemma_fresh_key_upto(s, id, end - 1);
    }
}

} // verus!
