//! The shared state store: the single in-memory holder of the current
//! record sequence.
//!
//! The store is an explicitly owned handle, injected into the handlers; it
//! exposes the records only through [`AppState::read`] and
//! [`AppState::replace`], so every replacement is wholesale and a snapshot
//! handed out by `read` never mixes two generations of data.  The reader /
//! writer lock that shares one store between concurrent requests lives with
//! the embedding server, around these two calls.

use vstd::prelude::*;

use crate::parser::ParseError;
use crate::record::{Record, RecordModel};

verus! {

/// The application state: the current record sequence.
pub struct AppState {
    records: Vec<Record>,
}

impl View for AppState {
    type V = Seq<RecordModel>;

    closed spec fn view(&self) -> Seq<RecordModel> {
        self.records.deep_view()
    }
}

impl AppState {
    /// An empty store.
    pub fn new() -> (s: AppState)
        ensures
            s@ == Seq::<RecordModel>::empty(),
    {
        let s = AppState { records: Vec::new() };
        proof {
            assert(s@ =~= Seq::<RecordModel>::empty());
        }
        s
    }

    /// Returns a consistent snapshot of the current records.
    pub fn read(&self) -> (r: Vec<Record>)
        ensures
            r.deep_view() == self@,
    {
        let mut r: Vec<Record> = Vec::new();
        let n = self.records.len();
        let mut i: usize = 0;
        while i < n
            invariant
                i <= n,
                n == self.records@.len(),
                r@.len() == i,
                forall|j: int| 0 <= j < i ==> r@[j] == self.records@[j],
            decreases n - i,
        {
            r.push(self.records[i].duplicate());
            i = i + 1;
        }
        proof {
            assert(r@ =~= self.records@);
            assert(r.deep_view() =~= self.records.deep_view());
        }
        r
    }

    /// Atomically swaps the stored sequence for `new_records`; no merge.
    pub fn replace(&mut self, new_records: Vec<Record>)
        ensures
            final(self)@ == new_records.deep_view(),
    {
        self.records = new_records;
    }
}

/// What to do when the optional startup preload fails to parse.
pub enum StartupPolicy {
    /// Start with an empty store.
    Fallback,
    /// Refuse to start, surfacing the parse error.
    Abort,
}

/// Decides the initial record set from the outcome of the optional startup
/// preload: no preload gives an empty set, a parsed preload is taken as is,
/// and a failed parse either falls back to an empty set or aborts startup,
/// per the chosen policy.
pub fn initial_records(loaded: Option<Result<Vec<Record>, ParseError>>, policy: StartupPolicy) -> (r:
    Result<Vec<Record>, ParseError>)
    ensures
        match loaded {
            None => r is Ok && r->Ok_0.deep_view() == Seq::<RecordModel>::empty(),
            Some(Ok(v)) => r == Ok::<_, ParseError>(v),
            Some(Err(e)) => match policy {
                StartupPolicy::Fallback => r is Ok && r->Ok_0.deep_view() == Seq::<
                    RecordModel,
                >::empty(),
                StartupPolicy::Abort => r == Err::<Vec<Record>, _>(e),
            },
        },
{
    match loaded {
        None => {
            let v: Vec<Record> = Vec::new();
            proof {
                assert(v.deep_view() =~= Seq::<RecordModel>::empty());
            }
            Ok(v)
        },
        Some(Ok(v)) => Ok(v),
        Some(Err(e)) => match policy {
            StartupPolicy::Fallback => {
                let v: Vec<Record> = Vec::new();
                proof {
                    assert(v.deep_view() =~= Seq::<RecordModel>::empty());
                }
                Ok(v)
            },
            StartupPolicy::Abort => Err(e),
        },
    }
}

} // verus!
