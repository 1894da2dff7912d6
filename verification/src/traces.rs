//! The coverage sink: one record per instrumentation point, each with the
//! number of times it was reached.

use vstd::prelude::*;

verus! {

/// One instrumentation point.
#[derive(Clone, Copy, Debug, PartialEq, Eq, Structural)]
pub struct Trace {
    /// The source line that the point stands for.
    pub line: u64,
    /// Where the point lies in the test binary, where that is known.
    pub address: Option<u64>,
    /// How often the point was reached.
    pub hits: u64,
}

/// What one notification does to one record: a record at `address` counts
/// one more, up to the largest count that fits; every other record stays.
pub open spec fn hit_trace(trace: Trace, address: u64) -> Trace {
    if trace.address == Some(address) && trace.hits < u64::MAX {
        Trace { hits: (trace.hits + 1) as u64, ..trace }
    } else {
        trace
    }
}

/// What one notification does to all records.
pub open spec fn hit_all(traces: Seq<Trace>, address: u64) -> Seq<Trace> {
    traces.map_values(|t: Trace| hit_trace(t, address))
}

/// The sum of the counts of the records at `address`.
pub open spec fn hits_at(traces: Seq<Trace>, address: u64) -> nat
    decreases traces.len(),
{
    if traces.len() == 0 {
        0
    } else {
        let rest = hits_at(traces.drop_last(), address);
        if traces.last().address == Some(address) {
            rest + traces.last().hits as nat
        } else {
            rest
        }
    }
}

/// The addresses of the records that have one, in the order of the records.
pub open spec fn addresses_of(traces: Seq<Trace>) -> Seq<u64>
    decreases traces.len(),
{
    if traces.len() == 0 {
        Seq::empty()
    } else {
        let rest = addresses_of(traces.drop_last());
        match traces.last().address {
            Some(a) => rest.push(a),
            None => rest,
        }
    }
}

/// The number of records that were reached at least once.
pub open spec fn covered_of(traces: Seq<Trace>) -> nat
    decreases traces.len(),
{
    if traces.len() == 0 {
        0
    } else if traces.last().hits > 0 {
        covered_of(traces.drop_last()) + 1
    } else {
        covered_of(traces.drop_last())
    }
}

/// No more records are reached than there are.
pub proof fn lemma_covered_bounded(traces: Seq<Trace>)
    ensures
        covered_of(traces) <= traces.len(),
    decreases traces.len(),
{
    if traces.len() > 0 {
        lemma_covered_bounded(traces.drop_last());
    }
}

/// The records of one test binary.
#[derive(Debug)]
pub struct TraceMap {
    traces: Vec<Trace>,
}

impl View for TraceMap {
    type V = Seq<Trace>;

    closed spec fn view(&self) -> Seq<Trace> {
        self.traces@
    }
}

impl TraceMap {
    /// A sink without records.
    pub fn new() -> (map: TraceMap)
        ensures
            map@ == Seq::<Trace>::empty(),
    {
        TraceMap { traces: Vec::new() }
    }

    /// Adds a record behind those that are there.
    pub fn add_trace(&mut self, trace: Trace)
        ensures
            final(self)@ == old(self)@.push(trace),
    {
        self.traces.push(trace);
    }

    /// The number of records.
    pub fn len(&self) -> (n: usize)
        ensures
            n == self@.len(),
    {
        self.traces.len()
    }

    /// The record at `index`, if there is one.
    pub fn get(&self, index: usize) -> (trace: Option<Trace>)
        ensures
            trace == if index < self@.len() {
                Some(self@[index as int])
            } else {
                None
            },
    {
        if index < self.traces.len() {
            Some(self.traces[index])
        } else {
            None
        }
    }

    /// Notes that the point at `address` was reached once more. Every record
    /// at that address counts it; a count that is full stays as it is.
    pub fn record_hit(&mut self, address: u64)
        ensures
            final(self)@ == hit_all(old(self)@, address),
    {
        let mut i: usize = 0;
        while i < self.traces.len()
            invariant
                i <= self.traces@.len(),
                self.traces@.len() == old(self)@.len(),
                forall|j: int| 0 <= j < i ==> self.traces@[j] == hit_trace(old(self)@[j], address),
                forall|j: int| i <= j < self.traces@.len() ==> self.traces@[j] == old(self)@[j],
            decreases self.traces@.len() - i,
        {
            let trace = self.traces[i];
            if trace.address == Some(address) && trace.hits < u64::MAX {
                self.traces.set(i, Trace { line: trace.line, address: trace.address, hits: trace.hits + 1 });
            }
            i += 1;
        }
        assert(self.traces@ =~= hit_all(old(self)@, address));
    }

    /// The sum of the counts of the records at `address`, as far as it fits.
    pub fn hits(&self, address: u64) -> (total: u64)
        ensures
            total == if hits_at(self@, address) <= u64::MAX {
                hits_at(self@, address) as u64
            } else {
                u64::MAX
            },
    {
        let mut total: u64 = 0;
        let mut i: usize = 0;
        while i < self.traces.len()
            invariant
                i <= self.traces@.len(),
                total == if hits_at(self.traces@.take(i as int), address) <= u64::MAX {
                    hits_at(self.traces@.take(i as int), address) as u64
                } else {
                    u64::MAX
                },
            decreases self.traces@.len() - i,
        {
            let trace = self.traces[i];
            proof {
                let next = self.traces@.take(i + 1);
                assert(next.drop_last() =~= self.traces@.take(i as int));
                assert(next.last() == trace);
            }
            if trace.address == Some(address) {
                total = total.saturating_add(trace.hits);
            }
            i += 1;
        }
        assert(self.traces@.take(i as int) =~= self.traces@);
        total
    }

    /// The number of records that were reached at least once.
    pub fn covered(&self) -> (count: usize)
        ensures
            count == covered_of(self@),
            count <= self@.len(),
    {
        let mut count: usize = 0;
        let mut i: usize = 0;
        while i < self.traces.len()
            invariant
                i <= self.traces@.len(),
                count == covered_of(self.traces@.take(i as int)),
                count <= i,
            decreases self.traces@.len() - i,
        {
            let trace = self.traces[i];
            proof {
                let next = self.traces@.take(i + 1);
                assert(next.drop_last() =~= self.traces@.take(i as int));
                assert(next.last() == trace);
            }
            if trace.hits > 0 {
                count += 1;
            }
            i += 1;
        }
        assert(self.traces@.take(i as int) =~= self.traces@);
        count
    }

    /// The number of records that can be reached: all of them.
    pub fn coverable(&self) -> (count: usize)
        ensures
            count == self@.len(),
    {
        self.traces.len()
    }

    /// The addresses of the records that have one, in the order of the
    /// records.
    pub fn addresses(&self) -> (found: Vec<u64>)
        ensures
            found@ == addresses_of(self@),
    {
        let mut found: Vec<u64> = Vec::new();
        let mut i: usize = 0;
        while i < self.traces.len()
            invariant
                i <= self.traces@.len(),
                found@ == addresses_of(self.traces@.take(i as int)),
            decreases self.traces@.len() - i,
        {
            let trace = self.traces[i];
            proof {
                let next = self.traces@.take(i + 1);
                assert(next.drop_last() =~= self.traces@.take(i as int));
                assert(next.last() == trace);
            }
            match trace.address {
                Some(a) => {
                    found.push(a);
                },
                None => {},
            }
            i += 1;
        }
        assert(self.traces@.take(i as int) =~= self.traces@);
        found
    }
}

} // verus!
