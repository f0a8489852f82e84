//! Results of measured operations: durations, outcome keys and failures,
//! gathered by a single owner and tallied into an outcome histogram.

use vstd::prelude::*;

verus! {

/// How an operation's result is grouped: by the item count it returned, or
/// as a failure.
#[derive(Debug, Clone, Copy, PartialEq, Eq, Structural)]
pub enum OutcomeKey {
    Items(i32),
    Error,
}

/// One measured operation: when it was issued, how long it took, and what
/// it returned (an item count, or the failure's message).
#[derive(Debug)]
pub struct Sample {
    pub issued_nanos: u64,
    pub elapsed_micros: u64,
    pub outcome: Result<i32, String>,
}

/// The histogram key of an outcome.
pub open spec fn key_of(outcome: Result<i32, String>) -> OutcomeKey {
    match outcome {
        Ok(n) => OutcomeKey::Items(n),
        Err(_) => OutcomeKey::Error,
    }
}

/// The failure message of an outcome, if it failed.
pub open spec fn failure_of(outcome: Result<i32, String>) -> Seq<String> {
    match outcome {
        Ok(_) => Seq::empty(),
        Err(m) => seq![m],
    }
}

/// How many times `k` occurs in `s`.
pub open spec fn occurrences(s: Seq<OutcomeKey>, k: OutcomeKey) -> nat
    decreases s.len(),
{
    if s.len() == 0 {
        0
    } else {
        occurrences(s.drop_last(), k) + if s.last() == k {
            1nat
        } else {
            0nat
        }
    }
}

/// `h` lists each key of `s` once, with the number of times it occurs.
pub open spec fn is_tally_of(h: Seq<(OutcomeKey, u64)>, s: Seq<OutcomeKey>) -> bool {
    &&& forall|i: int, j: int| 0 <= i < j < h.len() ==> h[i].0 != h[j].0
    &&& forall|i: int|
        0 <= i < h.len() ==> h[i].1 as nat == occurrences(s, h[i].0) && h[i].1 >= 1
    &&& forall|j: int| 0 <= j < s.len() ==> exists|i: int| 0 <= i < h.len() && h[i].0 == #[trigger] s[j]
}

/// Why a result could not be recorded.
#[derive(Debug, Clone, Copy, PartialEq, Eq, Structural)]
pub enum CollectError {
    /// More results arrived than the collector was sized for.
    Full,
}

/// The durations and outcome keys of the measured operations, in arrival
/// order, and the messages of the failures among them.
pub struct Collector {
    pub capacity: usize,
    pub durations: Vec<u64>,
    pub keys: Vec<OutcomeKey>,
    pub errors: Vec<String>,
}

impl Collector {
    /// One key per duration, and no more of either than the capacity.
    pub open spec fn wf(&self) -> bool {
        &&& self.durations@.len() == self.keys@.len()
        &&& self.keys@.len() <= self.capacity
    }

    /// How many results have been recorded.
    pub open spec fn len(&self) -> nat {
        self.keys@.len()
    }

    /// An empty collector for exactly `capacity` results.
    pub fn new(capacity: usize) -> (r: Collector)
        ensures
            r.wf(),
            r.capacity == capacity,
            r.durations@ == Seq::<u64>::empty(),
            r.keys@ == Seq::<OutcomeKey>::empty(),
            r.errors@ == Seq::<String>::empty(),
    {
        Collector { capacity, durations: Vec::new(), keys: Vec::new(), errors: Vec::new() }
    }

    /// How many results have been recorded.
    pub fn recorded(&self) -> (r: usize)
        requires
            self.wf(),
        ensures
            r as nat == self.len(),
    {
        self.keys.len()
    }

    /// Records one sample, unless the collector is already full.
    pub fn record(&mut self, sample: Sample) -> (r: Result<(), CollectError>)
        requires
            old(self).wf(),
        ensures
            final(self).wf(),
            final(self).capacity == old(self).capacity,
            old(self).len() == old(self).capacity ==> r == Err::<(), CollectError>(
                CollectError::Full,
            ) && final(self).durations@ == old(self).durations@ && final(self).keys@ == old(
                self,
            ).keys@ && final(self).errors@ == old(self).errors@,
            old(self).len() < old(self).capacity ==> r is Ok && final(self).durations@ == old(
                self,
            ).durations@.push(sample.elapsed_micros) && final(self).keys@ == old(self).keys@.push(
                key_of(sample.outcome),
            ) && final(self).errors@ == old(self).errors@ + failure_of(sample.outcome),
    {
        if self.keys.len() == self.capacity {
            return Err(CollectError::Full);
        }
        self.durations.push(sample.elapsed_micros);
        match sample.outcome {
            Ok(n) => {
                self.keys.push(OutcomeKey::Items(n));
            },
            Err(m) => {
                self.keys.push(OutcomeKey::Error);
                self.errors.push(m);
                assert(self.errors@ =~= old(self).errors@ + failure_of(sample.outcome));
            },
        }
        assert(self.errors@ =~= old(self).errors@ + failure_of(sample.outcome));
        Ok(())
    }

    /// Keeps the message of a failed outcome and drops a successful one.
    pub fn record_failure(&mut self, outcome: Result<i32, String>)
        requires
            old(self).wf(),
        ensures
            final(self).wf(),
            final(self).capacity == old(self).capacity,
            final(self).durations@ == old(self).durations@,
            final(self).keys@ == old(self).keys@,
            final(self).errors@ == old(self).errors@ + failure_of(outcome),
    {
        match outcome {
            Ok(_) => {},
            Err(m) => {
                self.errors.push(m);
            },
        }
        assert(self.errors@ =~= old(self).errors@ + failure_of(outcome));
    }
}

proof fn lemma_occurrences_take_step(s: Seq<OutcomeKey>, j: int, k: OutcomeKey)
    requires
        0 <= j < s.len(),
    ensures
        occurrences(s.take(j + 1), k) == occurrences(s.take(j), k) + if s[j] == k {
            1nat
        } else {
            0nat
        },
{
    assert(s.take(j + 1).drop_last() =~= s.take(j));
}

proof fn lemma_occurrences_bound(s: Seq<OutcomeKey>, k: OutcomeKey)
    ensures
        occurrences(s, k) <= s.len(),
    decreases s.len(),
{
    if s.len() > 0 {
        lemma_occurrences_bound(s.drop_last(), k);
    }
}

/// Where `k` stands in `h`, if it does.
fn find_key(h: &Vec<(OutcomeKey, u64)>, k: OutcomeKey) -> (r: Option<usize>)
    ensures
        r matches Some(i) ==> i < h@.len() && h@[i as int].0 == k,
        r is None ==> forall|i: int| 0 <= i < h@.len() ==> h@[i].0 != k,
{
    let mut i: usize = 0;
    while i < h.len()
        invariant
            i <= h@.len(),
            forall|t: int| 0 <= t < i ==> h@[t].0 != k,
        decreases h@.len() - i,
    {
        if h[i].0 == k {
            return Some(i);
        }
        i = i + 1;
    }
    None
}

/// The outcome histogram of `keys`: each key that occurs, once, with its
/// number of occurrences, in order of first occurrence.
pub fn tally(keys: &Vec<OutcomeKey>) -> (h: Vec<(OutcomeKey, u64)>)
    ensures
        is_tally_of(h@, keys@),
{
    let mut h: Vec<(OutcomeKey, u64)> = Vec::new();
    let mut j: usize = 0;
    while j < keys.len()
        invariant
            j <= keys@.len(),
            is_tally_of(h@, keys@.take(j as int)),
        decreases keys@.len() - j,
    {
        let k = keys[j];
        proof {
            assert forall|t: int| 0 <= t < h@.len() implies occurrences(
                keys@.take(j as int + 1),
                h@[t].0,
            ) == occurrences(keys@.take(j as int), h@[t].0) + if keys@[j as int] == h@[t].0 {
                1nat
            } else {
                0nat
            } by {
                lemma_occurrences_take_step(keys@, j as int, h@[t].0);
            }
            lemma_occurrences_take_step(keys@, j as int, k);
            lemma_occurrences_bound(keys@.take(j as int), k);
        }
        let old_h = Ghost(h@);
        match find_key(&h, k) {
            Some(i) => {
                let c = h[i].1;
                h.set(i, (k, c + 1));
                proof {
                    assert forall|t: int| 0 <= t < j + 1 implies exists|i2: int|
                        0 <= i2 < h@.len() && h@[i2].0 == #[trigger] keys@.take(j as int + 1)[t] by {
                        if t < j {
                            assert(keys@.take(j as int + 1)[t] == keys@.take(j as int)[t]);
                            let w = choose|i2: int|
                                0 <= i2 < old_h@.len() && old_h@[i2].0 == keys@.take(j as int)[t];
                            assert(h@[w].0 == old_h@[w].0);
                        } else {
                            assert(h@[i as int].0 == k);
                        }
                    }
                }
            },
            None => {
                h.push((k, 1));
                proof {
                    assert forall|t: int| 0 <= t < j + 1 implies exists|i2: int|
                        0 <= i2 < h@.len() && h@[i2].0 == #[trigger] keys@.take(j as int + 1)[t] by {
                        if t < j {
                            assert(keys@.take(j as int + 1)[t] == keys@.take(j as int)[t]);
                            let w = choose|i2: int|
                                0 <= i2 < old_h@.len() && old_h@[i2].0 == keys@.take(j as int)[t];
                            assert(h@[w].0 == old_h@[w].0);
                        } else {
                            assert(h@[old_h@.len() as int].0 == k);
                        }
                    }
                    assert(occurrences(keys@.take(j as int), k) == 0) by {
                        if occurrences(keys@.take(j as int), k) > 0 {
                            lemma_occurrence_witness(keys@.take(j as int), k);
                        }
                    }
                }
            },
        }
        j = j + 1;
    }
    assert(keys@.take(keys@.len() as int) =~= keys@);
    h
}

proof fn lemma_occurrence_witness(s: Seq<OutcomeKey>, k: OutcomeKey)
    requires
        occurrences(s, k) > 0,
    ensures
        exists|t: int| 0 <= t < s.len() && s[t] == k,
    decreases s.len(),
{
    if s.last() != k {
        lemma_occurrence_witness(s.drop_last(), k);
        let t = choose|t: int| 0 <= t < s.drop_last().len() && s.drop_last()[t] == k;
        assert(s[t] == k);
    } else {
        assert(s[s.len() - 1] == k);
    }
}

proof fn lemma_occurrences_uniform(s: Seq<OutcomeKey>, k: OutcomeKey)
    requires
        forall|i: int| 0 <= i < s.len() ==> s[i] == OutcomeKey::Error,
    ensures
        occurrences(s, OutcomeKey::Error) == s.len(),
        k != OutcomeKey::Error ==> occurrences(s, k) == 0,
    decreases s.len(),
{
    if s.len() > 0 {
        lemma_occurrences_uniform(s.drop_last(), k);
    }
}

/// When every recorded operation failed, the histogram has a single entry:
/// the failure key, with the number of operations.
pub proof fn lemma_all_failed_histogram(h: Seq<(OutcomeKey, u64)>, s: Seq<OutcomeKey>)
    requires
        is_tally_of(h, s),
        s.len() > 0,
        forall|i: int| 0 <= i < s.len() ==> s[i] == OutcomeKey::Error,
    ensures
        h.len() == 1,
        h[0].0 == OutcomeKey::Error,
        h[0].1 == s.len(),
        forall|n: i32| occurrences(s, OutcomeKey::Items(n)) == 0,
{
    assert forall|n: i32| occurrences(s, OutcomeKey::Items(n)) == 0 by {
        lemma_occurrences_uniform(s, OutcomeKey::Items(n));
    }
    lemma_occurrences_uniform(s, OutcomeKey::Error);
    assert forall|i: int| 0 <= i < h.len() implies h[i].0 == OutcomeKey::Error by {
        if let OutcomeKey::Items(n) = h[i].0 {
            lemma_occurrences_uniform(s, h[i].0);
        }
    }
    let w = choose|i: int| 0 <= i < h.len() && h[i].0 == s[0];
    if h.len() > 1 {
        assert(h[0].0 == h[1].0);
    }
}

} // verus!
