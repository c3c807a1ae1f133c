//! The bookkeeping of a load run: which request to send next, how many may
//! be under way at once, and which outcomes have come back.
//!
//! The dispatcher sends nothing itself. Its caller asks it what to do, sends
//! the request or waits for one to end, and reports back. Requests are
//! numbered from zero in the order in which they are launched; outcomes may
//! come back in any order.

use crate::record::ResultRecord;
use vstd::prelude::*;

verus! {

/// What the caller of a [`Dispatcher`] is to do next.
#[derive(Clone, Copy, Debug, PartialEq, Eq, Structural)]
pub enum Action {
    /// Send the next request: a slot is free and requests are left.
    Launch,
    /// Wait for a request under way to end.
    Await,
    /// Every request has been sent and has ended.
    Finish,
}

/// How many entries of `flags` are set.
pub open spec fn count_true(flags: Seq<bool>) -> nat
    decreases flags.len(),
{
    if flags.len() == 0 {
        0
    } else {
        count_true(flags.drop_last()) + if flags.last() {
            1nat
        } else {
            0nat
        }
    }
}

/// Whether `records` holds the outcome of request `index`.
pub open spec fn has_record_of(records: Seq<ResultRecord>, index: int) -> bool {
    exists|k: int| 0 <= k < records.len() && (#[trigger] records[k]).index == index
}

/// The state of a load run.
pub ghost struct DispatchState {
    /// How many requests the run is to make.
    pub total: nat,
    /// How many requests may be under way at once.
    pub limit: nat,
    /// One flag for each request launched so far, set while the request is
    /// under way.
    pub outstanding: Seq<bool>,
    /// The outcomes reported so far, in the order of their arrival.
    pub records: Seq<ResultRecord>,
}

impl DispatchState {
    /// How many requests have been launched.
    pub open spec fn launched(self) -> nat {
        self.outstanding.len()
    }

    /// How many requests are under way.
    pub open spec fn in_flight(self) -> nat {
        count_true(self.outstanding)
    }

    /// Whether request `index` is under way.
    pub open spec fn is_in_flight(self, index: usize) -> bool {
        index < self.outstanding.len() && self.outstanding[index as int]
    }

    /// Whether another request may be launched now.
    pub open spec fn can_launch(self) -> bool {
        self.launched() < self.total && self.in_flight() < self.limit
    }

    /// Whether the run is over: every request was launched and none is
    /// under way.
    pub open spec fn finished(self) -> bool {
        self.launched() == self.total && self.in_flight() == 0
    }

    /// What is to be done in this state.
    pub open spec fn next_action(self) -> Action {
        if self.can_launch() {
            Action::Launch
        } else if self.in_flight() > 0 {
            Action::Await
        } else {
            Action::Finish
        }
    }

    /// The state after the next request has been launched.
    pub open spec fn after_launch(self) -> DispatchState {
        DispatchState { outstanding: self.outstanding.push(true), ..self }
    }

    /// The state after the outcome `record` of a request under way has been
    /// reported.
    pub open spec fn after_completion(self, record: ResultRecord) -> DispatchState {
        DispatchState {
            outstanding: self.outstanding.update(record.index as int, false),
            records: self.records.push(record),
            ..self
        }
    }

    /// What holds of every state that a run passes through: no more
    /// requests are under way than the limit admits, no more are launched
    /// than the run is to make, and the records are the outcomes of the
    /// launched requests that are no longer under way, one for each.
    pub open spec fn valid(self) -> bool {
        &&& self.limit > 0
        &&& self.launched() <= self.total
        &&& self.in_flight() <= self.limit
        &&& self.records.len() + self.in_flight() == self.launched()
        &&& forall|k: int|
            0 <= k < self.records.len() ==> (#[trigger] self.records[k]).index < self.launched()
                && !self.outstanding[self.records[k].index as int]
        &&& forall|j: int, k: int|
            0 <= j < k < self.records.len() ==> (#[trigger] self.records[j]).index != (
            #[trigger] self.records[k]).index
        &&& forall|i: int|
            0 <= i < self.launched() && !#[trigger] self.outstanding[i] ==> has_record_of(
                self.records,
                i,
            )
    }
}

/// Where no flag is set, each flag is clear.
proof fn lemma_count_true_zero(flags: Seq<bool>)
    requires
        count_true(flags) == 0,
    ensures
        forall|i: int| 0 <= i < flags.len() ==> !flags[i],
    decreases flags.len(),
{
    if flags.len() > 0 {
        lemma_count_true_zero(flags.drop_last());
        assert forall|i: int| 0 <= i < flags.len() implies !flags[i] by {
            if i < flags.len() - 1 {
                assert(flags.drop_last()[i] == flags[i]);
            }
        }
    }
}

/// Clearing a flag that is set leaves one flag fewer set.
proof fn lemma_count_true_clear(flags: Seq<bool>, index: int)
    requires
        0 <= index < flags.len(),
        flags[index],
    ensures
        count_true(flags.update(index, false)) + 1 == count_true(flags),
    decreases flags.len(),
{
    let cleared = flags.update(index, false);
    if index == flags.len() - 1 {
        assert(cleared.drop_last() =~= flags.drop_last());
    } else {
        lemma_count_true_clear(flags.drop_last(), index);
        assert(cleared.drop_last() =~= flags.drop_last().update(index, false));
    }
}

/// A launch leads from a valid state to a valid state.
pub proof fn lemma_launch_keeps_valid(state: DispatchState)
    requires
        state.valid(),
        state.can_launch(),
    ensures
        state.after_launch().valid(),
        state.after_launch().in_flight() == state.in_flight() + 1,
        state.after_launch().launched() == state.launched() + 1,
{
    let next = state.after_launch();
    assert(next.outstanding.drop_last() =~= state.outstanding);
    assert forall|i: int|
        0 <= i < next.launched() && !#[trigger] next.outstanding[i] implies has_record_of(
        next.records,
        i,
    ) by {
        assert(!state.outstanding[i]);
    }
}

/// The report of an outcome for a request under way leads from a valid
/// state to a valid state.
pub proof fn lemma_completion_keeps_valid(state: DispatchState, record: ResultRecord)
    requires
        state.valid(),
        state.is_in_flight(record.index),
    ensures
        state.after_completion(record).valid(),
        state.after_completion(record).in_flight() + 1 == state.in_flight(),
        state.after_completion(record).launched() == state.launched(),
{
    let next = state.after_completion(record);
    let last = state.records.len() as int;
    lemma_count_true_clear(state.outstanding, record.index as int);
    assert forall|k: int| 0 <= k < next.records.len() implies (#[trigger] next.records[k]).index
        < next.launched() && !next.outstanding[next.records[k].index as int] by {
        if k < last {
            assert(next.records[k] == state.records[k]);
        }
    }
    assert forall|j: int, k: int| 0 <= j < k < next.records.len() implies (
    #[trigger] next.records[j]).index != (#[trigger] next.records[k]).index by {
        assert(next.records[j] == state.records[j]);
        if k < last {
            assert(next.records[k] == state.records[k]);
        }
    }
    assert forall|i: int|
        0 <= i < next.launched() && !#[trigger] next.outstanding[i] implies has_record_of(
        next.records,
        i,
    ) by {
        if i == record.index {
            assert(next.records[last].index == i);
        } else {
            assert(!state.outstanding[i]);
            let k = choose|k: int|
                0 <= k < state.records.len() && (#[trigger] state.records[k]).index == i;
            assert(next.records[k].index == i);
        }
    }
}

/// A valid state never has more requests under way than its limit admits.
pub proof fn lemma_in_flight_within_limit(state: DispatchState)
    requires
        state.valid(),
    ensures
        state.in_flight() <= state.limit,
        state.records.len() + state.in_flight() == state.launched(),
        state.launched() <= state.total,
{
}

/// A run that is over has produced exactly one record for each of its
/// requests: as many records as requests, no index twice and none missing.
pub proof fn lemma_finished_run_is_complete(state: DispatchState)
    requires
        state.valid(),
        state.finished(),
    ensures
        state.records.len() == state.total,
        forall|j: int, k: int|
            0 <= j < k < state.records.len() ==> (#[trigger] state.records[j]).index != (
            #[trigger] state.records[k]).index,
        forall|i: int| 0 <= i < state.total ==> #[trigger] has_record_of(state.records, i),
{
    lemma_count_true_zero(state.outstanding);
    assert forall|i: int| 0 <= i < state.total implies #[trigger] has_record_of(
        state.records,
        i,
    ) by {
        assert(!state.outstanding[i]);
    }
}

/// As long as a run is not over, something can be done that brings it
/// nearer to its end: a request can be launched, or one is under way whose
/// outcome is still to come.
pub proof fn lemma_run_never_stalls(state: DispatchState)
    requires
        state.valid(),
    ensures
        state.next_action() is Finish <==> state.finished(),
        state.next_action() is Await ==> state.in_flight() > 0,
        state.next_action() is Launch ==> state.can_launch(),
{
}

/// Keeps the books of one load run.
#[derive(Debug)]
pub struct Dispatcher {
    total: usize,
    limit: usize,
    in_flight: usize,
    outstanding: Vec<bool>,
    records: Vec<ResultRecord>,
}

impl View for Dispatcher {
    type V = DispatchState;

    closed spec fn view(&self) -> DispatchState {
        DispatchState {
            total: self.total as nat,
            limit: self.limit as nat,
            outstanding: self.outstanding@,
            records: self.records@,
        }
    }
}

impl Dispatcher {
    /// Whether the dispatcher is in a state that a run can reach.
    pub closed spec fn wf(&self) -> bool {
        &&& self@.valid()
        &&& self.in_flight == self@.in_flight()
    }

    /// A dispatcher that is well formed is in a valid state.
    pub proof fn lemma_wf_is_valid(&self)
        requires
            self.wf(),
        ensures
            self@.valid(),
    {
    }

    /// Sets up a run of `total` requests with at most `limit` under way at
    /// once. A limit of zero would admit no request and is refused.
    pub fn new(total: usize, limit: usize) -> (dispatcher: Option<Self>)
        ensures
            dispatcher is Some <==> limit > 0,
            dispatcher matches Some(d) ==> d.wf() && d@ == (DispatchState {
                total: total as nat,
                limit: limit as nat,
                outstanding: Seq::empty(),
                records: Seq::empty(),
            }) && d@.in_flight() == 0,
    {
        if limit == 0 {
            return None;
        }
        let dispatcher = Dispatcher {
            total,
            limit,
            in_flight: 0,
            outstanding: Vec::new(),
            records: Vec::new(),
        };
        Some(dispatcher)
    }

    /// What is to be done next.
    pub fn next_action(&self) -> (action: Action)
        requires
            self.wf(),
        ensures
            action == self@.next_action(),
    {
        if self.outstanding.len() < self.total && self.in_flight < self.limit {
            Action::Launch
        } else if self.in_flight > 0 {
            Action::Await
        } else {
            Action::Finish
        }
    }

    /// Launches the next request, where one may be launched, and gives its
    /// index. Where none may be, nothing changes.
    pub fn launch(&mut self) -> (index: Option<usize>)
        requires
            old(self).wf(),
        ensures
            final(self).wf(),
            index is Some <==> old(self)@.can_launch(),
            index matches Some(i) ==> i == old(self)@.launched() && final(self)@ == old(
                self,
            )@.after_launch(),
            index is Some ==> final(self)@.in_flight() == old(self)@.in_flight() + 1,
            index is None ==> final(self)@ == old(self)@,
    {
        if self.outstanding.len() < self.total && self.in_flight < self.limit {
            proof {
                lemma_launch_keeps_valid(self@);
            }
            let index: usize = self.outstanding.len();
            self.outstanding.push(true);
            self.in_flight = self.in_flight + 1;
            Some(index)
        } else {
            None
        }
    }

    /// Takes the outcome of a request. It is accepted where the request
    /// that it names is under way; an outcome for a request that was never
    /// launched, or that has ended already, changes nothing.
    pub fn complete(&mut self, record: ResultRecord) -> (accepted: bool)
        requires
            old(self).wf(),
        ensures
            final(self).wf(),
            accepted == old(self)@.is_in_flight(record.index),
            accepted ==> final(self)@ == old(self)@.after_completion(record),
            accepted ==> final(self)@.in_flight() + 1 == old(self)@.in_flight(),
            !accepted ==> final(self)@ == old(self)@,
    {
        if record.index < self.outstanding.len() && self.outstanding[record.index] {
            proof {
                lemma_completion_keeps_valid(self@, record);
            }
            self.outstanding.set(record.index, false);
            self.records.push(record);
            self.in_flight = self.in_flight - 1;
            true
        } else {
            false
        }
    }

    /// Whether the run is over.
    pub fn is_finished(&self) -> (finished: bool)
        requires
            self.wf(),
        ensures
            finished == self@.finished(),
    {
        self.outstanding.len() == self.total && self.in_flight == 0
    }

    /// How many requests are under way.
    pub fn in_flight(&self) -> (count: usize)
        requires
            self.wf(),
        ensures
            count == self@.in_flight(),
            count <= self@.limit,
    {
        self.in_flight
    }

    /// How many requests have been launched.
    pub fn launched(&self) -> (count: usize)
        ensures
            count == self@.launched(),
    {
        self.outstanding.len()
    }

    /// The outcomes reported so far, in the order of their arrival.
    pub fn records(&self) -> (records: &Vec<ResultRecord>)
        ensures
            records@ == self@.records,
    {
        &self.records
    }

    /// Ends the bookkeeping and hands out the records.
    pub fn into_records(self) -> (records: Vec<ResultRecord>)
        ensures
            records@ == self@.records,
    {
        self.records
    }
}

} // verus!
