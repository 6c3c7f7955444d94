//! A batch of requests, one per URL, whose outcomes arrive in any order.
use vstd::prelude::*;
use crate::outcome::{outcome_for, OutcomeView, RequestOutcome};
use crate::request::PreparedRequest;

verus! {

/// Why an outcome could not be recorded.
#[derive(Clone, Copy, Debug, PartialEq, Eq, Structural)]
pub enum BatchError {
    /// No request of the batch has this index.
    UnknownIndex,
    /// The request at this index already has its outcome.
    AlreadySettled,
}

/// The requests of one batch and the outcome of each that has finished.
#[derive(Debug)]
pub struct Batch {
    urls: Vec<String>,
    slots: Vec<Option<RequestOutcome>>,
}

/// The model of a batch: the URL of each request and its outcome so far.
pub struct BatchView {
    pub urls: Seq<Seq<char>>,
    pub slots: Seq<Option<OutcomeView>>,
}

/// The view of an outcome that may still be missing.
pub open spec fn slot_view(o: Option<RequestOutcome>) -> Option<OutcomeView> {
    match o {
        Some(x) => Some(x@),
        None => None,
    }
}

impl View for Batch {
    type V = BatchView;

    closed spec fn view(&self) -> BatchView {
        BatchView { urls: self.urls.deep_view(), slots: self.slots@.map_values(|o| slot_view(o)) }
    }
}

/// One slot per URL.
pub open spec fn batch_wf(b: BatchView) -> bool {
    b.urls.len() == b.slots.len()
}

/// Every request of the batch has its outcome.
pub open spec fn all_settled(b: BatchView) -> bool {
    forall|i: int| 0 <= i < b.slots.len() ==> (#[trigger] b.slots[i]) is Some
}

/// No request of the batch has its outcome yet.
pub open spec fn none_settled(b: BatchView) -> bool {
    forall|i: int| 0 <= i < b.slots.len() ==> (#[trigger] b.slots[i]) is None
}

/// The batch after the request at `index` finished with `response` (its body,
/// or `None` when the transport failed). An index out of range, or one that is
/// already settled, leaves the batch as it is.
pub open spec fn settle_model(b: BatchView, index: int, response: Option<Seq<u8>>) -> BatchView {
    if 0 <= index < b.slots.len() && b.slots[index] is None {
        BatchView {
            urls: b.urls,
            slots: b.slots.update(index, Some(outcome_for(b.urls[index], response))),
        }
    } else {
        b
    }
}

/// What recording an outcome at `index` reports.
pub open spec fn settle_result(b: BatchView, index: int) -> Result<(), BatchError> {
    if !(0 <= index < b.slots.len()) {
        Err(BatchError::UnknownIndex)
    } else if b.slots[index] is Some {
        Err(BatchError::AlreadySettled)
    } else {
        Ok(())
    }
}

/// The batch after the requests finish in the given order; `responses[i]` is
/// what the request at index `i` got back.
pub open spec fn settle_in_order(
    b: BatchView,
    order: Seq<int>,
    responses: Seq<Option<Seq<u8>>>,
) -> BatchView
    decreases order.len(),
{
    if order.len() == 0 {
        b
    } else {
        let k = order.last();
        settle_model(settle_in_order(b, order.drop_last(), responses), k, responses[k])
    }
}

proof fn lemma_settle_prefix(b: BatchView, order: Seq<int>, responses: Seq<Option<Seq<u8>>>)
    requires
        batch_wf(b),
        none_settled(b),
        responses.len() == b.urls.len(),
        forall|k: int| 0 <= k < order.len() ==> 0 <= #[trigger] order[k] < b.urls.len(),
    ensures
        settle_in_order(b, order, responses).urls == b.urls,
        settle_in_order(b, order, responses).slots.len() == b.slots.len(),
        forall|i: int|
            0 <= i < b.slots.len() ==> (#[trigger] settle_in_order(b, order, responses).slots[i])
                == if order.contains(i) {
                Some(outcome_for(b.urls[i], responses[i]))
            } else {
                None::<OutcomeView>
            },
    decreases order.len(),
{
    if order.len() > 0 {
        let rest = order.drop_last();
        lemma_settle_prefix(b, rest, responses);
        let k = order.last();
        assert forall|i: int| 0 <= i < b.slots.len() implies order.contains(i) == (rest.contains(i)
            || i == k) by {
            if rest.contains(i) {
                let j = choose|j: int| 0 <= j < rest.len() && rest[j] == i;
                assert(order[j] == i);
            }
            if i == k {
                assert(order[order.len() - 1] == i);
            }
            if order.contains(i) && i != k {
                let j = choose|j: int| 0 <= j < order.len() && order[j] == i;
                assert(rest[j] == i);
            }
        }
    }
}

/// However the requests of a fresh batch finish, once each has finished at
/// least once the batch holds exactly one outcome per URL, and the outcome at
/// each index is determined by that request's own response alone: a failure
/// of one request leaves every other outcome as it would otherwise be, and
/// equal URLs keep separate outcomes.
pub proof fn lemma_settled_in_any_order(
    b: BatchView,
    order: Seq<int>,
    responses: Seq<Option<Seq<u8>>>,
)
    requires
        batch_wf(b),
        none_settled(b),
        responses.len() == b.urls.len(),
        forall|k: int| 0 <= k < order.len() ==> 0 <= #[trigger] order[k] < b.urls.len(),
        forall|i: int| 0 <= i < b.urls.len() ==> order.contains(i),
    ensures
        batch_wf(settle_in_order(b, order, responses)),
        settle_in_order(b, order, responses).urls == b.urls,
        all_settled(settle_in_order(b, order, responses)),
        forall|i: int|
            0 <= i < b.urls.len() ==> (#[trigger] settle_in_order(b, order, responses).slots[i])
                == Some(outcome_for(b.urls[i], responses[i])),
{
    lemma_settle_prefix(b, order, responses);
}

impl Batch {
    /// A batch of the given requests, none of them finished.
    pub fn new(prepared: &Vec<PreparedRequest>) -> (r: Batch)
        ensures
            batch_wf(r@),
            none_settled(r@),
            r@.urls.len() == prepared@.len(),
            forall|i: int| 0 <= i < prepared@.len() ==> r@.urls[i] == (#[trigger] prepared@[i])@.url,
    {
        let mut urls: Vec<String> = Vec::new();
        let mut slots: Vec<Option<RequestOutcome>> = Vec::new();
        let mut i: usize = 0;
        while i < prepared.len()
            invariant
                i <= prepared.len(),
                urls@.len() == i,
                slots@.len() == i,
                forall|j: int| 0 <= j < i ==> (#[trigger] urls@[j])@ == prepared@[j]@.url,
                forall|j: int| 0 <= j < i ==> (#[trigger] slots@[j]) is None,
            decreases prepared.len() - i,
        {
            urls.push(prepared[i].url.clone());
            slots.push(None);
            i = i + 1;
        }
        Batch { urls, slots }
    }

    /// The number of requests in the batch.
    pub fn len(&self) -> (r: usize)
        requires
            batch_wf(self@),
        ensures
            r == self@.urls.len(),
    {
        self.urls.len()
    }

    /// Records that the request at `index` finished: `response` is the body
    /// it got back, or `None` when the transport failed.
    pub fn settle(&mut self, index: usize, response: Option<&[u8]>) -> (r: Result<(), BatchError>)
        requires
            batch_wf(old(self)@),
        ensures
            batch_wf(final(self)@),
            r == settle_result(old(self)@, index as int),
            final(self)@ == settle_model(
                old(self)@,
                index as int,
                match response {
                    Some(b) => Some(b@),
                    None => None,
                },
            ),
    {
        if index >= self.slots.len() {
            return Err(BatchError::UnknownIndex);
        }
        if self.slots[index].is_some() {
            return Err(BatchError::AlreadySettled);
        }
        let outcome = RequestOutcome::from_response(self.urls[index].as_str(), response);
        let ghost old_slots = self.slots@;
        self.slots[index] = Some(outcome);
        proof {
            assert(self.slots@ == old_slots.update(index as int, Some(outcome)));
            assert(self@.slots =~= old(self)@.slots.update(
                index as int,
                Some(outcome_for(
                    old(self)@.urls[index as int],
                    match response {
                        Some(b) => Some(b@),
                        None => None,
                    },
                )),
            ));
        }
        Ok(())
    }

    /// The outcome of the request at `index`, if it has finished.
    pub fn outcome(&self, index: usize) -> (r: Option<&RequestOutcome>)
        requires
            batch_wf(self@),
        ensures
            r is None <==> (index >= self@.slots.len() || self@.slots[index as int] is None),
            r matches Some(o) ==> self@.slots[index as int] == Some(o@),
    {
        if index >= self.slots.len() {
            return None;
        }
        self.slots[index].as_ref()
    }

    /// Whether every request of the batch has finished.
    pub fn is_complete(&self) -> (r: bool)
        requires
            batch_wf(self@),
        ensures
            r == all_settled(self@),
    {
        let mut i: usize = 0;
        while i < self.slots.len()
            invariant
                i <= self.slots.len(),
                forall|j: int| 0 <= j < i ==> (#[trigger] self@.slots[j]) is Some,
            decreases self.slots.len() - i,
        {
            if self.slots[i].is_none() {
                assert(self@.slots[i as int] is None);
                return false;
            }
            i = i + 1;
        }
        true
    }

    /// The outcomes, one per request and in the order of the requests; `None`
    /// while some request has not finished.
    pub fn into_outcomes(self) -> (r: Option<Vec<RequestOutcome>>)
        requires
            batch_wf(self@),
        ensures
            r is Some <==> all_settled(self@),
            r matches Some(v) ==> v@.len() == self@.urls.len() && forall|i: int|
                0 <= i < v@.len() ==> self@.slots[i] == Some((#[trigger] v@[i])@),
    {
        if !self.is_complete() {
            return None;
        }
        let ghost whole = self@;
        let mut slots = self.slots;
        let mut out: Vec<RequestOutcome> = Vec::new();
        while slots.len() > 0
            invariant
                out@.len() + slots@.len() == whole.slots.len(),
                forall|j: int|
                    0 <= j < slots@.len() ==> slot_view(#[trigger] slots@[j]) == whole.slots[j
                        + out@.len()],
                forall|j: int| 0 <= j < out@.len() ==> whole.slots[j] == Some((#[trigger] out@[j])@),
                all_settled(whole),
            decreases slots@.len(),
        {
            let ghost k = out@.len() as int;
            assert(slot_view(slots@[0]) == whole.slots[k]);
            match slots.remove(0) {
                Some(o) => {
                    out.push(o);
                },
                None => {
                    assert(whole.slots[k] is Some);
                },
            }
        }
        Some(out)
    }
}

} // verus!
