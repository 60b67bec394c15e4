//! The cross-thread handoff queue: a first-in-first-out sequence of events,
//! transient failures, and a completion sentinel, plus a single stored waker
//! used to resume a suspended consumer.
//!
//! The storage is crossbeam's unbounded `SegQueue`; its behaviour enters the
//! proofs only through the trusted wrappers below. The queue discipline — the
//! sentinel is terminal, nothing pushed after the close is ever observed, and
//! items come out in insertion order — is verified here.

use vstd::prelude::*;

use crossbeam::queue::SegQueue;
use std::task::Waker;

use crate::device::{EventInfo, EventInfoView, IoError};

verus! {

/// One slot of the handoff queue: an event or failure, or the completion
/// sentinel (`None`), after which nothing further is ever observed.
pub type Entry = Option<Result<EventInfo, IoError>>;

#[verifier::external_type_specification]
#[verifier::external_body]
#[verifier::reject_recursive_types(T)]
pub struct ExSegQueue<T>(SegQueue<T>);

#[verifier::external_type_specification]
#[verifier::external_body]
pub struct ExWaker(Waker);

/// The entries a `SegQueue` holds, head first.
pub uninterp spec fn seg_entries(q: SegQueue<Entry>) -> Seq<Entry>;

/// Relies on crossbeam's `SegQueue::new`: creates an empty queue.
#[verifier::external_body]
fn seg_new() -> (q: SegQueue<Entry>)
    ensures
        seg_entries(q) == Seq::<Entry>::empty(),
{
    SegQueue::new()
}

/// Relies on crossbeam's `SegQueue::push`: appends the element at the tail.
#[verifier::external_body]
fn seg_push(q: &mut SegQueue<Entry>, e: Entry)
    ensures
        seg_entries(*final(q)) == seg_entries(*old(q)).push(e),
{
    q.push(e)
}

/// Relies on crossbeam's `SegQueue::pop`: removes and returns the element at
/// the head; returns `None` exactly when the queue is empty.
#[verifier::external_body]
fn seg_pop(q: &mut SegQueue<Entry>) -> (r: Option<Entry>)
    ensures
        seg_entries(*old(q)).len() == 0 ==> r is None && seg_entries(*final(q)) == seg_entries(*old(q)),
        seg_entries(*old(q)).len() > 0 ==> r == Some(seg_entries(*old(q)).first()) && seg_entries(
            *final(q),
        ) == seg_entries(*old(q)).drop_first(),
{
    q.pop()
}

/// Relies on `std::task::Waker::will_wake`: a best-effort test of whether two
/// wakers would awaken the same task; nothing is assumed of its result.
#[verifier::external_body]
fn waker_will_wake(a: &Waker, b: &Waker) -> bool {
    a.will_wake(b)
}

/// Relies on `std::task::Waker::wake_by_ref`: signals the suspended task to be
/// polled again.
#[verifier::external_body]
fn waker_wake_by_ref(w: &Waker) {
    w.wake_by_ref()
}

/// Relies on `std::task::Waker::clone`: an owned handle awakening the same task.
#[verifier::external_body]
fn waker_clone(w: &Waker) -> Waker {
    w.clone()
}

/// What one queue slot stands for.
pub enum QueueItem {
    /// A device event to hand to the subscriber.
    Event(EventInfoView),
    /// A transient failure reported by the event source.
    Failed(Seq<char>),
    /// The completion sentinel: nothing follows it.
    Done,
}

/// The slot an event or failure occupies once pushed.
pub open spec fn item_of(ev: Result<EventInfo, IoError>) -> QueueItem {
    match ev {
        Ok(e) => QueueItem::Event(e@),
        Err(e) => QueueItem::Failed(e@),
    }
}

spec fn entry_view(e: Entry) -> QueueItem {
    match e {
        None => QueueItem::Done,
        Some(ev) => item_of(ev),
    }
}

/// The mathematical value of a `Queue`.
pub struct QueueView {
    /// Pending slots, head (next to be polled) first.
    pub entries: Seq<QueueItem>,
    /// Whether the completion sentinel has been enqueued.
    pub closed: bool,
    /// Whether a consumer waker is stored.
    pub has_waker: bool,
}

/// The handoff queue together with the stored waker and the close mark.
pub struct Queue {
    inner: SegQueue<Entry>,
    waker: Option<Waker>,
    closed: bool,
}

impl View for Queue {
    type V = QueueView;

    closed spec fn view(&self) -> QueueView {
        QueueView {
            entries: seg_entries(self.inner).map_values(|e: Entry| entry_view(e)),
            closed: self.closed,
            has_waker: self.waker is Some,
        }
    }
}

/// What one poll of the queue reports.
#[derive(Debug)]
pub enum Polled {
    /// Nothing available yet; the caller's waker is stored and will be woken.
    Pending,
    /// The next device event, in insertion order.
    Event(EventInfo),
    /// A transient failure reported by the event source.
    Failed(IoError),
    /// The completion sentinel was reached: no further item will ever come.
    Closed,
}

impl Queue {
    /// Internal validity: the completion sentinel, if present, stands last,
    /// and only a closed queue holds one.
    pub open spec fn wf(self) -> bool {
        forall|i: int|
            0 <= i < self@.entries.len() && self@.entries[i] is Done ==> self@.closed && i
                == self@.entries.len() - 1
    }

    /// An empty, open queue with no stored waker.
    pub fn new() -> (q: Queue)
        ensures
            q.wf(),
            q@.entries.len() == 0,
            !q@.closed,
            !q@.has_waker,
    {
        Queue { inner: seg_new(), waker: None, closed: false }
    }

    /// Wake the stored consumer, if any.
    fn maybe_wake(&self) {
        if let Some(stored) = &self.waker {
            waker_wake_by_ref(stored);
        }
    }

    /// Enqueue an event or failure at the tail and wake a pending consumer.
    ///
    /// Never blocks and never fails. After the queue is closed the entry is
    /// discarded, so a late producer can never make the consumer observe an
    /// item beyond the sentinel.
    pub fn push(&mut self, ev: Result<EventInfo, IoError>)
        requires
            old(self).wf(),
        ensures
            final(self).wf(),
            final(self)@.closed == old(self)@.closed,
            final(self)@.has_waker == old(self)@.has_waker,
            old(self)@.closed ==> final(self)@.entries == old(self)@.entries,
            !old(self)@.closed ==> final(self)@.entries == old(self)@.entries.push(item_of(ev)),
    {
        if !self.closed {
            let ghost before = seg_entries(self.inner);
            seg_push(&mut self.inner, Some(ev));
            proof {
                assert(seg_entries(self.inner).map_values(|e: Entry| entry_view(e)) =~= before
                    .map_values(|e: Entry| entry_view(e)).push(item_of(ev)));
            }
        }
        self.maybe_wake();
    }

    /// Enqueue the completion sentinel and wake a pending consumer. Once the
    /// queue is closed, further closes change nothing.
    pub fn close(&mut self)
        requires
            old(self).wf(),
        ensures
            final(self).wf(),
            final(self)@.closed,
            final(self)@.has_waker == old(self)@.has_waker,
            old(self)@.closed ==> final(self)@.entries == old(self)@.entries,
            !old(self)@.closed ==> final(self)@.entries == old(self)@.entries.push(QueueItem::Done),
    {
        if !self.closed {
            let ghost before = seg_entries(self.inner);
            seg_push(&mut self.inner, None);
            self.closed = true;
            proof {
                assert(seg_entries(self.inner).map_values(|e: Entry| entry_view(e)) =~= before
                    .map_values(|e: Entry| entry_view(e)).push(QueueItem::Done));
            }
        }
        self.maybe_wake();
    }

    /// Remove and report the head slot, or store `w` to be woken later when
    /// the queue is empty. Items come out in the order they were pushed.
    pub fn poll_next(&mut self, w: &Waker) -> (r: Polled)
        requires
            old(self).wf(),
        ensures
            final(self).wf(),
            final(self)@.closed == old(self)@.closed,
            final(self)@.has_waker,
            old(self)@.entries.len() == 0 ==> r is Pending && final(self)@.entries == old(
                self,
            )@.entries,
            old(self)@.entries.len() > 0 ==> final(self)@.entries == old(self)@.entries.drop_first()
                && (match old(self)@.entries.first() {
                QueueItem::Event(ev) => r matches Polled::Event(e) && e@ == ev,
                QueueItem::Failed(m) => r matches Polled::Failed(e) && e@ == m,
                QueueItem::Done => r is Closed,
            }),
    {
        let keep = match &self.waker {
            Some(stored) => waker_will_wake(stored, w),
            None => false,
        };
        if !keep {
            self.waker = Some(waker_clone(w));
        }
        let ghost before = seg_entries(self.inner);
        let popped = seg_pop(&mut self.inner);
        proof {
            if before.len() > 0 {
                assert(seg_entries(self.inner).map_values(|e: Entry| entry_view(e)) =~= before
                    .map_values(|e: Entry| entry_view(e)).drop_first());
            }
        }
        match popped {
            None => Polled::Pending,
            Some(None) => Polled::Closed,
            Some(Some(Ok(ev))) => Polled::Event(ev),
            Some(Some(Err(e))) => Polled::Failed(e),
        }
    }
}

/// No push is ever observed beyond the close: in a valid queue the completion
/// sentinel can only stand in the final position, and only once the queue has
/// been closed.
pub proof fn lemma_sentinel_terminal(q: Queue, i: int)
    requires
        q.wf(),
        0 <= i < q@.entries.len(),
        q@.entries[i] is Done,
    ensures
        i == q@.entries.len() - 1,
        q@.closed,
{
}

} // verus!
