//! The subscription state machine: composes the handoff queue and the
//! identity cache into the sequence of enriched events the subscriber
//! consumes, and owns the lifecycle from first poll to exhaustion or
//! cancellation.
//!
//! One consumer poll is specified by the mathematical function [`drain`]: it
//! walks the pending queue slots in order, delivers attaches (recording them
//! in the cache), replaces the record of a detach with the cached one and
//! evicts it, silently skips a detach whose port the cache never saw, and
//! stops at a failure or at the completion sentinel. `poll_next` is proved to
//! change the subscription exactly as `drain` says.

use vstd::prelude::*;

use std::task::Waker;

use crate::cache::IdentityCache;
use crate::device::{DeviceInfoView, EventInfo, EventInfoView, EventType, IoError};
use crate::queue::{item_of, Polled, Queue, QueueItem};
use crate::trace::{cache_after, trace_ok};

verus! {

/// Lifecycle of a subscription. `Cancelled` and `Complete` are terminal: once
/// reached, every further poll reports that the sequence is finished.
#[derive(Clone, Copy, Debug, PartialEq, Eq, Structural)]
pub enum DetectState {
    /// Events are flowing; the subscription owns the cache and the queue.
    Streaming,
    /// The owner stopped the subscription before exhaustion.
    Cancelled,
    /// The queue yielded its completion sentinel.
    Complete,
}

/// Misuse of the subscription: cancelling one that is no longer streaming.
/// A programming error, deliberately distinct from the I/O error kind.
#[derive(Debug)]
pub struct MisuseError {}

/// What one consumer poll reports.
#[derive(Debug)]
pub enum PollNext {
    /// No item available yet; the caller's waker is stored and will be woken.
    Pending,
    /// The next enriched device event.
    Event(EventInfo),
    /// A transient failure; the subscription keeps streaming.
    Failed(IoError),
    /// The sequence is over, by exhaustion or cancellation.
    Finished,
}

/// The outcome a poll settles on, as a mathematical value.
pub enum StepView {
    Pending,
    Deliver(EventInfoView),
    Fault(Seq<char>),
    Finish,
}

/// The full effect of one consumer poll: the outcome, the queue slots left
/// over, and the cache and delivery trace after it.
pub struct DrainView {
    pub out: StepView,
    pub entries: Seq<QueueItem>,
    pub cache: Map<Seq<char>, DeviceInfoView>,
    pub delivered: Seq<EventInfoView>,
}

/// One consumer poll over a streaming subscription, as a function of the
/// pending queue slots, the cache, and the trace delivered so far.
///
/// An empty queue suspends. An attach is delivered as pushed and recorded in
/// the cache. A detach whose port the cache holds is delivered carrying the
/// cached record, which is evicted. A detach for an unknown port is
/// suppressed, and the poll moves on to the next slot at once. A failure is
/// handed to the consumer unchanged; the sentinel finishes the sequence.
pub open spec fn drain(
    entries: Seq<QueueItem>,
    cache: Map<Seq<char>, DeviceInfoView>,
    delivered: Seq<EventInfoView>,
) -> DrainView
    decreases entries.len(),
{
    if entries.len() == 0 {
        DrainView { out: StepView::Pending, entries, cache, delivered }
    } else {
        let rest = entries.drop_first();
        match entries.first() {
            QueueItem::Done => DrainView { out: StepView::Finish, entries: rest, cache, delivered },
            QueueItem::Failed(m) => DrainView {
                out: StepView::Fault(m),
                entries: rest,
                cache,
                delivered,
            },
            QueueItem::Event(ev) => {
                if ev.event is Add {
                    DrainView {
                        out: StepView::Deliver(ev),
                        entries: rest,
                        cache: cache.insert(ev.port, ev.device),
                        delivered: delivered.push(ev),
                    }
                } else if cache.contains_key(ev.port) {
                    let enriched = EventInfoView {
                        port: ev.port,
                        device: cache[ev.port],
                        event: EventType::Remove,
                    };
                    DrainView {
                        out: StepView::Deliver(enriched),
                        entries: rest,
                        cache: cache.remove(ev.port),
                        delivered: delivered.push(enriched),
                    }
                } else {
                    drain(rest, cache, delivered)
                }
            },
        }
    }
}

/// Suppression: a detach whose port the cache does not hold is invisible.
/// The poll's outcome, the remaining queue, the cache, and the delivery trace
/// are exactly those of the remaining slots alone; no event and no error
/// arises from the suppressed detach.
pub proof fn lemma_suppressed_remove_invisible(
    entries: Seq<QueueItem>,
    cache: Map<Seq<char>, DeviceInfoView>,
    delivered: Seq<EventInfoView>,
)
    requires
        entries.len() > 0,
        entries.first() matches QueueItem::Event(ev) && ev.event is Remove && !cache.contains_key(
            ev.port,
        ),
    ensures
        drain(entries, cache, delivered) == drain(entries.drop_first(), cache, delivered),
{
}

/// The mathematical value of a subscription.
pub struct DetectView {
    /// Lifecycle state.
    pub state: DetectState,
    /// Pending queue slots, next to be polled first.
    pub entries: Seq<QueueItem>,
    /// Whether the completion sentinel has been enqueued.
    pub closed: bool,
    /// Whether a consumer waker is stored.
    pub has_waker: bool,
    /// The identity cache: the last record seen attached on each port.
    pub cache: Map<Seq<char>, DeviceInfoView>,
    /// What the startup enumeration put in the cache.
    pub seed: Map<Seq<char>, DeviceInfoView>,
    /// Every event handed to the consumer so far, in order.
    pub delivered: Seq<EventInfoView>,
}

/// A subscription: the state machine over the queue and the identity cache.
pub struct Detect {
    state: DetectState,
    queue: Queue,
    cache: IdentityCache,
    seed: Ghost<Map<Seq<char>, DeviceInfoView>>,
    delivered: Ghost<Seq<EventInfoView>>,
}

impl View for Detect {
    type V = DetectView;

    closed spec fn view(&self) -> DetectView {
        DetectView {
            state: self.state,
            entries: self.queue@.entries,
            closed: self.queue@.closed,
            has_waker: self.queue@.has_waker,
            cache: self.cache@,
            seed: self.seed@,
            delivered: self.delivered@,
        }
    }
}

impl Detect {
    /// Internal validity: the queue and cache are valid, the delivery trace
    /// satisfies [`trace_ok`], and the cache is exactly the trace replayed
    /// over the seed.
    pub closed spec fn wf(self) -> bool {
        &&& self.queue.wf()
        &&& self.cache.wf()
        &&& trace_ok(self.seed@, self.delivered@)
        &&& self.cache@ == cache_after(self.seed@, self.delivered@)
    }

    /// Every well-formed subscription carries a delivery trace satisfying
    /// [`trace_ok`], with its cache equal to the trace replayed over the seed;
    /// the laws on traces therefore hold of every reachable subscription.
    pub proof fn lemma_wf_trace(self)
        requires
            self.wf(),
        ensures
            trace_ok(self@.seed, self@.delivered),
            self@.cache == cache_after(self@.seed, self@.delivered),
    {
    }

    /// Begin a subscription, in `Streaming`, over a cache seeded by the
    /// startup enumeration. Nothing has been delivered yet.
    pub fn new(seed: IdentityCache) -> (d: Detect)
        requires
            seed.wf(),
        ensures
            d.wf(),
            d@.state is Streaming,
            d@.entries == Seq::<QueueItem>::empty(),
            !d@.closed,
            !d@.has_waker,
            d@.cache == seed@,
            d@.seed == seed@,
            d@.delivered == Seq::<EventInfoView>::empty(),
    {
        let ghost seed_map = seed@;
        Detect {
            state: DetectState::Streaming,
            queue: Queue::new(),
            cache: seed,
            seed: Ghost(seed_map),
            delivered: Ghost(Seq::empty()),
        }
    }

    /// Producer side: enqueue a raw event or failure at the tail of the
    /// queue, waking a suspended consumer. After the close, the entry is
    /// discarded and the consumer can never observe it.
    pub fn push(&mut self, ev: Result<EventInfo, IoError>)
        requires
            old(self).wf(),
        ensures
            final(self).wf(),
            final(self)@.state == old(self)@.state,
            final(self)@.closed == old(self)@.closed,
            final(self)@.has_waker == old(self)@.has_waker,
            final(self)@.cache == old(self)@.cache,
            final(self)@.seed == old(self)@.seed,
            final(self)@.delivered == old(self)@.delivered,
            old(self)@.closed ==> final(self)@.entries == old(self)@.entries,
            !old(self)@.closed ==> final(self)@.entries == old(self)@.entries.push(item_of(ev)),
    {
        self.queue.push(ev);
    }

    /// Producer side: enqueue the completion sentinel, waking a suspended
    /// consumer. The event source calls this exactly once, as its final act.
    pub fn close(&mut self)
        requires
            old(self).wf(),
        ensures
            final(self).wf(),
            final(self)@.state == old(self)@.state,
            final(self)@.closed,
            final(self)@.has_waker == old(self)@.has_waker,
            final(self)@.cache == old(self)@.cache,
            final(self)@.seed == old(self)@.seed,
            final(self)@.delivered == old(self)@.delivered,
            old(self)@.closed ==> final(self)@.entries == old(self)@.entries,
            !old(self)@.closed ==> final(self)@.entries == old(self)@.entries.push(QueueItem::Done),
    {
        self.queue.close();
    }

    /// Whether the identity cache currently holds a record for `port`: an
    /// attach for it has been delivered (or the startup enumeration listed
    /// it) and no matching detach has been delivered yet.
    pub fn is_cached(&self, port: &String) -> (r: bool)
        ensures
            r == self@.cache.contains_key(port@),
    {
        self.cache.contains(port)
    }

    /// Owner-initiated stop. Valid only while streaming: a second cancel, or
    /// one after exhaustion, is signalled as misuse and changes nothing.
    pub fn cancel(&mut self) -> (r: Result<(), MisuseError>)
        requires
            old(self).wf(),
        ensures
            final(self).wf(),
            old(self)@.state is Streaming ==> r is Ok && final(self)@ == (DetectView {
                state: DetectState::Cancelled,
                ..old(self)@
            }),
            !(old(self)@.state is Streaming) ==> r is Err && final(self)@ == old(self)@,
    {
        match self.state {
            DetectState::Streaming => {
                self.state = DetectState::Cancelled;
                Ok(())
            },
            _ => Err(MisuseError {}),
        }
    }

    /// One consumer poll, as specified by [`drain`].
    ///
    /// In a terminal state this returns `Finished` at once, every time,
    /// touching nothing. While streaming it walks the queue: suppressed
    /// detaches are skipped without returning, an empty queue stores the
    /// waker and suspends, the sentinel moves the subscription to `Complete`,
    /// a failure is handed on without ending the stream, and a delivered
    /// event updates the cache and the delivery trace.
    pub fn poll_next(&mut self, w: &Waker) -> (r: PollNext)
        requires
            old(self).wf(),
        ensures
            final(self).wf(),
            !(old(self)@.state is Streaming) ==> r is Finished && final(self)@ == old(self)@,
            old(self)@.state is Streaming ==> ({
                let d = drain(old(self)@.entries, old(self)@.cache, old(self)@.delivered);
                &&& final(self)@.entries == d.entries
                &&& final(self)@.cache == d.cache
                &&& final(self)@.delivered == d.delivered
                &&& final(self)@.closed == old(self)@.closed
                &&& final(self)@.seed == old(self)@.seed
                &&& match d.out {
                    StepView::Pending => r is Pending && final(self)@.state is Streaming
                        && final(self)@.has_waker,
                    StepView::Finish => r is Finished && final(self)@.state is Complete,
                    StepView::Fault(m) => (r matches PollNext::Failed(e) && e@ == m)
                        && final(self)@.state is Streaming,
                    StepView::Deliver(ev) => (r matches PollNext::Event(e) && e@ == ev)
                        && final(self)@.state is Streaming,
                }
            }),
    {
        match self.state {
            DetectState::Cancelled => {
                return PollNext::Finished;
            },
            DetectState::Complete => {
                return PollNext::Finished;
            },
            DetectState::Streaming => {},
        }
        let ghost orig_entries = self.queue@.entries;
        let ghost orig_cache = self.cache@;
        let ghost orig_delivered = self.delivered@;
        loop
            invariant
                old(self)@.state is Streaming,
                self.state is Streaming,
                self.queue.wf(),
                self.cache.wf(),
                trace_ok(self.seed@, self.delivered@),
                self.cache@ == cache_after(self.seed@, self.delivered@),
                self.seed@ == old(self)@.seed,
                self.queue@.closed == old(self)@.closed,
                drain(self.queue@.entries, self.cache@, self.delivered@) == drain(
                    orig_entries,
                    orig_cache,
                    orig_delivered,
                ),
                orig_entries == old(self)@.entries,
                orig_cache == old(self)@.cache,
                orig_delivered == old(self)@.delivered,
            decreases self.queue@.entries.len(),
        {
            let ghost entries_b = self.queue@.entries;
            let ghost cache_b = self.cache@;
            let ghost delivered_b = self.delivered@;
            let polled = self.queue.poll_next(w);
            match polled {
                Polled::Pending => {
                    return PollNext::Pending;
                },
                Polled::Closed => {
                    self.state = DetectState::Complete;
                    return PollNext::Finished;
                },
                Polled::Failed(e) => {
                    return PollNext::Failed(e);
                },
                Polled::Event(ev) => {
                    let ghost evv = ev@;
                    match ev.event {
                        EventType::Add => {
                            self.cache.insert(ev.port.clone(), ev.device.duplicate());
                            proof {
                                let pushed = delivered_b.push(evv);
                                assert(pushed.drop_last() =~= delivered_b);
                                assert(pushed.last() == evv);
                                self.delivered@ = pushed;
                            }
                            return PollNext::Event(ev);
                        },
                        EventType::Remove => {
                            let removed = self.cache.remove(&ev.port);
                            match removed {
                                Some(rec) => {
                                    let out = EventInfo {
                                        port: ev.port,
                                        device: rec,
                                        event: EventType::Remove,
                                    };
                                    proof {
                                        let pushed = delivered_b.push(out@);
                                        assert(pushed.drop_last() =~= delivered_b);
                                        assert(pushed.last() == out@);
                                        self.delivered@ = pushed;
                                    }
                                    return PollNext::Event(out);
                                },
                                None => {
                                    proof {
                                        assert(drain(entries_b, cache_b, delivered_b) == drain(
                                            self.queue@.entries,
                                            self.cache@,
                                            self.delivered@,
                                        ));
                                    }
                                },
                            }
                        },
                    }
                },
            }
        }
    }
}

} // verus!
