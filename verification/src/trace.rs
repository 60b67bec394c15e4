//! The delivery trace: a mathematical record of the events a subscriber has
//! been handed, and the laws that hold of every trace the bridge can produce.
//!
//! `cache_after` replays a trace over the identity cache that the startup
//! enumeration seeded; `trace_ok` says that every delivered detach was backed
//! by the cache at the moment it was delivered. The subscription state machine
//! maintains `trace_ok` as an invariant, so the lemmas here hold of every
//! reachable subscription.

use vstd::prelude::*;

use crate::device::{DeviceInfoView, EventInfoView, EventType};

verus! {

/// The identity cache contents after starting from `init` and delivering the
/// events of `t` in order: an attach inserts its record under its port, a
/// detach evicts its port.
pub open spec fn cache_after(
    init: Map<Seq<char>, DeviceInfoView>,
    t: Seq<EventInfoView>,
) -> Map<Seq<char>, DeviceInfoView>
    decreases t.len(),
{
    if t.len() == 0 {
        init
    } else {
        let c = cache_after(init, t.drop_last());
        if t.last().event is Add {
            c.insert(t.last().port, t.last().device)
        } else {
            c.remove(t.last().port)
        }
    }
}

/// Every detach in `t` was delivered only while its port stood in the cache,
/// and carried exactly the cached record.
pub open spec fn trace_ok(init: Map<Seq<char>, DeviceInfoView>, t: Seq<EventInfoView>) -> bool
    decreases t.len(),
{
    if t.len() == 0 {
        true
    } else {
        let c = cache_after(init, t.drop_last());
        trace_ok(init, t.drop_last()) && (t.last().event is Remove ==> c.contains_key(t.last().port)
            && c[t.last().port] == t.last().device)
    }
}

/// A valid trace stays valid when cut off after its first `n` events.
pub proof fn lemma_trace_ok_prefix(
    init: Map<Seq<char>, DeviceInfoView>,
    t: Seq<EventInfoView>,
    n: int,
)
    requires
        trace_ok(init, t),
        0 <= n <= t.len(),
    ensures
        trace_ok(init, t.subrange(0, n)),
    decreases t.len(),
{
    if n == t.len() {
        assert(t.subrange(0, n) =~= t);
    } else {
        assert(t.subrange(0, n) =~= t.drop_last().subrange(0, n));
        lemma_trace_ok_prefix(init, t.drop_last(), n);
    }
}

/// A port standing in the replayed cache got there in one of two ways: the
/// trace's last event on that port is an attach carrying the cached record, or
/// the trace never mentioned the port and the seed supplied the record.
proof fn lemma_cache_key_origin(
    init: Map<Seq<char>, DeviceInfoView>,
    t: Seq<EventInfoView>,
    p: Seq<char>,
)
    requires
        cache_after(init, t).contains_key(p),
    ensures
        ({
            ||| (exists|j: int|
                0 <= j < t.len() && #[trigger] t[j].port == p && t[j].event is Add && t[j].device
                    == cache_after(init, t)[p] && (forall|k: int|
                    j < k < t.len() ==> t[k].port != p))
            ||| ((forall|k: int| 0 <= k < t.len() ==> t[k].port != p) && init.contains_key(p)
                && init[p] == cache_after(init, t)[p])
        }),
    decreases t.len(),
{
    if t.len() > 0 {
        let prefix = t.drop_last();
        let e = t.last();
        if e.port == p {
            assert(e.event is Add);
            assert(t[t.len() - 1].port == p);
        } else {
            assert(cache_after(init, prefix).contains_key(p));
            assert(cache_after(init, t)[p] == cache_after(init, prefix)[p]);
            lemma_cache_key_origin(init, prefix, p);
            if exists|j: int|
                0 <= j < prefix.len() && #[trigger] prefix[j].port == p && prefix[j].event is Add
                    && prefix[j].device == cache_after(init, prefix)[p] && (forall|k: int|
                    j < k < prefix.len() ==> prefix[k].port != p) {
                let j = choose|j: int|
                    0 <= j < prefix.len() && #[trigger] prefix[j].port == p && prefix[j].event is Add
                        && prefix[j].device == cache_after(init, prefix)[p] && (forall|k: int|
                        j < k < prefix.len() ==> prefix[k].port != p);
                assert(prefix[j] == t[j]);
                assert(t[j].port == p);
                assert forall|k: int| j < k < t.len() implies t[k].port != p by {
                    if k < t.len() - 1 {
                        assert(prefix[k] == t[k]);
                    }
                }
            } else {
                assert forall|k: int| 0 <= k < t.len() implies t[k].port != p by {
                    if k < t.len() - 1 {
                        assert(prefix[k] == t[k]);
                    }
                }
            }
        }
    }
}

/// Enrichment: a delivered detach carries, field for field, the record of the
/// nearest preceding delivered attach on the same port; if no earlier
/// delivered event mentioned the port, it carries the record the startup
/// enumeration seeded for it.
pub proof fn lemma_remove_matches_nearest_add(
    init: Map<Seq<char>, DeviceInfoView>,
    t: Seq<EventInfoView>,
    i: int,
)
    requires
        trace_ok(init, t),
        0 <= i < t.len(),
        t[i].event is Remove,
    ensures
        ({
            ||| (exists|j: int|
                0 <= j < i && #[trigger] t[j].port == t[i].port && t[j].event is Add && t[j].device
                    == t[i].device && (forall|k: int| j < k < i ==> t[k].port != t[i].port))
            ||| ((forall|k: int| 0 <= k < i ==> t[k].port != t[i].port) && init.contains_key(
                t[i].port,
            ) && init[t[i].port] == t[i].device)
        }),
{
    let p = t[i].port;
    let upto = t.subrange(0, i + 1);
    let pre = t.subrange(0, i);
    lemma_trace_ok_prefix(init, t, i + 1);
    assert(upto.last() == t[i]);
    assert(upto.drop_last() =~= pre);
    assert(cache_after(init, pre).contains_key(p));
    assert(cache_after(init, pre)[p] == t[i].device);
    lemma_cache_key_origin(init, pre, p);
    if exists|j: int|
        0 <= j < pre.len() && #[trigger] pre[j].port == p && pre[j].event is Add && pre[j].device
            == cache_after(init, pre)[p] && (forall|k: int| j < k < pre.len() ==> pre[k].port != p) {
        let j = choose|j: int|
            0 <= j < pre.len() && #[trigger] pre[j].port == p && pre[j].event is Add && pre[j].device
                == cache_after(init, pre)[p] && (forall|k: int|
                j < k < pre.len() ==> pre[k].port != p);
        assert(pre[j] == t[j]);
        assert(t[j].port == p);
        assert forall|k: int| j < k < i implies t[k].port != p by {
            assert(pre[k] == t[k]);
        }
    } else {
        assert forall|k: int| 0 <= k < i implies t[k].port != p by {
            assert(pre[k] == t[k]);
        }
    }
}

/// Ordering: when a detach is delivered for a port the startup enumeration did
/// not list, an attach for the same port was delivered strictly earlier.
pub proof fn lemma_add_delivered_before_remove(
    init: Map<Seq<char>, DeviceInfoView>,
    t: Seq<EventInfoView>,
    i: int,
)
    requires
        trace_ok(init, t),
        0 <= i < t.len(),
        t[i].event is Remove,
        !init.contains_key(t[i].port),
    ensures
        exists|j: int| 0 <= j < i && #[trigger] t[j].port == t[i].port && t[j].event is Add,
{
    lemma_remove_matches_nearest_add(init, t, i);
}

} // verus!
