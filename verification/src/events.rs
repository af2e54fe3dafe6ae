//! The bounded history of published device events.
use vstd::prelude::*;
use crate::state::{DeviceEvent, DeviceEventView};

verus! {

/// Keeps the most recent published events, oldest first, up to a configured bound.
pub struct EventBus {
    event_history: Vec<DeviceEvent>,
    max_history: usize,
}

/// The history after publishing `e`: the oldest event is dropped first when the history is
/// at (or over) its bound.
pub open spec fn publish_result(history: Seq<DeviceEventView>, max_history: nat, e: DeviceEventView) -> Seq<DeviceEventView> {
    if history.len() >= max_history && history.len() > 0 {
        history.drop_first().push(e)
    } else {
        history.push(e)
    }
}

/// How many events a request for `limit` recent events returns from a history of `len`.
pub open spec fn recent_count(len: nat, limit: Option<usize>) -> nat {
    match limit {
        Some(l) => if l < len { l as nat } else { len },
        None => len,
    }
}

impl EventBus {
    /// The events held, oldest first.
    pub closed spec fn history(&self) -> Seq<DeviceEventView> {
        self.event_history@.map_values(|e: DeviceEvent| e@)
    }

    /// The bound the history was created with.
    pub closed spec fn max_history(&self) -> nat {
        self.max_history as nat
    }

    /// An empty history bounded by `max_history`.
    pub fn new(max_history: usize) -> (res: EventBus)
        ensures
            res.history() == Seq::<DeviceEventView>::empty(),
            res.max_history() == max_history,
    {
        let res = EventBus { event_history: Vec::new(), max_history };
        assert(res.history() =~= Seq::<DeviceEventView>::empty());
        res
    }

    /// Records `event` in the history, dropping the oldest event when the bound is reached.
    pub fn publish(&mut self, event: DeviceEvent)
        ensures
            final(self).history() == publish_result(old(self).history(), old(self).max_history(), event@),
            final(self).max_history() == old(self).max_history(),
    {
        let ghost before = self.history();
        let ghost ev = event@;
        if self.event_history.len() >= self.max_history && self.event_history.len() > 0 {
            let ghost raw = self.event_history@;
            self.event_history.remove(0);
            assert(self.history() =~= before.drop_first());
        }
        let ghost mid = self.history();
        let ghost mid_raw = self.event_history@;
        self.event_history.push(event);
        assert(self.event_history@ == mid_raw.push(event));
        assert(self.history() =~= mid.push(ev));
    }

    /// The `limit` most recent events (all of them when no limit is given), newest first.
    pub fn get_recent_events(&self, limit: Option<usize>) -> (res: Vec<DeviceEvent>)
        ensures
            res@.map_values(|e: DeviceEvent| e@)
                == self.history().reverse().take(recent_count(self.history().len(), limit) as int),
    {
        let len = self.event_history.len();
        let take_count = match limit {
            Some(l) => if l < len { l } else { len },
            None => len,
        };
        let mut out: Vec<DeviceEvent> = Vec::new();
        let mut i: usize = 0;
        while i < take_count
            invariant
                take_count <= len,
                len == self.event_history@.len(),
                i <= take_count,
                out@.map_values(|e: DeviceEvent| e@) == self.history().reverse().take(i as int),
            decreases take_count - i,
        {
            let ghost before = out@;
            out.push(self.event_history[len - 1 - i].clone_event());
            assert(self.history().reverse()[i as int] == self.event_history@[len - 1 - i]@);
            assert(out@.map_values(|e: DeviceEvent| e@) =~= before.map_values(|e: DeviceEvent| e@).push(self.history().reverse()[i as int]));
            assert(self.history().reverse().take(i + 1) =~= self.history().reverse().take(i as int).push(self.history().reverse()[i as int]));
            i = i + 1;
        }
        out
    }

    /// The number of events held.
    pub fn history_len(&self) -> (res: usize)
        ensures
            res == self.history().len(),
    {
        self.event_history.len()
    }
}

/// The history never holds more events than its bound, or one event when the bound is zero.
pub proof fn law_history_bounded(history: Seq<DeviceEventView>, max_history: nat, e: DeviceEventView)
    requires
        history.len() <= if max_history == 0 { 1 } else { max_history },
    ensures
        publish_result(history, max_history, e).len() <= if max_history == 0 { 1 } else { max_history },
        publish_result(history, max_history, e).last() == e,
{
}

/// The history after publishing each of `events` in order.
pub open spec fn publish_all(history: Seq<DeviceEventView>, max_history: nat, events: Seq<DeviceEventView>)
    -> Seq<DeviceEventView>
    decreases events.len(),
{
    if events.len() == 0 {
        history
    } else {
        publish_result(publish_all(history, max_history, events.drop_last()), max_history, events.last())
    }
}

/// How many of `n` published events a history bounded by `max_history` keeps.
pub open spec fn kept(n: nat, max_history: nat) -> nat {
    if n < max_history { n } else { max_history }
}

/// Publishing a series of events into an empty history bounded by at least one keeps the last
/// ones, as many as the bound allows, oldest first; asking for recent events then gives the
/// newest first, as many as asked for and kept.
pub proof fn law_publishes_keep_the_latest(max_history: nat, events: Seq<DeviceEventView>, limit: Option<usize>)
    requires
        max_history >= 1,
    ensures
        publish_all(Seq::empty(), max_history, events)
            == events.subrange(events.len() - kept(events.len(), max_history), events.len() as int),
        publish_all(Seq::empty(), max_history, events).reverse().take(
            recent_count(kept(events.len(), max_history), limit) as int)
            == Seq::new(recent_count(kept(events.len(), max_history), limit),
                |i: int| events[events.len() - 1 - i]),
    decreases events.len(),
{
    let n = events.len();
    let h = publish_all(Seq::empty(), max_history, events);
    if n > 0 {
        law_publishes_keep_the_latest(max_history, events.drop_last(), limit);
        let prev = publish_all(Seq::empty(), max_history, events.drop_last());
        let k0 = kept((n - 1) as nat, max_history);
        assert(prev == events.drop_last().subrange((n - 1) - k0, n - 1));
        if prev.len() >= max_history && prev.len() > 0 {
            assert(h =~= events.subrange(n - kept(n, max_history), n as int));
        } else {
            assert(h =~= events.subrange(n - kept(n, max_history), n as int));
        }
    } else {
        assert(h =~= events.subrange(0, 0));
    }
    let c = recent_count(kept(n, max_history), limit);
    assert(h.len() == kept(n, max_history));
    assert(h.reverse().take(c as int) =~= Seq::new(c, |i: int| events[n - 1 - i]));
}

} // verus!
