//! The telemetry relay: who is subscribed, and to whom a packet that
//! arrived is delivered.

use crate::state::{snapshot_of, State, StateView};
use vstd::prelude::*;

verus! {

/// What names a subscription.
pub type Handle = u64;

/// A snapshot that was read from a packet, and the subscribers that get it.
#[derive(Debug, PartialEq)]
pub struct Delivery {
    pub state: State,
    pub to: Vec<Handle>,
}

/// The subscribers of the telemetry stream.
pub struct TelemetryRelay {
    subscribers: Vec<Handle>,
    next: Handle,
}

/// `s` without every occurrence of `h`, the others in their order.
pub open spec fn without(s: Seq<Handle>, h: Handle) -> Seq<Handle>
    decreases s.len(),
{
    if s.len() == 0 {
        s
    } else if s.last() == h {
        without(s.drop_last(), h)
    } else {
        without(s.drop_last(), h).push(s.last())
    }
}

/// What is left after `h` was taken out holds the others and not `h`.
pub proof fn lemma_without(s: Seq<Handle>, h: Handle)
    ensures
        !without(s, h).contains(h),
        forall|x: Handle| x != h ==> (without(s, h).contains(x) <==> s.contains(x)),
        s.no_duplicates() ==> without(s, h).no_duplicates(),
        !s.contains(h) ==> without(s, h) == s,
        without(s, h).len() <= s.len(),
    decreases s.len(),
{
    if s.len() > 0 {
        let front = s.drop_last();
        let last = s.last();
        let r = without(front, h);
        let q = without(s, h);
        lemma_without(front, h);
        assert(s[s.len() - 1] == last);
        assert forall|x: Handle| x != h implies (q.contains(x) <==> s.contains(x)) by {
            assert(r.contains(x) <==> front.contains(x));
            if front.contains(x) {
                let i = choose|i: int| 0 <= i < front.len() && front[i] == x;
                assert(s[i] == x);
            }
            if s.contains(x) && x != last {
                let i = choose|i: int| 0 <= i < s.len() && s[i] == x;
                assert(front[i] == x);
            }
            if last != h {
                assert(q[r.len() as int] == last);
                if r.contains(x) {
                    let k = choose|k: int| 0 <= k < r.len() && r[k] == x;
                    assert(q[k] == x);
                }
                if q.contains(x) {
                    let k = choose|k: int| 0 <= k < q.len() && q[k] == x;
                    if k < r.len() {
                        assert(r[k] == x);
                    }
                }
            }
        }
        if last != h {
            if q.contains(h) {
                let k = choose|k: int| 0 <= k < q.len() && q[k] == h;
                assert(r[k] == h);
            }
        }
        if s.no_duplicates() {
            assert forall|i: int, j: int| 0 <= i < front.len() && 0 <= j < front.len() && i
                != j implies front[i] != front[j] by {
                assert(s[i] != s[j]);
            }
            if last != h {
                assert forall|i: int, j: int| 0 <= i < q.len() && 0 <= j < q.len() && i
                    != j implies q[i] != q[j] by {
                    if i < r.len() && j < r.len() {
                        assert(r[i] != r[j]);
                    } else {
                        let k = if i < r.len() {
                            i
                        } else {
                            j
                        };
                        if r[k] == last {
                            assert(r.contains(last));
                            assert(front.contains(last));
                            let m = choose|m: int| 0 <= m < front.len() && front[m] == last;
                            assert(s[m] == s[s.len() - 1]);
                        }
                    }
                }
            }
        }
        if !s.contains(h) {
            assert(!front.contains(h)) by {
                if front.contains(h) {
                    let i = choose|i: int| 0 <= i < front.len() && front[i] == h;
                    assert(s[i] == h);
                }
            }
            assert(q =~= s);
        }
    }
}

/// The relay as a mathematical value.
pub struct RelayView {
    /// The handles that are subscribed, oldest first.
    pub subscribers: Seq<Handle>,
    /// The handle that the next subscription gets.
    pub next: Handle,
}

impl RelayView {
    /// No handle is subscribed twice, and every handle that is subscribed
    /// was given out before.
    pub open spec fn wf(self) -> bool {
        &&& self.subscribers.no_duplicates()
        &&& forall|i: int| 0 <= i < self.subscribers.len() ==> #[trigger] self.subscribers[i]
            < self.next
    }
}

impl View for TelemetryRelay {
    type V = RelayView;

    closed spec fn view(&self) -> RelayView {
        RelayView { subscribers: self.subscribers@, next: self.next }
    }
}

/// To whom the packet `packet` goes: to every subscriber where it holds a
/// snapshot, to nobody where it does not.
pub open spec fn delivery_of(subscribers: Seq<Handle>, packet: Seq<char>) -> Option<
    (StateView, Seq<Handle>),
> {
    match snapshot_of(packet) {
        Some(state) => Some((state, subscribers)),
        None => None,
    }
}

impl TelemetryRelay {
    /// Every relay is well formed.
    #[verifier::type_invariant]
    spec fn inv(&self) -> bool {
        self@.wf()
    }

    /// A relay without subscribers.
    pub fn new() -> (r: TelemetryRelay)
        ensures
            r@.wf(),
            r@.subscribers == Seq::<Handle>::empty(),
            r@.next == 0,
    {
        TelemetryRelay { subscribers: Vec::new(), next: 0 }
    }

    /// The handles that are subscribed, oldest first.
    pub fn subscribers(&self) -> (r: &Vec<Handle>)
        ensures
            r@ == self@.subscribers,
    {
        &self.subscribers
    }

    /// Whether `handle` is subscribed.
    pub fn is_subscribed(&self, handle: Handle) -> (b: bool)
        ensures
            b == self@.subscribers.contains(handle),
    {
        let mut i: usize = 0;
        while i < self.subscribers.len()
            invariant
                i <= self.subscribers.len(),
                forall|k: int| 0 <= k < i ==> self.subscribers@[k] != handle,
            decreases self.subscribers.len() - i,
        {
            if self.subscribers[i] == handle {
                return true;
            }
            i += 1;
        }
        false
    }

    /// Adds a subscriber and returns its handle, which no subscriber had
    /// before. `None`, and nothing changed, once every handle has been
    /// given out.
    pub fn subscribe(&mut self) -> (r: Option<Handle>)
        ensures
            final(self)@.wf(),
            match r {
                Some(h) => {
                    &&& h == old(self)@.next
                    &&& h < u64::MAX
                    &&& !old(self)@.subscribers.contains(h)
                    &&& final(self)@.subscribers == old(self)@.subscribers.push(h)
                    &&& final(self)@.next == h + 1
                },
                None => old(self)@.next == u64::MAX && final(self)@ == old(self)@,
            },
    {
        proof {
            use_type_invariant(&*self);
        }
        if self.next == u64::MAX {
            return None;
        }
        let h = self.next;
        proof {
            if self.subscribers@.contains(h) {
                let i = choose|i: int| 0 <= i < self.subscribers@.len() && self.subscribers@[i] == h;
                assert(self.subscribers@[i] < self.next);
            }
        }
        let mut grown = self.subscribers.clone();
        grown.push(h);
        self.next = h + 1;
        self.subscribers = grown;
        Some(h)
    }

    /// Removes the subscriber `handle`; the others keep their order.
    /// Returns whether `handle` was subscribed.
    pub fn unsubscribe(&mut self, handle: Handle) -> (was: bool)
        ensures
            final(self)@.wf(),
            was == old(self)@.subscribers.contains(handle),
            final(self)@.subscribers == without(old(self)@.subscribers, handle),
            !final(self)@.subscribers.contains(handle),
            final(self)@.next == old(self)@.next,
    {
        proof {
            use_type_invariant(&*self);
        }
        let ghost before = self.subscribers@;
        let mut kept: Vec<Handle> = Vec::new();
        let mut was = false;
        let mut i: usize = 0;
        while i < self.subscribers.len()
            invariant
                i <= self.subscribers.len(),
                self.subscribers@ == before,
                kept@ == without(before.take(i as int), handle),
                was == before.take(i as int).contains(handle),
            decreases self.subscribers.len() - i,
        {
            let h = self.subscribers[i];
            proof {
                let now = before.take(i + 1);
                assert(now.drop_last() =~= before.take(i as int));
                assert(now.last() == h);
                assert(now[i as int] == h);
                if before.take(i as int).contains(handle) {
                    let k = choose|k: int|
                        0 <= k < before.take(i as int).len() && before.take(i as int)[k] == handle;
                    assert(now[k] == handle);
                }
                if now.contains(handle) && h != handle {
                    let k = choose|k: int| 0 <= k < now.len() && now[k] == handle;
                    assert(before.take(i as int)[k] == handle);
                }
            }
            if h == handle {
                was = true;
            } else {
                kept.push(h);
            }
            i += 1;
        }
        proof {
            assert(before.take(before.len() as int) =~= before);
            lemma_without(before, handle);
            assert forall|k: int| 0 <= k < kept@.len() implies #[trigger] kept@[k] < self.next by {
                assert(kept@.contains(kept@[k]));
                assert(before.contains(kept@[k]));
                let m = choose|m: int| 0 <= m < before.len() && before[m] == kept@[k];
                assert(before[m] < self.next);
            }
        }
        self.subscribers = kept;
        was
    }

    /// Reads a packet of the telemetry stream. A packet that holds no
    /// snapshot is dropped; a snapshot goes to everyone who is subscribed
    /// now.
    pub fn receive(&self, packet: &str) -> (r: Option<Delivery>)
        ensures
            match r {
                Some(d) => delivery_of(self@.subscribers, packet@) == Some((d.state@, d.to@)),
                None => delivery_of(self@.subscribers, packet@) is None,
            },
    {
        match State::from_str(packet) {
            Some(state) => Some(Delivery { state, to: self.subscribers.clone() }),
            None => None,
        }
    }
}

} // verus!
