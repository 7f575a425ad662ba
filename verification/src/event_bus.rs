//! The dispatch bus: who is to be told of each text that comes in.
//!
//! The bus keeps the subscribers in the order in which they signed up. It
//! does not call anyone. `publish` names the deliveries that are due, one
//! per subscriber, and the caller makes them, so a subscriber that fails
//! cannot keep the text from the others.
use vstd::prelude::*;

verus! {

/// What a subscriber holds of the bus: the right to sign off again.
#[derive(Clone, Copy, Debug, PartialEq, Eq, Structural)]
pub struct SubscriptionHandle {
    id: u64,
}

/// The handles of `handles` other than `handle`, in their order.
pub open spec fn without(handles: Seq<SubscriptionHandle>, handle: SubscriptionHandle) -> Seq<
    SubscriptionHandle,
>
    decreases handles.len(),
{
    if handles.len() == 0 {
        handles
    } else if handles.last() == handle {
        without(handles.drop_last(), handle)
    } else {
        without(handles.drop_last(), handle).push(handles.last())
    }
}

/// What is left holds no `handle`, and holds every other handle that was
/// there.
pub proof fn lemma_without_contains(
    handles: Seq<SubscriptionHandle>,
    handle: SubscriptionHandle,
    other: SubscriptionHandle,
)
    ensures
        without(handles, handle).contains(other) <==> handles.contains(other) && other != handle,
    decreases handles.len(),
{
    if handles.len() > 0 {
        let front = handles.drop_last();
        let last = handles.last();
        let kept = without(front, handle);
        lemma_without_contains(front, handle, other);
        assert(handles =~= front.push(last));
        assert(handles.contains(other) <==> front.contains(other) || last == other) by {
            lemma_push_contains(front, last, other);
        }
        if last != handle {
            lemma_push_contains(kept, last, other);
        }
    }
}

/// A list with one more handle at its end holds what it held, and that
/// handle.
proof fn lemma_push_contains(
    handles: Seq<SubscriptionHandle>,
    last: SubscriptionHandle,
    other: SubscriptionHandle,
)
    ensures
        handles.push(last).contains(other) <==> handles.contains(other) || last == other,
{
    let all = handles.push(last);
    if handles.contains(other) {
        let i = choose|i: int| 0 <= i < handles.len() && handles[i] == other;
        assert(all[i] == other);
    }
    if last == other {
        assert(all[handles.len() as int] == other);
    }
    if all.contains(other) {
        let i = choose|i: int| 0 <= i < all.len() && all[i] == other;
        if i < handles.len() {
            assert(handles[i] == other);
        }
    }
}

/// Taking a handle out of a list without repeats leaves no repeats.
pub proof fn lemma_without_distinct(handles: Seq<SubscriptionHandle>, handle: SubscriptionHandle)
    requires
        handles.no_duplicates(),
    ensures
        without(handles, handle).no_duplicates(),
    decreases handles.len(),
{
    if handles.len() > 0 {
        let front = handles.drop_last();
        let last = handles.last();
        let kept = without(front, handle);
        lemma_without_distinct(front, handle);
        if last != handle {
            lemma_without_contains(front, handle, last);
            if front.contains(last) {
                let i = choose|i: int| 0 <= i < front.len() && front[i] == last;
                assert(handles[i] == handles[handles.len() - 1]);
            }
            assert forall|i: int| 0 <= i < kept.len() implies kept[i] != last by {
                assert(kept.contains(kept[i]));
            }
        }
    }
}

/// One text due to one subscriber.
#[derive(Debug, PartialEq, Eq)]
pub struct Delivery {
    pub to: SubscriptionHandle,
    pub text: String,
}

/// The subscribers of inbound texts, in the order in which they signed up.
pub struct EventBus {
    subscribers: Vec<SubscriptionHandle>,
    next_id: u64,
}

impl View for EventBus {
    type V = Seq<SubscriptionHandle>;

    closed spec fn view(&self) -> Seq<SubscriptionHandle> {
        self.subscribers@
    }
}

impl EventBus {
    #[verifier::type_invariant]
    spec fn handles_fresh(self) -> bool {
        &&& forall|i: int|
            0 <= i < self.subscribers@.len() ==> (#[trigger] self.subscribers@[i]).id < self.next_id
        &&& self.subscribers@.no_duplicates()
    }

    /// The number of handles given out so far.
    pub closed spec fn issued(self) -> nat {
        self.next_id as nat
    }

    /// A bus without subscribers.
    pub fn new() -> (bus: EventBus)
        ensures
            bus@ == Seq::<SubscriptionHandle>::empty(),
            bus.issued() == 0,
    {
        EventBus { subscribers: Vec::new(), next_id: 0 }
    }

    /// Signs a subscriber up, behind those that are there, and gives it a
    /// handle that no one had before. `None` once the handles have run out.
    pub fn subscribe(&mut self) -> (r: Option<SubscriptionHandle>)
        ensures
            r is Some <==> old(self).issued() < u64::MAX,
            match r {
                Some(handle) => !old(self)@.contains(handle)
                    && final(self)@ == old(self)@.push(handle)
                    && final(self).issued() == old(self).issued() + 1,
                None => final(self)@ == old(self)@ && final(self).issued() == old(self).issued(),
            },
    {
        proof {
            use_type_invariant(&*self);
        }
        if self.next_id == u64::MAX {
            return None;
        }
        let handle = SubscriptionHandle { id: self.next_id };
        let mut subscribers = Vec::new();
        core::mem::swap(&mut self.subscribers, &mut subscribers);
        subscribers.push(handle);
        self.next_id = self.next_id + 1;
        self.subscribers = subscribers;
        Some(handle)
    }

    /// Signs a subscriber off: no text published from now on is due to it.
    /// Says whether the handle was signed up.
    pub fn unsubscribe(&mut self, handle: SubscriptionHandle) -> (r: bool)
        ensures
            r == old(self)@.contains(handle),
            final(self)@ == without(old(self)@, handle),
            !final(self)@.contains(handle),
            final(self).issued() == old(self).issued(),
    {
        proof {
            use_type_invariant(&*self);
        }
        let ghost before = self.subscribers@;
        let mut kept: Vec<SubscriptionHandle> = Vec::new();
        let mut found = false;
        let mut i: usize = 0;
        while i < self.subscribers.len()
            invariant
                i <= self.subscribers.len(),
                self.subscribers@ == before,
                kept@ == without(before.take(i as int), handle),
                found == before.take(i as int).contains(handle),
            decreases self.subscribers.len() - i,
        {
            let current = self.subscribers[i];
            proof {
                let seen = before.take(i as int);
                assert(before.take(i + 1) =~= seen.push(current));
                assert(seen.push(current).drop_last() =~= seen);
                lemma_push_contains(seen, current, handle);
            }
            if current.id == handle.id {
                found = true;
            } else {
                kept.push(current);
            }
            i += 1;
        }
        proof {
            assert(before.take(i as int) == before);
            lemma_without_contains(before, handle, handle);
            assert forall|k: int| 0 <= k < kept@.len() implies (#[trigger] kept@[k]).id
                < self.next_id by {
                lemma_without_contains(before, handle, kept@[k]);
                assert(kept@.contains(kept@[k]));
                let j = choose|j: int| 0 <= j < before.len() && before[j] == kept@[k];
                assert(before[j].id < self.next_id);
            }
            lemma_without_distinct(before, handle);
        }
        self.subscribers = kept;
        found
    }

    /// The deliveries due for `text`: one to each subscriber, in the order
    /// in which they signed up. No subscriber is named twice.
    pub fn publish(&self, text: &str) -> (due: Vec<Delivery>)
        ensures
            due@.len() == self@.len(),
            forall|i: int|
                0 <= i < due@.len() ==> (#[trigger] due@[i]).to == self@[i] && due@[i].text@
                    == text@,
            self@.no_duplicates(),
    {
        proof {
            use_type_invariant(self);
        }
        let mut due: Vec<Delivery> = Vec::new();
        let mut i: usize = 0;
        while i < self.subscribers.len()
            invariant
                i <= self.subscribers.len(),
                due@.len() == i,
                forall|k: int|
                    0 <= k < i ==> (#[trigger] due@[k]).to == self.subscribers@[k] && due@[k].text@
                        == text@,
            decreases self.subscribers.len() - i,
        {
            due.push(Delivery { to: self.subscribers[i], text: text.to_owned() });
            i += 1;
        }
        due
    }

    /// Whether `handle` is signed up.
    pub fn is_subscribed(&self, handle: SubscriptionHandle) -> (r: bool)
        ensures
            r == self@.contains(handle),
    {
        let mut i: usize = 0;
        while i < self.subscribers.len()
            invariant
                i <= self.subscribers.len(),
                forall|k: int| 0 <= k < i ==> self.subscribers@[k] != handle,
            decreases self.subscribers.len() - i,
        {
            if self.subscribers[i].id == handle.id {
                return true;
            }
            i += 1;
        }
        false
    }

    /// The number of subscribers. No subscriber is counted twice.
    pub fn len(&self) -> (n: usize)
        ensures
            n == self@.len(),
            self@.no_duplicates(),
    {
        proof {
            use_type_invariant(self);
        }
        self.subscribers.len()
    }
}

} // verus!
