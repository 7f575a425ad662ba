//! The outbound queue: texts wait here, first in first out, until the
//! connection writes them.
use std::collections::VecDeque;
use vstd::prelude::*;
use crate::error::Backpressure;
use crate::text::text_views;

verus! {

/// The queue after `text` is offered to it: the text joins at the back
/// while there is room, and a full queue stays as it is.
pub open spec fn offer(queue: Seq<Seq<char>>, capacity: nat, text: Seq<char>) -> Seq<Seq<char>> {
    if queue.len() < capacity {
        queue.push(text)
    } else {
        queue
    }
}

/// The queue after each of `texts` is offered to it in turn.
pub open spec fn offer_all(queue: Seq<Seq<char>>, capacity: nat, texts: Seq<Seq<char>>) -> Seq<
    Seq<char>,
>
    decreases texts.len(),
{
    if texts.len() == 0 {
        queue
    } else {
        offer(offer_all(queue, capacity, texts.drop_last()), capacity, texts.last())
    }
}

/// While they fit, the texts offered to an empty queue are held in the
/// order in which they came.
pub proof fn lemma_offers_keep_order(capacity: nat, texts: Seq<Seq<char>>)
    requires
        texts.len() <= capacity,
    ensures
        offer_all(Seq::empty(), capacity, texts) == texts,
    decreases texts.len(),
{
    if texts.len() > 0 {
        lemma_offers_keep_order(capacity, texts.drop_last());
        assert(texts.drop_last().push(texts.last()) =~= texts);
    }
}

/// A queue filled to its capacity turns the next text away and keeps what
/// it holds, in order.
pub proof fn lemma_full_queue_rejects(capacity: nat, texts: Seq<Seq<char>>, extra: Seq<char>)
    requires
        texts.len() == capacity,
    ensures
        offer_all(Seq::empty(), capacity, texts) == texts,
        offer(offer_all(Seq::empty(), capacity, texts), capacity, extra) == texts,
{
    lemma_offers_keep_order(capacity, texts);
}

/// A bounded first-in first-out queue of texts.
pub struct OutboundQueue {
    items: VecDeque<String>,
    capacity: usize,
}

impl View for OutboundQueue {
    type V = Seq<Seq<char>>;

    closed spec fn view(&self) -> Seq<Seq<char>> {
        text_views(self.items@)
    }
}

impl OutboundQueue {
    #[verifier::type_invariant]
    spec fn within_capacity(self) -> bool {
        self.items@.len() <= self.capacity
    }

    /// The number of texts that the queue can hold.
    pub closed spec fn limit(self) -> nat {
        self.capacity as nat
    }

    /// An empty queue that holds up to `capacity` texts.
    pub fn new(capacity: usize) -> (q: OutboundQueue)
        ensures
            q@ == Seq::<Seq<char>>::empty(),
            q.limit() == capacity,
    {
        let q = OutboundQueue { items: VecDeque::new(), capacity };
        assert(q@ =~= Seq::<Seq<char>>::empty());
        q
    }

    /// Puts `text` at the back of the queue, or turns it away when the
    /// queue is full. Never waits.
    pub fn try_send(&mut self, text: String) -> (r: Result<(), Backpressure>)
        ensures
            final(self).limit() == old(self).limit(),
            final(self)@ == offer(old(self)@, old(self).limit(), text@),
            r is Ok <==> old(self)@.len() < old(self).limit(),
    {
        proof {
            use_type_invariant(&*self);
        }
        if self.items.len() < self.capacity {
            let mut items = VecDeque::new();
            core::mem::swap(&mut self.items, &mut items);
            items.push_back(text);
            core::mem::swap(&mut self.items, &mut items);
            assert(self@ =~= old(self)@.push(text@));
            Ok(())
        } else {
            Err(Backpressure)
        }
    }

    /// Takes the oldest text out of the queue.
    pub fn pop(&mut self) -> (r: Option<String>)
        ensures
            final(self).limit() == old(self).limit(),
            match r {
                Some(text) => old(self)@.len() > 0 && text@ == old(self)@[0] && final(self)@
                    == old(self)@.drop_first(),
                None => old(self)@.len() == 0 && final(self)@ == old(self)@,
            },
    {
        proof {
            use_type_invariant(&*self);
        }
        let mut items = VecDeque::new();
        core::mem::swap(&mut self.items, &mut items);
        let r = items.pop_front();
        core::mem::swap(&mut self.items, &mut items);
        assert(self@ =~= if old(self)@.len() == 0 {
            old(self)@
        } else {
            old(self)@.drop_first()
        });
        r
    }

    /// The oldest text, which `pop` would take.
    pub fn front(&self) -> (r: Option<&String>)
        ensures
            match r {
                Some(text) => self@.len() > 0 && text@ == self@[0],
                None => self@.len() == 0,
            },
    {
        if self.items.len() == 0 {
            None
        } else {
            Some(&self.items[0])
        }
    }

    /// The number of texts that wait. It never exceeds the capacity.
    pub fn len(&self) -> (n: usize)
        ensures
            n == self@.len(),
            n <= self.limit(),
    {
        proof {
            use_type_invariant(self);
        }
        self.items.len()
    }

    /// Whether no text waits.
    pub fn is_empty(&self) -> (r: bool)
        ensures
            r == (self@.len() == 0),
    {
        self.items.len() == 0
    }

    /// Whether the next text would be turned away.
    pub fn is_full(&self) -> (r: bool)
        ensures
            r == (self@.len() >= self.limit()),
    {
        self.items.len() >= self.capacity
    }

    /// The number of texts that the queue can hold.
    pub fn capacity(&self) -> (n: usize)
        ensures
            n == self.limit(),
    {
        self.capacity
    }
}

} // verus!
