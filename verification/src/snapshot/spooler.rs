//! Spooling events while a downstream target lags behind.
use std::collections::VecDeque;
use vstd::prelude::*;

use crate::source::{Change, ChangeEvent};

verus! {

/// A queue of events that accounts for their size and says when there is too much of it.
pub struct AsyncBackpressureSpooler {
    spool: VecDeque<ChangeEvent>,
    high_watermark_limit: usize,
    spooled_bytes: usize,
}

/// What an [`AsyncBackpressureSpooler`] holds.
#[verifier::ext_equal]
pub struct Spool {
    /// The events, in the order in which they came.
    pub events: Seq<Change>,
    /// How many bytes are too much.
    pub limit: usize,
}

/// The number of bytes of a text.
pub open spec fn byte_len(text: Seq<char>) -> usize {
    vstd::utf8::encode_utf8(text).len() as usize
}

/// The number of bytes that an event counts for: those of its identifier and of its offset, and a
/// fixed share for the rest.
pub open spec fn event_size(event: Change) -> int {
    byte_len(event.id) + byte_len(event.offset) + 16
}

/// The number of bytes that events count for together.
pub open spec fn total_size(events: Seq<Change>) -> int
    decreases events.len(),
{
    if events.len() == 0 {
        0
    } else {
        total_size(events.drop_last()) + event_size(events.last())
    }
}

/// The count of bytes: a machine word, which starts over where the total exceeds it.
pub open spec fn byte_count(events: Seq<Change>) -> int {
    total_size(events) % (usize::MAX + 1)
}

/// The size of events is that of the first and of the others.
pub(crate) proof fn lemma_total_size_first(events: Seq<Change>)
    requires
        events.len() > 0,
    ensures
        total_size(events) == event_size(events[0]) + total_size(events.drop_first()),
    decreases events.len(),
{
    let rest = events.drop_first();
    if rest.len() == 0 {
        assert(events.drop_last() =~= Seq::empty());
        assert(total_size(events.drop_last()) == 0);
    } else {
        lemma_total_size_first(events.drop_last());
        assert(events.drop_last().drop_first() =~= rest.drop_last());
    }
}

/// What an event adds to the count of bytes.
fn counted_size(event: &ChangeEvent) -> (r: usize)
    ensures
        r == event_size(event@) % (usize::MAX + 1),
        event_size(event@) == vstd::utf8::encode_utf8(event.id@).len() + vstd::utf8::encode_utf8(
            event.offset@,
        ).len() + 16,
{
    let id = event.id.as_str().as_bytes();
    let offset = event.offset.as_str().as_bytes();
    let texts: usize = event.id.as_str().len().wrapping_add(event.offset.as_str().len());
    proof {
        // What is in memory has a length that a machine word holds.
        assert(id.len() == id@.len() && offset.len() == offset@.len());
        vstd::arithmetic::div_mod::lemma_add_mod_noop(
            byte_len(event.id@) + byte_len(event.offset@),
            16,
            usize::MAX + 1,
        );
    }
    texts.wrapping_add(16)
}

impl View for AsyncBackpressureSpooler {
    type V = Spool;

    closed spec fn view(&self) -> Spool {
        Spool { events: crate::source::changes(self.spool@), limit: self.high_watermark_limit }
    }
}

impl AsyncBackpressureSpooler {
    #[verifier::type_invariant]
    spec fn valid(self) -> bool {
        self.spooled_bytes == byte_count(self@.events)
    }

    /// An empty spool for which `high_watermark_limit` bytes are too much.
    pub fn new(high_watermark_limit: usize) -> (r: AsyncBackpressureSpooler)
        ensures
            r@ == (Spool { events: Seq::<Change>::empty(), limit: high_watermark_limit }),
    {
        let spool: VecDeque<ChangeEvent> = VecDeque::new();
        proof {
            assert(crate::source::changes(spool@) =~= Seq::<Change>::empty());
            assert(total_size(crate::source::changes(spool@)) == 0);
            vstd::arithmetic::div_mod::lemma_small_mod(0, (usize::MAX + 1) as nat);
        }
        AsyncBackpressureSpooler { spool, high_watermark_limit, spooled_bytes: 0 }
    }

    /// Whether the spooled bytes have reached the limit.
    pub fn should_spool(&self) -> (r: bool)
        ensures
            r == (byte_count(self@.events) >= self@.limit),
    {
        proof {
            use_type_invariant(self);
        }
        self.spooled_bytes >= self.high_watermark_limit
    }

    /// Spools an event behind the others.
    pub fn push_event(&mut self, event: ChangeEvent)
        ensures
            final(self)@ == (Spool { events: old(self)@.events.push(event@), ..old(self)@ }),
            byte_count(final(self)@.events) == (byte_count(old(self)@.events)
                + vstd::utf8::encode_utf8(event.id@).len() + vstd::utf8::encode_utf8(
                event.offset@,
            ).len() + 16) % (usize::MAX + 1),
    {
        let mut taken = AsyncBackpressureSpooler::new(self.high_watermark_limit);
        std::mem::swap(self, &mut taken);
        proof {
            use_type_invariant(&taken);
        }
        let ghost before = taken@.events;
        let AsyncBackpressureSpooler { mut spool, high_watermark_limit, spooled_bytes } = taken;
        let spooled_bytes: usize = spooled_bytes.wrapping_add(counted_size(&event));
        spool.push_back(event);
        proof {
            assert(crate::source::changes(spool@) =~= before.push(event@));
            assert(before.push(event@).drop_last() =~= before);
            vstd::arithmetic::div_mod::lemma_add_mod_noop(
                total_size(before),
                event_size(event@),
                usize::MAX + 1,
            );
            vstd::arithmetic::div_mod::lemma_add_mod_noop_right(
                event_size(event@),
                total_size(before),
                usize::MAX + 1,
            );
        }
        *self = AsyncBackpressureSpooler { spool, high_watermark_limit, spooled_bytes };
    }

    /// Takes the event that was spooled first.
    pub fn pop_event(&mut self) -> (r: Option<ChangeEvent>)
        ensures
            match r {
                Some(event) => {
                    &&& old(self)@.events.len() > 0
                    &&& event@ == old(self)@.events[0]
                    &&& final(self)@ == (Spool {
                        events: old(self)@.events.drop_first(),
                        ..old(self)@
                    })
                    &&& byte_count(final(self)@.events) == (byte_count(old(self)@.events)
                        - vstd::utf8::encode_utf8(event.id@).len() - vstd::utf8::encode_utf8(
                        event.offset@,
                    ).len() - 16) % (usize::MAX + 1)
                },
                None => old(self)@.events.len() == 0 && final(self)@ == old(self)@,
            },
    {
        let mut taken = AsyncBackpressureSpooler::new(self.high_watermark_limit);
        std::mem::swap(self, &mut taken);
        proof {
            use_type_invariant(&taken);
        }
        let ghost before = taken@.events;
        let AsyncBackpressureSpooler { mut spool, high_watermark_limit, spooled_bytes } = taken;
        match spool.pop_front() {
            Some(event) => {
                let spooled_bytes: usize = spooled_bytes.wrapping_sub(counted_size(&event));
                proof {
                    assert(crate::source::changes(spool@) =~= before.drop_first());
                    lemma_total_size_first(before);
                    vstd::arithmetic::div_mod::lemma_sub_mod_noop(
                        total_size(before),
                        event_size(event@),
                        usize::MAX + 1,
                    );
                    vstd::arithmetic::div_mod::lemma_add_mod_noop_right(
                        -event_size(event@),
                        total_size(before),
                        usize::MAX + 1,
                    );
                }
                *self = AsyncBackpressureSpooler { spool, high_watermark_limit, spooled_bytes };
                Some(event)
            },
            None => {
                *self = AsyncBackpressureSpooler { spool, high_watermark_limit, spooled_bytes };
                None
            },
        }
    }

    /// The number of spooled events.
    pub fn spooled_count(&self) -> (r: usize)
        ensures
            r == self@.events.len(),
    {
        self.spool.len()
    }

    /// The count of spooled bytes.
    pub fn spooled_bytes(&self) -> (r: usize)
        ensures
            r == byte_count(self@.events),
    {
        proof {
            use_type_invariant(self);
        }
        self.spooled_bytes
    }
}

} // verus!
