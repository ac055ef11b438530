//! The session event journal shared by every recovery: sequence numbering, a bounded replay
//! journal, stream availability, and per-subscriber de-duplication.
use vstd::prelude::*;
use crate::correlator::opt_view;
use crate::decimal::{decimal, push_decimal};
use crate::text::{push_str, string_from_chars};

verus! {

/// How many events the journal keeps for late subscribers.
pub const EVENT_JOURNAL_CAPACITY: usize = 512;

/// One journalled event with its session sequence number.
#[derive(Debug, Clone)]
pub struct JournalEntry<E> {
    pub sequence: u64,
    pub event: E,
}

/// Session-level event journal state.
#[derive(Debug)]
pub struct EventJournal<E> {
    next_sequence: u64,
    entries: Vec<JournalEntry<E>>,
    available: bool,
    detail: Option<String>,
}

/// The detail reported before the event stream first connects.
pub open spec fn connecting_detail() -> Seq<char> {
    "event_stream_connecting"@
}

impl<E> EventJournal<E> {
    /// The sequence numbers of the journalled events, oldest first.
    pub closed spec fn sequences(&self) -> Seq<u64> {
        Seq::new(self.entries@.len(), |i: int| self.entries@[i].sequence)
    }

    /// The journalled events, oldest first.
    pub closed spec fn events(&self) -> Seq<E> {
        Seq::new(self.entries@.len(), |i: int| self.entries@[i].event)
    }

    /// The sequence number the next event will get.
    pub closed spec fn next(&self) -> u64 {
        self.next_sequence
    }

    /// Whether the stream is available.
    pub closed spec fn is_available(&self) -> bool {
        self.available
    }

    /// The unavailability detail.
    pub closed spec fn detail_view(&self) -> Option<Seq<char>> {
        opt_view(self.detail)
    }

    /// The journal is bounded, its sequence numbers increase (they only repeat once numbering
    /// has saturated) and none is beyond the next one.
    pub closed spec fn wf(&self) -> bool {
        &&& self.entries@.len() <= EVENT_JOURNAL_CAPACITY
        &&& forall|i: int, j: int|
            0 <= i < j < self.entries@.len() ==> (#[trigger] self.entries@[i]).sequence < (
            #[trigger] self.entries@[j]).sequence || self.entries@[j].sequence == u64::MAX
        &&& forall|i: int|
            0 <= i < self.entries@.len() ==> (#[trigger] self.entries@[i]).sequence
                < self.next_sequence || self.next_sequence == u64::MAX
        &&& self.next_sequence >= 1
    }

    /// An empty journal, waiting for the stream to connect; numbering starts at 1.
    pub fn new() -> (j: EventJournal<E>)
        ensures
            j.wf(),
            j.sequences() == Seq::<u64>::empty(),
            j.next() == 1,
            !j.is_available(),
            j.detail_view() == Some(connecting_detail()),
    {
        let j = EventJournal {
            next_sequence: 1,
            entries: Vec::new(),
            available: false,
            detail: Some(String::from_str("event_stream_connecting")),
        };
        assert(j.sequences() =~= Seq::<u64>::empty());
        j
    }

    /// Journals an event under the next sequence number, dropping the oldest entry when the
    /// journal is full. Returns the event's sequence number.
    pub fn publish(&mut self, event: E) -> (sequence: u64)
        requires
            old(self).wf(),
        ensures
            final(self).wf(),
            sequence == old(self).next(),
            final(self).next() == if old(self).next() == u64::MAX {
                u64::MAX
            } else {
                (old(self).next() + 1) as u64
            },
            final(self).sequences() == if old(self).sequences().len() == EVENT_JOURNAL_CAPACITY {
                old(self).sequences().drop_first().push(sequence)
            } else {
                old(self).sequences().push(sequence)
            },
            final(self).events() == if old(self).sequences().len() == EVENT_JOURNAL_CAPACITY {
                old(self).events().drop_first().push(event)
            } else {
                old(self).events().push(event)
            },
            final(self).is_available() == old(self).is_available(),
            final(self).detail_view() == old(self).detail_view(),
    {
        let sequence = self.next_sequence;
        self.next_sequence = self.next_sequence.saturating_add(1);
        if self.entries.len() == EVENT_JOURNAL_CAPACITY {
            self.entries.remove(0);
        }
        self.entries.push(JournalEntry { sequence, event });
        proof {
            let ghost olds = old(self).entries@;
            if olds.len() == EVENT_JOURNAL_CAPACITY {
                assert(forall|i: int| 0 <= i < self.entries@.len() - 1 ==> #[trigger] self.entries@[i] == olds[i + 1]);
            } else {
                assert(forall|i: int| 0 <= i < self.entries@.len() - 1 ==> #[trigger] self.entries@[i] == olds[i]);
            }
        }
        assert(self.sequences() =~= if old(self).sequences().len() == EVENT_JOURNAL_CAPACITY {
            old(self).sequences().drop_first().push(sequence)
        } else {
            old(self).sequences().push(sequence)
        });
        assert(self.events() =~= if old(self).sequences().len() == EVENT_JOURNAL_CAPACITY {
            old(self).events().drop_first().push(event)
        } else {
            old(self).events().push(event)
        });
        sequence
    }

    /// Marks the stream unavailable with `detail`; returns whether that changed anything
    /// (it was available, or had another detail), i.e. whether subscribers must be told.
    pub fn mark_unavailable(&mut self, detail: String) -> (changed: bool)
        requires
            old(self).wf(),
        ensures
            final(self).wf(),
            changed == (old(self).is_available() || old(self).detail_view() != Some(detail@)),
            !final(self).is_available(),
            final(self).detail_view() == Some(detail@),
            final(self).sequences() == old(self).sequences(),
            final(self).events() == old(self).events(),
            final(self).next() == old(self).next(),
    {
        let same_detail = match &self.detail {
            Some(d) => *d == detail,
            None => false,
        };
        let changed = self.available || !same_detail;
        self.available = false;
        self.detail = Some(detail);
        changed
    }

    /// Marks the stream available; returns whether it was not before.
    pub fn mark_available(&mut self) -> (changed: bool)
        requires
            old(self).wf(),
        ensures
            final(self).wf(),
            changed == !old(self).is_available(),
            final(self).is_available(),
            final(self).detail_view() is None,
            final(self).sequences() == old(self).sequences(),
            final(self).events() == old(self).events(),
            final(self).next() == old(self).next(),
    {
        let changed = !self.available;
        self.available = true;
        self.detail = None;
        changed
    }

    /// Whether the stream is available, and the unavailability detail.
    pub fn status(&self) -> (r: (bool, Option<String>))
        ensures
            r.0 == self.is_available(),
            opt_view(r.1) == self.detail_view(),
    {
        let detail = match &self.detail {
            Some(d) => Some(d.clone()),
            None => None,
        };
        (self.available, detail)
    }

    /// What a new subscriber is told first about the stream: nothing while it is available,
    /// otherwise its unavailability detail (`event_stream_unavailable` when none was given).
    pub fn initial_status(&self) -> (r: Option<String>)
        ensures
            self.is_available() ==> r is None,
            !self.is_available() ==> opt_view(r) == Some(match self.detail_view() {
                Some(d) => d,
                None => "event_stream_unavailable"@,
            }),
    {
        if self.available {
            return None;
        }
        match &self.detail {
            Some(d) => Some(d.clone()),
            None => Some(String::from_str("event_stream_unavailable")),
        }
    }

    /// The journalled entries, oldest first.
    pub fn entries(&self) -> (r: &Vec<JournalEntry<E>>)
        ensures
            r@.len() == self.sequences().len(),
            forall|i: int| 0 <= i < r@.len() ==> (#[trigger] r@[i]).sequence == self.sequences()[i]
                && r@[i].event == self.events()[i],
    {
        &self.entries
    }
}

/// The newest sequence number a subscriber has delivered.
#[derive(Debug, Clone, Copy, PartialEq, Eq)]
pub struct SubscriberProgress {
    pub delivered: u64,
}

impl SubscriberProgress {
    /// Nothing delivered yet.
    pub fn new() -> (p: SubscriberProgress)
        ensures
            p.delivered == 0,
    {
        SubscriberProgress { delivered: 0 }
    }

    /// Whether an event is new to the subscriber (replayed and live copies of one event are
    /// delivered once); a new event advances the progress to it.
    pub fn accept(&mut self, sequence: u64) -> (fresh: bool)
        ensures
            (fresh, final(self).delivered) == delivery(old(self).delivered, sequence),
    {
        if sequence <= self.delivered {
            false
        } else {
            self.delivered = sequence;
            true
        }
    }
}

/// The delivery decision for `sequence` after `delivered`: whether it is fresh, and the new
/// progress.
pub open spec fn delivery(delivered: u64, sequence: u64) -> (bool, u64) {
    if sequence > delivered {
        (true, sequence)
    } else {
        (false, delivered)
    }
}

/// Once a subscriber has delivered an event, it never delivers that event, or an older one,
/// again; and progress never goes back.
pub proof fn lemma_delivered_once(delivered: u64, sequence: u64, later: u64)
    requires
        later <= sequence,
    ensures
        !delivery(delivery(delivered, sequence).1, later).0,
        delivery(delivered, sequence).1 >= delivered,
{
}

/// Why a subscriber stopped receiving live events.
#[derive(Debug, Clone, Copy, PartialEq, Eq)]
pub enum ReceiveFailure {
    /// The subscriber fell behind and this many events were skipped.
    Lagged(u64),
    /// The hub was dropped.
    Closed,
}

/// The unavailability detail reported to a subscriber that stopped receiving.
pub open spec fn failure_detail(f: ReceiveFailure) -> Seq<char> {
    match f {
        ReceiveFailure::Lagged(skipped) => "local_event_subscriber_lagged:"@ + decimal(skipped as nat),
        ReceiveFailure::Closed => "session_event_hub_closed"@,
    }
}

/// The unavailability detail reported to a subscriber that stopped receiving.
pub fn receive_failure_detail(f: ReceiveFailure) -> (s: String)
    ensures
        s@ == failure_detail(f),
{
    let mut out: Vec<char> = Vec::new();
    match f {
        ReceiveFailure::Lagged(skipped) => {
            push_str(&mut out, "local_event_subscriber_lagged:");
            push_decimal(&mut out, skipped);
        },
        ReceiveFailure::Closed => push_str(&mut out, "session_event_hub_closed"),
    }
    assert(out@ =~= failure_detail(f));
    string_from_chars(&out)
}

} // verus!
