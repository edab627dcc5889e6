//! The lifecycle of one viewer's connection, and the viewer counts it announces.
use vstd::prelude::*;
use crate::protocol::WsMessage;

verus! {

/// Where a connection stands.
#[derive(Debug, Clone, Copy, PartialEq, Eq)]
pub enum Phase {
    /// Upgraded, not yet subscribed.
    Connecting,
    /// Subscribed; both directions run.
    Active,
    /// One direction ended; the other is being stopped.
    Closing,
    /// The leave has been announced; nothing more is accepted or delivered.
    Closed,
}

/// One viewer's connection to a room.
#[derive(Debug)]
pub struct Session {
    slug: String,
    phase: Phase,
}

/// The count announced when a viewer joins a room that had `before` viewers.
pub open spec fn joined_count(before: nat) -> nat {
    before + 1
}

/// The count announced when a viewer leaves a room that has `current` viewers,
/// the leaving one included.
pub open spec fn left_count(current: nat) -> nat {
    if current > 0 {
        (current - 1) as nat
    } else {
        0
    }
}

impl Session {
    /// The room's slug.
    pub closed spec fn slug_view(&self) -> Seq<char> {
        self.slug@
    }

    /// The current phase.
    pub closed spec fn phase_view(&self) -> Phase {
        self.phase
    }

    /// A connection to the room `slug`, not yet subscribed.
    pub fn new(slug: String) -> (r: Session)
        ensures
            r.slug_view() == slug@,
            r.phase_view() == Phase::Connecting,
    {
        Session { slug, phase: Phase::Connecting }
    }

    /// The current phase.
    pub fn phase(&self) -> (r: Phase)
        ensures
            r == self.phase_view(),
    {
        self.phase
    }

    /// The room's slug.
    pub fn slug(&self) -> (r: &String)
        ensures
            r@ == self.slug_view(),
    {
        &self.slug
    }

    /// Whether inbound frames and topic messages are still handled.
    pub fn is_active(&self) -> (r: bool)
        ensures
            r == (self.phase_view() == Phase::Active),
    {
        match self.phase {
            Phase::Active => true,
            _ => false,
        }
    }

    /// Joins the room, which had `viewers_before` viewers: returns the
    /// greeting for this viewer and the count to publish to the room.
    pub fn open(&mut self, viewers_before: usize) -> (r: (WsMessage, WsMessage))
        requires
            old(self).phase_view() == Phase::Connecting,
            viewers_before < usize::MAX,
        ensures
            final(self).phase_view() == Phase::Active,
            final(self).slug_view() == old(self).slug_view(),
            r.0 is Connected,
            r.0->Connected_slug@ == old(self).slug_view(),
            r.0->Connected_viewers == viewers_before,
            r.1 is Viewers,
            r.1->Viewers_count == joined_count(viewers_before as nat),
    {
        self.phase = Phase::Active;
        let greeting = WsMessage::Connected { slug: self.slug.clone(), viewers: viewers_before };
        (greeting, WsMessage::Viewers { count: viewers_before + 1 })
    }

    /// Records that one direction has ended.
    pub fn begin_close(&mut self)
        ensures
            final(self).slug_view() == old(self).slug_view(),
            old(self).phase_view() == Phase::Active ==> final(self).phase_view() == Phase::Closing,
            old(self).phase_view() != Phase::Active ==> final(self).phase_view()
                == old(self).phase_view(),
    {
        if self.is_active() {
            self.phase = Phase::Closing;
        }
    }

    /// Leaves the room, which has `subscribers` subscribers with this one
    /// still among them: returns the count to publish, once, for a session
    /// that had joined.
    pub fn close(&mut self, subscribers: usize) -> (r: Option<WsMessage>)
        ensures
            final(self).phase_view() == Phase::Closed,
            final(self).slug_view() == old(self).slug_view(),
            (old(self).phase_view() == Phase::Active || old(self).phase_view() == Phase::Closing)
                ==> r == Some(WsMessage::Viewers { count: left_count(subscribers as nat) as usize }),
            (old(self).phase_view() == Phase::Connecting || old(self).phase_view() == Phase::Closed)
                ==> r is None,
    {
        let r = match self.phase {
            Phase::Active | Phase::Closing => Some(
                WsMessage::Viewers { count: subscribers.saturating_sub(1) },
            ),
            Phase::Connecting | Phase::Closed => None,
        };
        self.phase = Phase::Closed;
        r
    }
}

/// A change in who is subscribed to a room.
#[derive(Debug, Clone, Copy, PartialEq, Eq)]
pub enum RoomEvent {
    Join,
    Leave,
}

/// Whether every leave in `events` is by one of the viewers subscribed at
/// that point, starting from `start` viewers.
pub open spec fn leaves_follow_joins(start: nat, events: Seq<RoomEvent>) -> bool
    decreases events.len(),
{
    if events.len() == 0 {
        true
    } else {
        match events[0] {
            RoomEvent::Join => leaves_follow_joins(start + 1, events.drop_first()),
            RoomEvent::Leave => start > 0 && leaves_follow_joins(
                (start - 1) as nat,
                events.drop_first(),
            ),
        }
    }
}

/// The number of subscribers after `events`, starting from `start`.
pub open spec fn subscribers_after(start: nat, events: Seq<RoomEvent>) -> nat
    decreases events.len(),
{
    if events.len() == 0 {
        start
    } else {
        match events[0] {
            RoomEvent::Join => subscribers_after(start + 1, events.drop_first()),
            RoomEvent::Leave => subscribers_after(
                if start > 0 {
                    (start - 1) as nat
                } else {
                    0
                },
                events.drop_first(),
            ),
        }
    }
}

/// The last count announced to the room over `events`, starting from
/// `start` viewers: a join announces `joined_count` of the viewers before
/// it, a leave announces `left_count` of the viewers with the leaver.
pub open spec fn last_announced(start: nat, events: Seq<RoomEvent>) -> nat
    recommends
        events.len() > 0,
    decreases events.len(),
{
    if events.len() <= 1 {
        match events[0] {
            RoomEvent::Join => joined_count(start),
            RoomEvent::Leave => left_count(start),
        }
    } else {
        match events[0] {
            RoomEvent::Join => last_announced(start + 1, events.drop_first()),
            RoomEvent::Leave => last_announced(
                if start > 0 {
                    (start - 1) as nat
                } else {
                    0
                },
                events.drop_first(),
            ),
        }
    }
}

/// Once the joins and leaves have settled, the last viewer count announced
/// to the room is the number of viewers subscribed.
pub proof fn lemma_viewer_count_settles(start: nat, events: Seq<RoomEvent>)
    requires
        events.len() > 0,
        leaves_follow_joins(start, events),
    ensures
        last_announced(start, events) == subscribers_after(start, events),
    decreases events.len(),
{
    if events.len() > 1 {
        match events[0] {
            RoomEvent::Join => lemma_viewer_count_settles(start + 1, events.drop_first()),
            RoomEvent::Leave => lemma_viewer_count_settles((start - 1) as nat, events.drop_first()),
        }
    } else {
        let rest = events.drop_first();
        assert(rest.len() == 0);
        assert(subscribers_after(start + 1, rest) == start + 1);
        if start > 0 {
            assert(subscribers_after((start - 1) as nat, rest) == start - 1);
        }
    }
}

} // verus!
