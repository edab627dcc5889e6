//! The messages of a room and what a session does with each of them.
use vstd::prelude::*;
use crate::image::ImageData;

verus! {

/// A message on the wire between a viewer and its room.
#[derive(Debug, Clone, PartialEq, Eq)]
pub enum WsMessage {
    /// From a viewer: the text and its language after an edit.
    Edit { content: String, language: String },
    /// From a viewer: an image to attach.
    Image { image: ImageData },
    /// From a viewer: the key of an image to detach.
    RemoveImage { id: String },
    /// To the room: an edit made by some viewer.
    BroadcastEdit { content: String, language: String },
    /// To the room: an image attached by some viewer.
    BroadcastImage { image: ImageData },
    /// To the room: an image detached by some viewer.
    BroadcastRemoveImage { id: String },
    /// To a joining viewer only: the room and how many viewers it had.
    Connected { slug: String, viewers: usize },
    /// To the room: the number of viewers changed.
    Viewers { count: usize },
}

/// A partial update of the stored snippet.
#[derive(Debug, Clone, PartialEq, Eq)]
pub enum StoreUpdate {
    /// Set text and language, on a snippet that is still live.
    Text { content: String, language: String },
    /// Append the image unless its key is already stored.
    AddImage(ImageData),
    /// Drop the images with this key.
    RemoveImage(String),
}

/// What a viewer's socket delivered, once decoded.
#[derive(Debug, Clone, PartialEq, Eq)]
pub enum Frame {
    /// A text frame that decodes to a message.
    Message(WsMessage),
    /// A text frame that decodes to no known message.
    Malformed,
    /// A binary, ping or pong frame.
    Other,
    /// A close frame.
    Close,
    /// A read error, or the end of the stream.
    Failed,
}

/// What the inbound direction does with one frame.
#[derive(Debug, Clone, PartialEq, Eq)]
pub enum InboundStep {
    /// Persist `update`, then publish `broadcast` to the room.
    Apply { update: StoreUpdate, broadcast: WsMessage },
    /// Ignore the frame and read the next one.
    Skip,
    /// End the session.
    Stop,
}

/// What the room's topic delivered to a subscriber.
#[derive(Debug, Clone, PartialEq, Eq)]
pub enum TopicEvent {
    /// The next message, as published.
    Message(String),
    /// The subscriber fell behind and this many messages were dropped.
    Lagged(u64),
    /// The topic has no publisher left.
    Closed,
}

/// What the outbound direction does with one topic event.
#[derive(Debug, Clone, PartialEq, Eq)]
pub enum OutboundStep {
    /// Write the text to the viewer's socket as it is.
    Forward(String),
    /// Nothing to write; wait for the next event.
    Skip,
    /// End the session.
    Stop,
}

/// The step for one inbound frame: the three viewer messages are persisted
/// and re-published; other messages and undecodable or non-text frames are
/// ignored; a close frame or a failed read ends the session.
pub open spec fn inbound_plan(f: Frame) -> InboundStep {
    match f {
        Frame::Message(WsMessage::Edit { content, language }) => InboundStep::Apply {
            update: StoreUpdate::Text { content, language },
            broadcast: WsMessage::BroadcastEdit { content, language },
        },
        Frame::Message(WsMessage::Image { image }) => InboundStep::Apply {
            update: StoreUpdate::AddImage(image),
            broadcast: WsMessage::BroadcastImage { image },
        },
        Frame::Message(WsMessage::RemoveImage { id }) => InboundStep::Apply {
            update: StoreUpdate::RemoveImage(id),
            broadcast: WsMessage::BroadcastRemoveImage { id },
        },
        Frame::Message(_) | Frame::Malformed | Frame::Other => InboundStep::Skip,
        Frame::Close | Frame::Failed => InboundStep::Stop,
    }
}

/// The step for one topic event: messages are forwarded verbatim, a lag is
/// tolerated, a closed topic ends the session.
pub open spec fn outbound_plan(e: TopicEvent) -> OutboundStep {
    match e {
        TopicEvent::Message(m) => OutboundStep::Forward(m),
        TopicEvent::Lagged(_) => OutboundStep::Skip,
        TopicEvent::Closed => OutboundStep::Stop,
    }
}

/// Decides what the inbound direction does with a frame.
pub fn inbound_step(frame: Frame) -> (r: InboundStep)
    ensures
        r == inbound_plan(frame),
{
    match frame {
        Frame::Message(WsMessage::Edit { content, language }) => {
            let broadcast = WsMessage::BroadcastEdit {
                content: content.clone(),
                language: language.clone(),
            };
            InboundStep::Apply { update: StoreUpdate::Text { content, language }, broadcast }
        },
        Frame::Message(WsMessage::Image { image }) => {
            let broadcast = WsMessage::BroadcastImage { image: image.duplicate() };
            InboundStep::Apply { update: StoreUpdate::AddImage(image), broadcast }
        },
        Frame::Message(WsMessage::RemoveImage { id }) => {
            let broadcast = WsMessage::BroadcastRemoveImage { id: id.clone() };
            InboundStep::Apply { update: StoreUpdate::RemoveImage(id), broadcast }
        },
        Frame::Message(_) | Frame::Malformed | Frame::Other => InboundStep::Skip,
        Frame::Close | Frame::Failed => InboundStep::Stop,
    }
}

/// Decides what the outbound direction does with a topic event.
pub fn outbound_step(event: TopicEvent) -> (r: OutboundStep)
    ensures
        r == outbound_plan(event),
{
    match event {
        TopicEvent::Message(m) => OutboundStep::Forward(m),
        TopicEvent::Lagged(_) => OutboundStep::Skip,
        TopicEvent::Closed => OutboundStep::Stop,
    }
}

/// The messages that the inbound direction publishes for `frames`, in order,
/// up to the frame that ends the session.
pub open spec fn published(frames: Seq<Frame>) -> Seq<WsMessage>
    decreases frames.len(),
{
    if frames.len() == 0 {
        Seq::empty()
    } else {
        match inbound_plan(frames[0]) {
            InboundStep::Apply { update, broadcast } => seq![broadcast] + published(
                frames.drop_first(),
            ),
            InboundStep::Skip => published(frames.drop_first()),
            InboundStep::Stop => Seq::empty(),
        }
    }
}

/// The texts that the outbound direction writes for `events`, in order, up
/// to the event that ends the session.
pub open spec fn forwarded(events: Seq<TopicEvent>) -> Seq<String>
    decreases events.len(),
{
    if events.len() == 0 {
        Seq::empty()
    } else {
        match outbound_plan(events[0]) {
            OutboundStep::Forward(m) => seq![m] + forwarded(events.drop_first()),
            OutboundStep::Skip => forwarded(events.drop_first()),
            OutboundStep::Stop => Seq::empty(),
        }
    }
}

/// The frame of an edit with the given text and language.
pub open spec fn edit_frame(e: (String, String)) -> Frame {
    Frame::Message(WsMessage::Edit { content: e.0, language: e.1 })
}

/// The broadcast of an edit with the given text and language.
pub open spec fn edit_broadcast(e: (String, String)) -> WsMessage {
    WsMessage::BroadcastEdit { content: e.0, language: e.1 }
}

/// Edits sent by one viewer are published as broadcast edits in the order
/// sent, and a viewer subscribed to the room writes what its topic delivers
/// in the order delivered, so every other viewer receives the edits in the
/// order the sender made them.
pub proof fn lemma_edits_arrive_in_order(edits: Seq<(String, String)>, delivered: Seq<String>)
    ensures
        published(edits.map_values(|e: (String, String)| edit_frame(e))) == edits.map_values(
            |e: (String, String)| edit_broadcast(e),
        ),
        forwarded(delivered.map_values(|m: String| TopicEvent::Message(m))) == delivered,
    decreases edits.len() + delivered.len(),
{
    let frames = edits.map_values(|e: (String, String)| edit_frame(e));
    let events = delivered.map_values(|m: String| TopicEvent::Message(m));
    if edits.len() > 0 {
        lemma_edits_arrive_in_order(edits.drop_first(), Seq::empty());
        assert(frames.drop_first() =~= edits.drop_first().map_values(
            |e: (String, String)| edit_frame(e),
        ));
        assert(edits.map_values(|e: (String, String)| edit_broadcast(e)) =~= seq![
            edit_broadcast(edits[0]),
        ] + edits.drop_first().map_values(|e: (String, String)| edit_broadcast(e)));
    }
    if delivered.len() > 0 {
        lemma_edits_arrive_in_order(Seq::empty(), delivered.drop_first());
        assert(events.drop_first() =~= delivered.drop_first().map_values(
            |m: String| TopicEvent::Message(m),
        ));
        assert(delivered =~= seq![delivered[0]] + delivered.drop_first());
    }
    if edits.len() == 0 {
        assert(frames =~= Seq::<Frame>::empty());
        assert(edits.map_values(|e: (String, String)| edit_broadcast(e)) =~= Seq::<WsMessage>::empty());
    }
    if delivered.len() == 0 {
        assert(events =~= Seq::<TopicEvent>::empty());
    }
}

} // verus!
