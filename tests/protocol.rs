use codeshare::image::ImageData;
use codeshare::protocol::{
    inbound_step, outbound_step, Frame, InboundStep, OutboundStep, StoreUpdate, TopicEvent, WsMessage,
};

fn edit(content: &str, language: &str) -> Frame {
    Frame::Message(WsMessage::Edit { content: content.to_string(), language: language.to_string() })
}

#[test]
fn edit_is_persisted_and_broadcast() {
    let step = inbound_step(edit("x=1", "python"));
    assert_eq!(
        step,
        InboundStep::Apply {
            update: StoreUpdate::Text { content: "x=1".to_string(), language: "python".to_string() },
            broadcast: WsMessage::BroadcastEdit { content: "x=1".to_string(), language: "python".to_string() },
        }
    );
}

#[test]
fn malformed_frame_is_skipped_and_later_edit_applies() {
    assert_eq!(inbound_step(Frame::Malformed), InboundStep::Skip);
    match inbound_step(edit("y", "rust")) {
        InboundStep::Apply { broadcast, .. } => assert_eq!(
            broadcast,
            WsMessage::BroadcastEdit { content: "y".to_string(), language: "rust".to_string() }
        ),
        other => panic!("unexpected step {other:?}"),
    }
}

#[test]
fn image_and_removal_are_persisted_and_broadcast() {
    let image = ImageData { id: "i1".to_string(), data_url: "data:x".to_string(), width: 3, height: 4 };
    assert_eq!(
        inbound_step(Frame::Message(WsMessage::Image { image: image.clone() })),
        InboundStep::Apply {
            update: StoreUpdate::AddImage(image.clone()),
            broadcast: WsMessage::BroadcastImage { image },
        }
    );
    assert_eq!(
        inbound_step(Frame::Message(WsMessage::RemoveImage { id: "i1".to_string() })),
        InboundStep::Apply {
            update: StoreUpdate::RemoveImage("i1".to_string()),
            broadcast: WsMessage::BroadcastRemoveImage { id: "i1".to_string() },
        }
    );
}

#[test]
fn server_messages_and_other_frames_are_skipped() {
    assert_eq!(inbound_step(Frame::Message(WsMessage::Viewers { count: 3 })), InboundStep::Skip);
    assert_eq!(
        inbound_step(Frame::Message(WsMessage::BroadcastEdit { content: "a".to_string(), language: "b".to_string() })),
        InboundStep::Skip
    );
    assert_eq!(inbound_step(Frame::Other), InboundStep::Skip);
}

#[test]
fn close_and_failure_end_the_session() {
    assert_eq!(inbound_step(Frame::Close), InboundStep::Stop);
    assert_eq!(inbound_step(Frame::Failed), InboundStep::Stop);
}

#[test]
fn edits_are_broadcast_in_order_sent() {
    let sent = [("a", "js"), ("ab", "js"), ("abc", "go")];
    let mut published = Vec::new();
    for (c, l) in sent {
        if let InboundStep::Apply { broadcast, .. } = inbound_step(edit(c, l)) {
            published.push(broadcast);
        }
        assert_eq!(inbound_step(Frame::Malformed), InboundStep::Skip);
    }
    let expected: Vec<WsMessage> = sent
        .iter()
        .map(|(c, l)| WsMessage::BroadcastEdit { content: c.to_string(), language: l.to_string() })
        .collect();
    assert_eq!(published, expected);
}

#[test]
fn outbound_forwards_verbatim() {
    assert_eq!(
        outbound_step(TopicEvent::Message("{\"type\":\"viewers\",\"count\":2}".to_string())),
        OutboundStep::Forward("{\"type\":\"viewers\",\"count\":2}".to_string())
    );
}

#[test]
fn outbound_tolerates_lag_and_stops_on_close() {
    assert_eq!(outbound_step(TopicEvent::Lagged(5)), OutboundStep::Skip);
    assert_eq!(outbound_step(TopicEvent::Closed), OutboundStep::Stop);
}
