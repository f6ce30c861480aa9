use sendfiles::devices::EndpointInfo;
use sendfiles::transfer::{
    discovery_step, events_for, message_step, start_failure, ChannelMessage, ClientMessage, LoopStep,
    Progress, Received, ServiceEvent, TransferMetadata, TransferPayload, TransferState,
};

fn message(state: Option<TransferState>, metadata: Option<TransferMetadata>) -> ChannelMessage {
    ChannelMessage { id: "t1".to_string(), client: Some(ClientMessage { state, metadata }) }
}

fn metadata(ack_bytes: u64, total_bytes: u64) -> TransferMetadata {
    TransferMetadata {
        source: Some("Pixel".to_string()),
        payload: Some(TransferPayload::Files(vec!["a".to_string(), "b".to_string()])),
        total_bytes,
        ack_bytes,
    }
}

/// One line for each event.
fn lines(events: Vec<ServiceEvent>) -> Vec<String> {
    let mut lines = Vec::new();
    for event in events {
        lines.push(match event {
            ServiceEvent::EndpointFound(endpoint) => format!("found {}", endpoint.id),
            ServiceEvent::InboundRequest { id, device_name, files_count, total_bytes } => {
                format!("request {} {} {} {}", id, device_name, files_count, total_bytes)
            }
            ServiceEvent::OutboundStarted(id) => format!("started {}", id),
            ServiceEvent::Progress(p) => format!("progress {}/{} {}", p.acknowledged(), p.total(), p.text()),
            ServiceEvent::Finished => "finished".to_string(),
            ServiceEvent::Error(reason) => format!("error {}", reason),
        });
    }
    lines
}

#[test]
fn consent_is_asked_for_with_what_is_known() {
    let asked = message(Some(TransferState::WaitingForUserConsent), Some(metadata(0, 2048)));
    assert_eq!(lines(events_for(asked)), vec!["request t1 Pixel 2 2048"]);
}

#[test]
fn consent_is_asked_for_by_unknown_devices() {
    let bare = message(Some(TransferState::WaitingForUserConsent), None);
    assert_eq!(lines(events_for(bare)), vec!["request t1 Unknown Device 0 0"]);
    let other = TransferMetadata {
        source: None,
        payload: Some(TransferPayload::Other),
        total_bytes: 7,
        ack_bytes: 0,
    };
    let asked = message(Some(TransferState::WaitingForUserConsent), Some(other));
    assert_eq!(lines(events_for(asked)), vec!["request t1 Unknown Device 0 7"]);
    let empty = TransferMetadata { source: None, payload: None, total_bytes: 0, ack_bytes: 0 };
    let asked = message(Some(TransferState::WaitingForUserConsent), Some(empty));
    assert_eq!(lines(events_for(asked)), vec!["request t1 Unknown Device 0 0"]);
}

#[test]
fn receiving_tells_progress() {
    let running = message(Some(TransferState::ReceivingFiles), Some(metadata(512, 2048)));
    assert_eq!(lines(events_for(running)), vec!["progress 512/2048 25%"]);
}

#[test]
fn sending_tells_id_then_progress() {
    let running = message(Some(TransferState::SendingFiles), Some(metadata(2048, 2048)));
    assert_eq!(lines(events_for(running)), vec!["started t1", "progress 2048/2048 100%"]);
}

#[test]
fn transfers_of_zero_bytes_have_no_progress() {
    let receiving = message(Some(TransferState::ReceivingFiles), Some(metadata(0, 0)));
    assert!(events_for(receiving).is_empty());
    let sending = message(Some(TransferState::SendingFiles), Some(metadata(0, 0)));
    assert_eq!(lines(events_for(sending)), vec!["started t1"]);
    assert!(Progress::new(3, 0).is_none());
}

#[test]
fn running_transfers_without_metadata_tell_nothing() {
    assert!(events_for(message(Some(TransferState::ReceivingFiles), None)).is_empty());
    assert!(events_for(message(Some(TransferState::SendingFiles), None)).is_empty());
}

#[test]
fn transfers_end() {
    let done = message(Some(TransferState::Finished), None);
    assert_eq!(lines(events_for(done)), vec!["finished"]);
    for state in [TransferState::Rejected, TransferState::Cancelled, TransferState::Disconnected] {
        let ended = message(Some(state), Some(metadata(1, 2)));
        assert_eq!(lines(events_for(ended)), vec!["error Transfer ended prematurely"]);
    }
}

#[test]
fn other_messages_tell_nothing() {
    assert!(events_for(message(None, Some(metadata(1, 2)))).is_empty());
    assert!(events_for(message(Some(TransferState::Initial), Some(metadata(1, 2)))).is_empty());
    assert!(events_for(message(Some(TransferState::Other), Some(metadata(1, 2)))).is_empty());
    assert!(events_for(ChannelMessage { id: "t1".to_string(), client: None }).is_empty());
}

#[test]
fn listening_for_devices_goes_on_until_the_channel_closes() {
    let found = EndpointInfo { id: "AAAA".to_string(), name: None, ip: None, port: None };
    match discovery_step(Received::Message(found)) {
        LoopStep::Continue(events) => assert_eq!(lines(events), vec!["found AAAA"]),
        LoopStep::Stop => panic!("stopped"),
    }
    assert!(matches!(discovery_step(Received::Lagged(3)), LoopStep::Continue(events) if events.is_empty()));
    assert!(matches!(discovery_step(Received::Closed), LoopStep::Stop));
}

#[test]
fn listening_for_messages_goes_on_until_the_channel_closes() {
    match message_step(Received::Message(message(Some(TransferState::Finished), None))) {
        LoopStep::Continue(events) => assert_eq!(lines(events), vec!["finished"]),
        LoopStep::Stop => panic!("stopped"),
    }
    assert!(matches!(message_step(Received::Lagged(1)), LoopStep::Continue(events) if events.is_empty()));
    assert!(matches!(message_step(Received::Closed), LoopStep::Stop));
}

#[test]
fn failed_start_is_told() {
    assert_eq!(lines(vec![start_failure()]), vec!["error Failed to start service"]);
}
