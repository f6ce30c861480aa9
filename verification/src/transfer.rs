//! From the messages of the transfer service to the events that the user
//! interface takes in.
use vstd::prelude::*;
use vstd::string::*;
use crate::devices::{EndpointInfo, EndpointView};
use crate::figures::{percent_shown, percent_text};

verus! {

/// How far a transfer has come, as its messages tell. The steps of the
/// handshake that mean nothing to the user are `Other`.
#[derive(Clone, Copy, Debug, PartialEq, Eq, Structural)]
pub enum TransferState {
    Initial,
    WaitingForUserConsent,
    ReceivingFiles,
    SendingFiles,
    Finished,
    Rejected,
    Cancelled,
    Disconnected,
    Other,
}

/// What a transfer carries.
pub enum TransferPayload {
    /// The names of files.
    Files(Vec<String>),
    /// Anything else, such as a text.
    Other,
}

/// What is known of a transfer.
pub struct TransferMetadata {
    /// The name of the sending device.
    pub source: Option<String>,
    pub payload: Option<TransferPayload>,
    pub total_bytes: u64,
    pub ack_bytes: u64,
}

/// News of a transfer.
pub struct ClientMessage {
    pub state: Option<TransferState>,
    pub metadata: Option<TransferMetadata>,
}

/// A message on the channel that the service and its clients share.
pub struct ChannelMessage {
    /// The transfer that it is about.
    pub id: String,
    /// The news; `None` in a message from a client to the service.
    pub client: Option<ClientMessage>,
}

/// The part of a transfer that has been acknowledged; its total is not zero.
#[derive(Clone, Copy, Debug)]
pub struct Progress {
    acknowledged: u64,
    total: u64,
}

/// The contents of a [`Progress`].
pub struct ProgressView {
    pub acknowledged: nat,
    pub total: nat,
}

impl View for Progress {
    type V = ProgressView;

    closed spec fn view(&self) -> ProgressView {
        ProgressView { acknowledged: self.acknowledged as nat, total: self.total as nat }
    }
}

impl ProgressView {
    /// The text in a progress bar.
    pub open spec fn shown(self) -> Seq<char> {
        percent_shown(self.acknowledged, self.total)
    }
}

impl Progress {
    #[verifier::type_invariant]
    spec fn has_total(self) -> bool {
        self.total > 0
    }

    /// The progress of a transfer, which one of zero bytes does not have.
    pub fn new(acknowledged: u64, total: u64) -> (progress: Option<Progress>)
        ensures
            match progress {
                Some(p) => total > 0 && p@ == (ProgressView {
                    acknowledged: acknowledged as nat,
                    total: total as nat,
                }),
                None => total == 0,
            },
    {
        if total > 0 {
            Some(Progress { acknowledged, total })
        } else {
            None
        }
    }

    /// The bytes acknowledged.
    pub fn acknowledged(&self) -> (bytes: u64)
        ensures
            bytes == self@.acknowledged,
    {
        self.acknowledged
    }

    /// The bytes of the whole transfer.
    pub fn total(&self) -> (bytes: u64)
        ensures
            bytes == self@.total,
            bytes > 0,
    {
        proof {
            use_type_invariant(self);
        }
        self.total
    }

    /// The text in a progress bar.
    pub fn text(&self) -> (text: String)
        ensures
            text@ == self@.shown(),
    {
        proof {
            use_type_invariant(self);
        }
        percent_text(self.acknowledged, self.total)
    }
}

/// What the user interface is told.
#[derive(Clone, Debug)]
pub enum ServiceEvent {
    EndpointFound(EndpointInfo),
    InboundRequest { id: String, device_name: String, files_count: usize, total_bytes: u64 },
    OutboundStarted(String),
    Progress(Progress),
    Finished,
    Error(String),
}

/// The contents of a [`ServiceEvent`].
#[verifier::ext_equal]
pub enum EventView {
    EndpointFound(EndpointView),
    InboundRequest { id: Seq<char>, device_name: Seq<char>, files_count: nat, total_bytes: nat },
    OutboundStarted(Seq<char>),
    Progress(ProgressView),
    Finished,
    Error(Seq<char>),
}

impl View for ServiceEvent {
    type V = EventView;

    open spec fn view(&self) -> EventView {
        match *self {
            ServiceEvent::EndpointFound(endpoint) => EventView::EndpointFound(endpoint@),
            ServiceEvent::InboundRequest { id, device_name, files_count, total_bytes } =>
                EventView::InboundRequest {
                id: id@,
                device_name: device_name@,
                files_count: files_count as nat,
                total_bytes: total_bytes as nat,
            },
            ServiceEvent::OutboundStarted(id) => EventView::OutboundStarted(id@),
            ServiceEvent::Progress(progress) => EventView::Progress(progress@),
            ServiceEvent::Finished => EventView::Finished,
            ServiceEvent::Error(reason) => EventView::Error(reason@),
        }
    }
}

/// The contents of a list of events.
pub open spec fn event_views(events: Seq<ServiceEvent>) -> Seq<EventView> {
    events.map_values(|event: ServiceEvent| event@)
}

impl TransferMetadata {
    /// The number of files: none in a transfer of anything else.
    pub open spec fn files(self) -> nat {
        match self.payload {
            Some(TransferPayload::Files(names)) => names@.len(),
            _ => 0,
        }
    }

    /// The name shown for the sending device.
    pub open spec fn sender(self) -> Seq<char> {
        match self.source {
            Some(name) => name@,
            None => "Unknown Device"@,
        }
    }
}

/// The request for the user's consent to the transfer `id`.
pub open spec fn request_of(id: Seq<char>, metadata: Option<TransferMetadata>) -> EventView {
    match metadata {
        Some(known) => EventView::InboundRequest {
            id,
            device_name: known.sender(),
            files_count: known.files(),
            total_bytes: known.total_bytes as nat,
        },
        None => EventView::InboundRequest {
            id,
            device_name: "Unknown Device"@,
            files_count: 0,
            total_bytes: 0,
        },
    }
}

/// The progress of a transfer of more than zero bytes.
pub open spec fn progress_of(metadata: TransferMetadata) -> Seq<EventView> {
    if metadata.total_bytes > 0 {
        seq![
            EventView::Progress(
                ProgressView {
                    acknowledged: metadata.ack_bytes as nat,
                    total: metadata.total_bytes as nat,
                },
            ),
        ]
    } else {
        Seq::empty()
    }
}

/// The events that the news of the transfer `id` comes to. A message without a
/// state tells of none.
pub open spec fn events_of_news(id: Seq<char>, news: ClientMessage) -> Seq<EventView> {
    match news.state {
        Some(TransferState::WaitingForUserConsent) => seq![request_of(id, news.metadata)],
        Some(TransferState::ReceivingFiles) => match news.metadata {
            Some(known) => progress_of(known),
            None => Seq::empty(),
        },
        Some(TransferState::SendingFiles) => match news.metadata {
            Some(known) => seq![EventView::OutboundStarted(id)] + progress_of(known),
            None => Seq::empty(),
        },
        Some(TransferState::Finished) => seq![EventView::Finished],
        Some(TransferState::Rejected)
        | Some(TransferState::Cancelled)
        | Some(TransferState::Disconnected) => seq![EventView::Error("Transfer ended prematurely"@)],
        _ => Seq::empty(),
    }
}

/// The events that a message comes to. Messages to the service come to none.
pub open spec fn events_of(message: ChannelMessage) -> Seq<EventView> {
    match message.client {
        Some(news) => events_of_news(message.id@, news),
        None => Seq::empty(),
    }
}

fn consent_request(id: String, metadata: &Option<TransferMetadata>) -> (event: ServiceEvent)
    ensures
        event@ == request_of(id@, *metadata),
{
    match metadata {
        Some(known) => {
            let device_name = match &known.source {
                Some(name) => name.clone(),
                None => "Unknown Device".to_owned(),
            };
            let files_count: usize = match &known.payload {
                Some(TransferPayload::Files(names)) => names.len(),
                _ => 0,
            };
            ServiceEvent::InboundRequest {
                id,
                device_name,
                files_count,
                total_bytes: known.total_bytes,
            }
        },
        None => ServiceEvent::InboundRequest {
            id,
            device_name: "Unknown Device".to_owned(),
            files_count: 0,
            total_bytes: 0,
        },
    }
}

fn push_progress(events: &mut Vec<ServiceEvent>, metadata: &TransferMetadata)
    ensures
        event_views(final(events)@) == event_views(old(events)@) + progress_of(*metadata),
{
    let ghost before = event_views(events@);
    if let Some(progress) = Progress::new(metadata.ack_bytes, metadata.total_bytes) {
        events.push(ServiceEvent::Progress(progress));
    }
    assert(event_views(events@) == before + progress_of(*metadata));
}

/// The events that a message comes to, in the order in which they are sent on.
pub fn events_for(message: ChannelMessage) -> (events: Vec<ServiceEvent>)
    ensures
        event_views(events@) == events_of(message),
{
    let mut events: Vec<ServiceEvent> = Vec::new();
    let id = message.id;
    if let Some(news) = message.client {
        let state = match news.state {
            Some(state) => state,
            None => TransferState::Initial,
        };
        match state {
            TransferState::WaitingForUserConsent => {
                events.push(consent_request(id, &news.metadata));
            },
            TransferState::ReceivingFiles => {
                if let Some(known) = &news.metadata {
                    push_progress(&mut events, known);
                }
            },
            TransferState::SendingFiles => {
                if let Some(known) = &news.metadata {
                    events.push(ServiceEvent::OutboundStarted(id));
                    push_progress(&mut events, known);
                }
            },
            TransferState::Finished => {
                events.push(ServiceEvent::Finished);
            },
            TransferState::Rejected | TransferState::Cancelled | TransferState::Disconnected => {
                events.push(ServiceEvent::Error("Transfer ended prematurely".to_owned()));
            },
            TransferState::Initial | TransferState::Other => {},
        }
    }
    assert(event_views(events@) == events_of(message));
    events
}

/// What waiting on a broadcast channel ended in.
pub enum Received<T> {
    Message(T),
    /// So many messages were missed.
    Lagged(u64),
    Closed,
}

/// What a listening loop does next.
pub enum LoopStep {
    /// Send these events on and wait again.
    Continue(Vec<ServiceEvent>),
    Stop,
}

impl LoopStep {
    /// The events to send on; `None` for the end of the loop.
    pub open spec fn events(self) -> Option<Seq<EventView>> {
        match self {
            LoopStep::Continue(events) => Some(event_views(events@)),
            LoopStep::Stop => None,
        }
    }
}

/// A step of the loop that listens for devices: each is sent on, missed ones are
/// passed over, and the loop ends with its channel.
pub fn discovery_step(received: Received<EndpointInfo>) -> (step: LoopStep)
    ensures
        step.events() == (match received {
            Received::Message(endpoint) => Some(seq![EventView::EndpointFound(endpoint@)]),
            Received::Lagged(_) => Some(Seq::empty()),
            Received::Closed => None,
        }),
{
    let mut events: Vec<ServiceEvent> = Vec::new();
    match received {
        Received::Message(endpoint) => {
            let ghost found = endpoint@;
            events.push(ServiceEvent::EndpointFound(endpoint));
            assert(event_views(events@) == seq![EventView::EndpointFound(found)]);
            LoopStep::Continue(events)
        },
        Received::Lagged(_) => {
            assert(event_views(events@) == Seq::<EventView>::empty());
            LoopStep::Continue(events)
        },
        Received::Closed => LoopStep::Stop,
    }
}

/// A step of the loop that listens for messages: the events of each are sent on,
/// missed ones are passed over, and the loop ends with its channel.
pub fn message_step(received: Received<ChannelMessage>) -> (step: LoopStep)
    ensures
        step.events() == (match received {
            Received::Message(message) => Some(events_of(message)),
            Received::Lagged(_) => Some(Seq::empty()),
            Received::Closed => None,
        }),
{
    match received {
        Received::Message(message) => LoopStep::Continue(events_for(message)),
        Received::Lagged(_) => {
            let events: Vec<ServiceEvent> = Vec::new();
            assert(event_views(events@) == Seq::<EventView>::empty());
            LoopStep::Continue(events)
        },
        Received::Closed => LoopStep::Stop,
    }
}

/// The event that tells of a service that did not start.
pub fn start_failure() -> (event: ServiceEvent)
    ensures
        event@ == EventView::Error("Failed to start service"@),
{
    ServiceEvent::Error("Failed to start service".to_owned())
}

/// Progress is told only of a running transfer, as its message has it, and never
/// out of a total of zero.
pub proof fn progress_is_of_running_transfer(message: ChannelMessage, i: int)
    requires
        0 <= i < events_of(message).len(),
        events_of(message)[i] is Progress,
    ensures
        ({
            let progress = events_of(message)[i]->Progress_0;
            let news = message.client->0;
            let known = news.metadata->0;
            &&& message.client is Some
            &&& news.state == Some(TransferState::ReceivingFiles) || news.state == Some(
                TransferState::SendingFiles,
            )
            &&& news.metadata is Some
            &&& progress.acknowledged == known.ack_bytes
            &&& progress.total == known.total_bytes
            &&& progress.total > 0
        }),
{
}

/// An event that names a transfer names the one that its message is about.
pub proof fn events_name_their_transfer(message: ChannelMessage, i: int)
    requires
        0 <= i < events_of(message).len(),
    ensures
        events_of(message)[i] matches EventView::InboundRequest { id, .. } ==> id == message.id@,
        events_of(message)[i] matches EventView::OutboundStarted(id) ==> id == message.id@,
{
}

/// The id of an outgoing transfer is told before any progress of it.
pub proof fn outgoing_transfer_is_announced_first(message: ChannelMessage, i: int)
    requires
        message.client is Some,
        (message.client->0).state == Some(TransferState::SendingFiles),
        0 <= i < events_of(message).len(),
        events_of(message)[i] is Progress,
    ensures
        i > 0,
        events_of(message)[0] == EventView::OutboundStarted(message.id@),
{
}

} // verus!
