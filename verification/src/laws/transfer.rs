//! Laws of transfers: which events a message must come to, and what a progress bar
//! reads.
use vstd::prelude::*;
use crate::figures::percent;
use crate::text::decimal;
use crate::transfer::{
    event_views, events_of, ChannelMessage, EventView, LoopStep, ProgressView, ServiceEvent,
    TransferPayload, TransferState,
};

verus! {

/// The contents of an event are those of its fields.
pub proof fn contents_of_an_event(event: ServiceEvent)
    ensures
        event matches ServiceEvent::EndpointFound(endpoint) ==> event@ == EventView::EndpointFound(
            endpoint@,
        ),
        event matches ServiceEvent::InboundRequest { id, device_name, files_count, total_bytes } ==> {
            &&& event@ is InboundRequest
            &&& event@->id == id@
            &&& event@->device_name == device_name@
            &&& event@->files_count == files_count
            &&& event@->total_bytes == total_bytes
        },
        event matches ServiceEvent::OutboundStarted(id) ==> event@ == EventView::OutboundStarted(id@),
        event matches ServiceEvent::Progress(progress) ==> event@ == EventView::Progress(progress@),
        event is Finished <==> event@ is Finished,
        event matches ServiceEvent::Error(reason) ==> event@ == EventView::Error(reason@),
{
}

/// The contents of a list of events are those of its events, in their order.
pub proof fn contents_of_events(events: Seq<ServiceEvent>)
    ensures
        event_views(events).len() == events.len(),
        forall|i: int| 0 <= i < events.len() ==> #[trigger] event_views(events)[i] == events[i]@,
{
}

/// The events of a step of a loop are those that it sends on, and a loop that ends
/// has none.
pub proof fn events_of_a_step(step: LoopStep)
    ensures
        step matches LoopStep::Continue(events) ==> step.events() is Some && (step.events()->0).len()
            == events@.len(),
        step matches LoopStep::Continue(events) ==> forall|i: int|
            0 <= i < events@.len() ==> #[trigger] (step.events()->0)[i] == events@[i]@,
        step is Stop <==> step.events() is None,
{
}

/// News that a transfer has finished comes to exactly one event, which says so,
/// whatever else is known of the transfer.
pub proof fn finished_transfer_is_told(message: ChannelMessage)
    requires
        message.client matches Some(news) && news.state == Some(TransferState::Finished),
    ensures
        events_of(message).len() == 1,
        events_of(message)[0] is Finished,
{
}

/// News that a transfer was rejected, cancelled or cut off comes to exactly one
/// error, whatever else is known of the transfer.
pub proof fn broken_transfer_is_told(message: ChannelMessage)
    requires
        message.client matches Some(news) && (news.state == Some(TransferState::Rejected) || news.state
            == Some(TransferState::Cancelled) || news.state == Some(TransferState::Disconnected)),
    ensures
        events_of(message).len() == 1,
        events_of(message)[0] == EventView::Error("Transfer ended prematurely"@),
{
}

/// The end of a transfer is told by no other news.
pub proof fn only_ends_are_told_as_ends(message: ChannelMessage, i: int)
    requires
        0 <= i < events_of(message).len(),
    ensures
        events_of(message)[i] is Finished ==> message.client is Some && (message.client->0).state
            == Some(TransferState::Finished),
        events_of(message)[i] is Error ==> message.client is Some && ((message.client->0).state
            == Some(TransferState::Rejected) || (message.client->0).state == Some(
            TransferState::Cancelled,
        ) || (message.client->0).state == Some(TransferState::Disconnected)),
        events_of(message)[i] is InboundRequest ==> message.client is Some && (
        message.client->0).state == Some(TransferState::WaitingForUserConsent),
        events_of(message)[i] is OutboundStarted ==> message.client is Some && (
        message.client->0).state == Some(TransferState::SendingFiles),
        !(events_of(message)[i] is EndpointFound),
{
}

/// News of an offer comes to exactly one request, for the transfer that the message
/// is about, with the sender, the number of files and the bytes that are known.
pub proof fn offer_is_told(message: ChannelMessage)
    requires
        message.client matches Some(news) && news.state == Some(TransferState::WaitingForUserConsent),
    ensures
        events_of(message).len() == 1,
        events_of(message)[0] is InboundRequest,
        events_of(message)[0]->id == message.id@,
        (message.client->0).metadata matches Some(known) ==> {
            let offer = events_of(message)[0];
            &&& known.source matches Some(name) ==> offer->device_name == name@
            &&& known.source is None ==> offer->device_name == "Unknown Device"@
            &&& known.payload matches Some(TransferPayload::Files(names)) ==> offer->files_count
                == names@.len()
            &&& !(known.payload is Some && known.payload->0 is Files) ==> offer->files_count == 0
            &&& offer->total_bytes == known.total_bytes
        },
        (message.client->0).metadata is None ==> {
            let offer = events_of(message)[0];
            &&& offer->device_name == "Unknown Device"@
            &&& offer->files_count == 0
            &&& offer->total_bytes == 0
        },
{
}

/// News of a running incoming transfer of more than zero bytes comes to exactly its
/// progress, and any other news of one to nothing.
pub proof fn receiving_is_told(message: ChannelMessage)
    requires
        message.client matches Some(news) && news.state == Some(TransferState::ReceivingFiles),
    ensures
        (message.client->0).metadata matches Some(known) ==> known.total_bytes > 0 ==> {
            &&& events_of(message).len() == 1
            &&& events_of(message)[0] is Progress
            &&& (events_of(message)[0]->Progress_0).acknowledged == known.ack_bytes
            &&& (events_of(message)[0]->Progress_0).total == known.total_bytes
        },
        (message.client->0).metadata matches Some(known) ==> known.total_bytes == 0 ==> events_of(
            message,
        ).len() == 0,
        (message.client->0).metadata is None ==> events_of(message).len() == 0,
{
}

/// News of a running outgoing transfer comes to its announcement and then, where it
/// has more than zero bytes, its progress.
pub proof fn sending_is_told(message: ChannelMessage)
    requires
        message.client matches Some(news) && news.state == Some(TransferState::SendingFiles),
    ensures
        (message.client->0).metadata is Some ==> events_of(message).len() >= 1 && events_of(message)[0]
            == EventView::OutboundStarted(message.id@),
        (message.client->0).metadata matches Some(known) ==> known.total_bytes > 0 ==> {
            &&& events_of(message).len() == 2
            &&& events_of(message)[1] is Progress
            &&& (events_of(message)[1]->Progress_0).acknowledged == known.ack_bytes
            &&& (events_of(message)[1]->Progress_0).total == known.total_bytes
        },
        (message.client->0).metadata matches Some(known) ==> known.total_bytes == 0 ==> events_of(
            message,
        ).len() == 1,
        (message.client->0).metadata is None ==> events_of(message).len() == 0,
{
}

/// Messages to the service, and news without a state or of a step of the handshake,
/// come to nothing.
pub proof fn other_messages_are_not_told(message: ChannelMessage)
    requires
        message.client matches Some(news) ==> news.state is None || news.state == Some(
            TransferState::Initial,
        ) || news.state == Some(TransferState::Other),
    ensures
        events_of(message).len() == 0,
{
}

/// A progress bar reads the numeral of the percentage and the sign.
pub proof fn bar_reads_the_percentage(progress: ProgressView)
    ensures
        progress.shown() == decimal(percent(progress.acknowledged, progress.total)).push('%'),
{
    crate::laws::figures::percent_ends_in_its_sign(progress.acknowledged, progress.total);
}

/// The number that a progress bar reads is nearest to the exact percentage while
/// less than 8 TiB are acknowledged; up to the limit of doubles their rounding adds
/// a little to that half of a percent.
pub proof fn bar_reads_the_nearest_percentage(progress: ProgressView) -> (shown: nat)
    requires
        progress.acknowledged < 0x20_0000_0000_0000,
        0 < progress.total < 0x20_0000_0000_0000,
    ensures
        progress.shown() == decimal(shown).push('%'),
        progress.acknowledged < 0x800_0000_0000 ==> (2 * shown - 1) * progress.total <= 200
            * progress.acknowledged <= (2 * shown + 1) * progress.total,
        2 * (shown * progress.total) <= 200 * progress.acknowledged + progress.total
            + progress.acknowledged / 0x800_0000_0000,
        200 * progress.acknowledged <= 2 * (shown * progress.total) + progress.total
            + progress.acknowledged / 0x800_0000_0000,
{
    bar_reads_the_percentage(progress);
    crate::laws::figures::percent_is_accurate(progress.acknowledged, progress.total);
    percent(progress.acknowledged, progress.total)
}

/// The number that a progress bar reads never goes down as more of a transfer is
/// acknowledged.
pub proof fn bar_never_goes_back(earlier: ProgressView, later: ProgressView) -> (numbers: (nat, nat))
    requires
        earlier.acknowledged <= later.acknowledged,
        earlier.total == later.total,
        later.total > 0,
    ensures
        earlier.shown() == decimal(numbers.0).push('%'),
        later.shown() == decimal(numbers.1).push('%'),
        numbers.0 <= numbers.1,
{
    bar_reads_the_percentage(earlier);
    bar_reads_the_percentage(later);
    crate::figures::percent_never_goes_back(
        earlier.acknowledged,
        later.acknowledged,
        later.total,
    );
    (
        percent(earlier.acknowledged, earlier.total),
        percent(later.acknowledged, later.total),
    )
}

/// A progress bar reads `0%` before anything is acknowledged, `100%` once all is,
/// and never more in between.
pub proof fn bar_ends_at_hundred(progress: ProgressView) -> (shown: nat)
    requires
        progress.acknowledged <= progress.total,
        progress.total > 0,
    ensures
        progress.shown() == decimal(shown).push('%'),
        shown <= 100,
        progress.acknowledged == 0 ==> progress.shown() == "0%"@,
        progress.acknowledged == progress.total ==> progress.shown() == "100%"@,
{
    bar_reads_the_percentage(progress);
    crate::figures::percent_is_at_most_hundred(progress.acknowledged, progress.total);
    crate::figures::percent_of_all_is_hundred(progress.total);
    crate::figures::percent_of_nothing_is_zero(progress.total);
    reveal_strlit("0%");
    reveal_strlit("100%");
    crate::laws::text::numeral_of_a_digit(0);
    crate::laws::text::numeral_of_a_digit(1);
    crate::laws::text::numeral_grows_by_a_digit(1, 0);
    crate::laws::text::numeral_grows_by_a_digit(10, 0);
    assert(decimal(0).push('%') == "0%"@);
    assert(decimal(100).push('%') == "100%"@);
    percent(progress.acknowledged, progress.total)
}

} // verus!
