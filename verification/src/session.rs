//! What holds of the window over a whole session, whatever happens in it.
use vstd::prelude::*;
use crate::devices::{announced, listed, EndpointView, SendView};
use crate::text::decimal;
use crate::transfer::{EventView, ProgressView};
use crate::ui::{CommandView, FileView, Page, TransferAction, UiView};

verus! {

/// One thing that happens to the window.
pub enum Input {
    Event(EventView),
    FileChoice { accepted: bool, file: Option<FileView> },
    Cancel,
    Accept,
    Decline,
    RequestCancel,
    /// A click on a device, `now` milliseconds into the Unix era.
    Device { device: EndpointView, now: nat },
}

/// The window after `input`.
pub open spec fn after(ui: UiView, input: Input) -> UiView {
    match input {
        Input::Event(event) => ui.after_event(event),
        Input::FileChoice { accepted, file } => ui.file_choice(accepted, file),
        Input::Cancel => ui.cancelled(),
        Input::Accept => ui.accepted(),
        Input::Decline => ui.declined(),
        Input::RequestCancel => ui.request_cancelled(),
        Input::Device { .. } => ui,
    }
}

/// What the service is told about the current transfer on `input`.
pub open spec fn told(ui: UiView, input: Input) -> Option<CommandView> {
    match input {
        Input::Event(_) => None,
        Input::FileChoice { .. } => None,
        Input::Cancel => ui.command(TransferAction::TransferCancel),
        Input::Accept => ui.command(TransferAction::ConsentAccept),
        Input::Decline => ui.command(TransferAction::ConsentDecline),
        Input::RequestCancel => ui.command(TransferAction::TransferCancel),
        Input::Device { .. } => None,
    }
}

/// What the service is asked to send on `input`.
pub open spec fn ordered(ui: UiView, input: Input) -> Option<SendView> {
    match input {
        Input::Device { device, now } => ui.send_request(device, now),
        _ => None,
    }
}

/// The window after a session of `inputs`.
pub open spec fn session(inputs: Seq<Input>) -> UiView
    decreases inputs.len(),
{
    if inputs.len() == 0 {
        UiView::initial()
    } else {
        after(session(inputs.drop_last()), inputs.last())
    }
}

/// What the parts of the window have to do with each other: the two answers to an
/// offer are shown together, and in place of the button that gives up receiving;
/// the bar of an incoming transfer is shown only beside that button; and the
/// request page is shown only while there is a transfer for its buttons.
pub open spec fn is_consistent(ui: UiView) -> bool {
    &&& ui.accept_visible == ui.decline_visible
    &&& ui.accept_visible == !ui.request_cancel_visible
    &&& ui.request_bar.visible ==> ui.request_cancel_visible
    &&& ui.page == Page::Request ==> ui.transfer_id is Some
}

/// The window is consistent at all times.
pub proof fn window_is_consistent(inputs: Seq<Input>)
    ensures
        is_consistent(session(inputs)),
    decreases inputs.len(),
{
    if inputs.len() > 0 {
        window_is_consistent(inputs.drop_last());
    }
}

/// `input` tells the window of the transfer `id`.
pub open spec fn announces(input: Input, id: Seq<char>) -> bool {
    match input {
        Input::Event(EventView::InboundRequest { id: told, .. }) => told == id,
        Input::Event(EventView::OutboundStarted(told)) => told == id,
        _ => false,
    }
}

/// The buttons act only on a transfer that the service has announced.
pub proof fn commands_are_about_announced_transfers(inputs: Seq<Input>, input: Input)
    requires
        told(session(inputs), input) is Some,
    ensures
        exists|i: int|
            0 <= i < inputs.len() && #[trigger] announces(
                inputs[i],
                (told(session(inputs), input)->0).id,
            ),
{
    let ui = session(inputs);
    current_transfer_was_announced(inputs);
    commands_are_about_the_current_transfer(ui, input);
    let id = ui.transfer_id->0;
    let i = choose|i: int| 0 <= i < inputs.len() && #[trigger] announces(inputs[i], id);
    assert(announces(inputs[i], (told(ui, input)->0).id));
}

proof fn current_transfer_was_announced(inputs: Seq<Input>)
    ensures
        session(inputs).transfer_id matches Some(id) ==> exists|i: int|
            0 <= i < inputs.len() && #[trigger] announces(inputs[i], id),
    decreases inputs.len(),
{
    if inputs.len() > 0 && session(inputs).transfer_id is Some {
        let id = session(inputs).transfer_id->0;
        let before = inputs.drop_last();
        if announces(inputs.last(), id) {
            assert(announces(inputs[inputs.len() - 1], id));
        } else {
            current_transfer_was_announced(before);
            let i = choose|i: int| 0 <= i < before.len() && #[trigger] announces(before[i], id);
            assert(announces(inputs[i], id));
        }
    }
}

/// Every word to the service is about the current transfer.
pub proof fn commands_are_about_the_current_transfer(ui: UiView, input: Input)
    ensures
        told(ui, input) matches Some(command) ==> ui.transfer_id == Some(command.id),
{
}

/// Without a transfer the buttons tell the service nothing.
pub proof fn idle_window_tells_nothing(ui: UiView, input: Input)
    requires
        ui.transfer_id is None,
    ensures
        told(ui, input) is None,
{
}

/// `input` ends the current transfer.
pub open spec fn ends_transfer(input: Input) -> bool {
    match input {
        Input::Event(EventView::Finished) => true,
        Input::Event(EventView::Error(_)) => true,
        Input::Cancel => true,
        Input::RequestCancel => true,
        _ => false,
    }
}

/// Once a transfer has ended or was given up, no button tells the service
/// anything more about it, and the first page is shown.
pub proof fn ended_transfer_is_left_alone(ui: UiView, end: Input, next: Input)
    requires
        ends_transfer(end),
    ensures
        told(after(ui, end), next) is None,
        after(ui, end).page == Page::Initial,
        after(ui, end).transfer_id is None,
{
}

/// Until a transfer ends or another is announced, the buttons act on it.
pub proof fn transfer_stays_current(ui: UiView, input: Input)
    requires
        !ends_transfer(input),
        forall|id: Seq<char>| !announces(input, id),
    ensures
        after(ui, input).transfer_id == ui.transfer_id,
{
    match input {
        Input::Event(EventView::InboundRequest { id, .. }) => {
            assert(announces(input, id));
        },
        Input::Event(EventView::OutboundStarted(id)) => {
            assert(announces(input, id));
        },
        _ => {},
    }
}

/// An offer can be taken, turned down, and, once taken, given up; the service is
/// told of the offered transfer each time.
pub proof fn offer_can_be_answered(
    ui: UiView,
    id: Seq<char>,
    device_name: Seq<char>,
    files_count: nat,
    total_bytes: nat,
)
    ensures
        ({
            let asked = after(
                ui,
                Input::Event(
                    EventView::InboundRequest { id, device_name, files_count, total_bytes },
                ),
            );
            let taken = after(asked, Input::Accept);
            &&& asked.page == Page::Request
            &&& asked.accept_visible && asked.decline_visible
            &&& told(asked, Input::Accept) == Some(
                CommandView { id, action: TransferAction::ConsentAccept },
            )
            &&& told(asked, Input::Decline) == Some(
                CommandView { id, action: TransferAction::ConsentDecline },
            )
            &&& taken.page == Page::Request
            &&& taken.request_cancel_visible && taken.request_bar.visible
            &&& told(taken, Input::RequestCancel) == Some(
                CommandView { id, action: TransferAction::TransferCancel },
            )
        }),
{
}

/// The progress of an offer that was taken is shown beside it, and that of an
/// offer still open is not.
pub proof fn progress_of_taken_offer_is_shown(
    ui: UiView,
    id: Seq<char>,
    device_name: Seq<char>,
    files_count: nat,
    total_bytes: nat,
    progress: ProgressView,
)
    ensures
        ({
            let asked = ui.inbound_request(id, device_name, files_count, total_bytes);
            let told_of = Input::Event(EventView::Progress(progress));
            let bar = after(asked.accepted(), told_of).request_bar;
            &&& bar.visible
            &&& bar.filled == Some(progress)
            &&& bar.text == Some(progress.shown())
            &&& after(asked, told_of).request_bar == asked.request_bar
            &&& !asked.request_bar.visible
        }),
{
}

/// An outgoing transfer that was announced shows its progress and can be given up.
pub proof fn outgoing_transfer_is_shown(ui: UiView, id: Seq<char>, progress: ProgressView)
    ensures
        ({
            let started = after(ui, Input::Event(EventView::OutboundStarted(id)));
            let bar = after(started, Input::Event(EventView::Progress(progress))).send_bar;
            &&& bar.visible
            &&& bar.filled == Some(progress)
            &&& bar.text == Some(progress.shown())
            &&& told(started, Input::Cancel) == Some(
                CommandView { id, action: TransferAction::TransferCancel },
            )
        }),
{
}

/// Only the announcement of a device touches the list of devices.
pub proof fn devices_persist(ui: UiView, input: Input)
    ensures
        after(ui, input).devices == (match input {
            Input::Event(EventView::EndpointFound(endpoint)) => listed(ui.devices, endpoint),
            _ => ui.devices,
        }),
{
}

/// The announcements of devices among `inputs`.
pub open spec fn announcements(inputs: Seq<Input>) -> Seq<EndpointView>
    decreases inputs.len(),
{
    if inputs.len() == 0 {
        Seq::empty()
    } else {
        match inputs.last() {
            Input::Event(EventView::EndpointFound(endpoint)) => announcements(
                inputs.drop_last(),
            ).push(endpoint),
            _ => announcements(inputs.drop_last()),
        }
    }
}

/// The list of devices is the one that the announcements of the session make,
/// whatever else happens in it.
pub proof fn devices_are_those_announced(inputs: Seq<Input>)
    ensures
        session(inputs).devices == announced(announcements(inputs)),
    decreases inputs.len(),
{
    if inputs.len() > 0 {
        let before = inputs.drop_last();
        devices_are_those_announced(before);
        devices_persist(session(before), inputs.last());
        if let Input::Event(EventView::EndpointFound(endpoint)) = inputs.last() {
            let run = announcements(before);
            assert(run.push(endpoint).drop_last() == run);
        }
    }
}

/// The list of devices never gets shorter in the course of a session.
pub proof fn devices_never_get_fewer(inputs: Seq<Input>, more: Seq<Input>)
    ensures
        session(inputs).devices.len() <= session(inputs + more).devices.len(),
    decreases more.len(),
{
    if more.len() == 0 {
        assert(inputs + more == inputs);
    } else {
        let all = inputs + more;
        devices_never_get_fewer(inputs, more.drop_last());
        assert(all.drop_last() == inputs + more.drop_last());
        devices_not_fewer_after(session(all.drop_last()), all.last());
    }
}

proof fn devices_not_fewer_after(ui: UiView, input: Input)
    ensures
        ui.devices.len() <= after(ui, input).devices.len(),
{
    devices_persist(ui, input);
    if let Input::Event(EventView::EndpointFound(endpoint)) = input {
        crate::devices::list_grows_by_at_most_one(ui.devices, endpoint);
    }
}

/// The path of the last accepted choice that had one.
pub open spec fn last_chosen_path(inputs: Seq<Input>) -> Option<Seq<char>>
    decreases inputs.len(),
{
    if inputs.len() == 0 {
        None
    } else {
        match inputs.last() {
            Input::FileChoice { accepted: true, file: Some(FileView { path: Some(path), .. }) } => Some(
                path,
            ),
            _ => last_chosen_path(inputs.drop_last()),
        }
    }
}

/// A click on a device orders the file of the last accepted choice that had a
/// path, for that device and that time, and nothing where there was no such choice.
/// The order holds that path, as it was chosen, and nothing else.
pub proof fn click_orders_last_chosen_file(inputs: Seq<Input>, device: EndpointView, now: nat)
    ensures
        ordered(session(inputs), Input::Device { device, now }) == (match last_chosen_path(inputs) {
            Some(path) => Some(device.send_request(path, now)),
            None => None,
        }),
        last_chosen_path(inputs) matches Some(path) ==> {
            let order = ordered(session(inputs), Input::Device { device, now })->0;
            &&& ordered(session(inputs), Input::Device { device, now }) is Some
            &&& order.files.len() == 1
            &&& order.files[0] == path
            &&& order.id == device.id + seq!['-'] + decimal(now)
            &&& device.name matches Some(name) ==> order.name == name
            &&& device.name is None ==> order.name == Seq::<char>::empty()
            &&& order.addr == device.ip.unwrap_or(Seq::empty()) + seq![':'] + device.port.unwrap_or(
                Seq::empty(),
            )
        },
{
    selected_file_is_last_chosen(inputs);
    crate::laws::ui::click_orders_the_chosen_file(session(inputs), device, now);
}

/// After a choice of a file with a path, and whatever else happens without another
/// such choice, a click orders exactly the chosen path.
pub proof fn click_orders_the_path_of_the_choice(
    before: Seq<Input>,
    file: FileView,
    since: Seq<Input>,
    device: EndpointView,
    now: nat,
)
    requires
        file.path is Some,
        forall|i: int|
            0 <= i < since.len() && (#[trigger] since[i]) is FileChoice ==> !since[i]->accepted
                || since[i]->file is None || (since[i]->file->0).path is None,
    ensures
        ({
            let choice = Input::FileChoice { accepted: true, file: Some(file) };
            let order = ordered(
                session(before + seq![choice] + since),
                Input::Device { device, now },
            );
            &&& order is Some
            &&& (order->0).files.len() == 1
            &&& Some((order->0).files[0]) == file.path
        }),
{
    let choice = Input::FileChoice { accepted: true, file: Some(file) };
    path_of_the_choice_stays(before, file, since);
    click_orders_last_chosen_file(before + seq![choice] + since, device, now);
}

proof fn path_of_the_choice_stays(before: Seq<Input>, file: FileView, since: Seq<Input>)
    requires
        file.path is Some,
        forall|i: int|
            0 <= i < since.len() && (#[trigger] since[i]) is FileChoice ==> !since[i]->accepted
                || since[i]->file is None || (since[i]->file->0).path is None,
    ensures
        last_chosen_path(
            before + seq![Input::FileChoice { accepted: true, file: Some(file) }] + since,
        ) == file.path,
    decreases since.len(),
{
    let choice = Input::FileChoice { accepted: true, file: Some(file) };
    let all = before + seq![choice] + since;
    if since.len() == 0 {
        assert(all.last() == choice);
    } else {
        let fewer = since.drop_last();
        assert forall|i: int|
            0 <= i < fewer.len() && (#[trigger] fewer[i]) is FileChoice implies !fewer[i]->accepted
            || fewer[i]->file is None || (fewer[i]->file->0).path is None by {
            assert(fewer[i] == since[i]);
        }
        path_of_the_choice_stays(before, file, fewer);
        assert(all.drop_last() == before + seq![choice] + fewer);
        assert(all.last() == since[since.len() - 1]);
    }
}

proof fn selected_file_is_last_chosen(inputs: Seq<Input>)
    ensures
        session(inputs).selected_file == last_chosen_path(inputs),
    decreases inputs.len(),
{
    if inputs.len() > 0 {
        selected_file_is_last_chosen(inputs.drop_last());
        selected_file_after(session(inputs.drop_last()), inputs.last());
    }
}

proof fn selected_file_after(ui: UiView, input: Input)
    ensures
        after(ui, input).selected_file == (match input {
            Input::FileChoice { accepted: true, file: Some(FileView { path: Some(path), .. }) } => Some(
                path,
            ),
            _ => ui.selected_file,
        }),
{
}

/// Nothing but a click on a device orders a file, and a click changes nothing in
/// the window.
pub proof fn only_clicks_order_files(ui: UiView, input: Input)
    ensures
        ordered(ui, input) is Some ==> input is Device,
        input is Device ==> after(ui, input) == ui,
{
}

/// Only choosing a file touches what a click on a device would send.
pub proof fn chosen_file_persists(ui: UiView, input: Input, device: EndpointView, now: nat)
    requires
        !(input is FileChoice),
    ensures
        after(ui, input).send_request(device, now) == ui.send_request(device, now),
{
}

} // verus!
