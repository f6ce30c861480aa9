//! Laws of the window: what each thing that happens shows, and what it leaves alone.
use vstd::prelude::*;
use vstd::utf8::encode_utf8;
use crate::devices::EndpointView;
use crate::figures::nearest_double;
use crate::filename::{can_be_shortened, shortened};
use crate::text::decimal;
use crate::transfer::{EventView, ProgressView};
use crate::ui::{
    command_view, file_view, Bar, ChosenFile, Command, FileView, Page, TransferAction, Ui, UiView,
};

verus! {

/// The contents of a command are those of its fields.
pub proof fn contents_of_a_command(command: Option<Command>)
    ensures
        command matches Some(c) ==> {
            &&& command_view(command) is Some
            &&& (command_view(command)->0).id == c.id@
            &&& (command_view(command)->0).action == c.action
        },
        command is None <==> command_view(command) is None,
{
}

/// The contents of a chosen file are those of its fields.
pub proof fn contents_of_a_file(file: Option<ChosenFile>)
    ensures
        file is None <==> file_view(file) is None,
        file matches Some(chosen) ==> {
            let view = file_view(file)->0;
            &&& view == chosen@
            &&& chosen.name matches Some(name) ==> view.name == Some(name@)
            &&& chosen.name is None ==> view.name is None
            &&& chosen.path matches Some(path) ==> view.path == Some(path@)
            &&& chosen.path is None ==> view.path is None
        },
{
}

/// The contents of a bar are those of its fields.
pub proof fn contents_of_a_bar(bar: Bar)
    ensures
        bar@.visible == bar.visible,
        bar.filled matches Some(progress) ==> bar@.filled == Some(progress@),
        bar.filled is None ==> bar@.filled is None,
        bar.text matches Some(text) ==> bar@.text == Some(text@),
        bar.text is None ==> bar@.text is None,
{
}

/// The contents of the window are those of its fields.
pub proof fn contents_of_the_window(ui: Ui)
    ensures
        ui@.page == ui.page,
        ui@.file_label == ui.file_label@,
        ui@.device_label == ui.device_label@,
        ui@.files_label == ui.files_label@,
        ui@.request_bar == ui.request_bar@,
        ui@.send_bar == ui.send_bar@,
        ui@.accept_visible == ui.accept_visible,
        ui@.decline_visible == ui.decline_visible,
        ui@.request_cancel_visible == ui.request_cancel_visible,
        ui.transfer_id matches Some(id) ==> ui@.transfer_id == Some(id@),
        ui.transfer_id is None ==> ui@.transfer_id is None,
        ui.selected_file matches Some(path) ==> ui@.selected_file == Some(path@),
        ui.selected_file is None ==> ui@.selected_file is None,
        ui@.devices == ui.devices@,
{
}

/// The window opens on its first page, without a file, a device or a transfer, and
/// with no bar in sight.
pub proof fn window_opens_empty()
    ensures
        UiView::initial().page == Page::Initial,
        UiView::initial().file_label == "No file selected"@,
        UiView::initial().device_label.len() == 0,
        UiView::initial().files_label.len() == 0,
        !UiView::initial().request_bar.visible,
        UiView::initial().request_bar.filled is None,
        UiView::initial().request_bar.text is None,
        !UiView::initial().send_bar.visible,
        UiView::initial().send_bar.filled is None,
        UiView::initial().send_bar.text == Some("Sending..."@),
        UiView::initial().accept_visible,
        UiView::initial().decline_visible,
        !UiView::initial().request_cancel_visible,
        UiView::initial().transfer_id is None,
        UiView::initial().selected_file is None,
        UiView::initial().devices.len() == 0,
{
}

/// An offer is shown by its sender's name as it was told and by the number of its
/// files and its size: the size is that of the offered bytes themselves, in
/// megabytes above 1048576 and in kilobytes otherwise, and the figure with two
/// decimals nearest to it, for which offers of 8 PiB and more count as the nearest
/// double.
pub proof fn offer_is_shown_by_sender_and_size(
    ui: UiView,
    id: Seq<char>,
    device_name: Seq<char>,
    files_count: nat,
    total_bytes: nat,
) -> (figure: (nat, nat, nat))
    ensures
        ({
            let (whole, tenths, hundredths) = figure;
            let asked = ui.after_event(
                EventView::InboundRequest { id, device_name, files_count, total_bytes },
            );
            let unit: nat = if total_bytes > 1_048_576 { 1_048_576 } else { 1_024 };
            let shown = 100 * whole + 10 * tenths + hundredths;
            let bytes = nearest_double(total_bytes);
            &&& asked.device_label == seq!['F', 'r', 'o', 'm', ':', ' '] + device_name
            &&& tenths < 10
            &&& hundredths < 10
            &&& asked.files_label == decimal(files_count) + " file(s) ("@ + decimal(whole) + seq![
                '.',
                seq!['0', '1', '2', '3', '4', '5', '6', '7', '8', '9'][tenths as int],
                seq!['0', '1', '2', '3', '4', '5', '6', '7', '8', '9'][hundredths as int],
                ' ',
                if total_bytes > 1_048_576 {
                    'M'
                } else {
                    'K'
                },
                'B',
                ')',
            ]
            &&& total_bytes < 0x20_0000_0000_0000 ==> bytes == total_bytes
            &&& (2 * shown - 1) * unit <= 200 * bytes <= (2 * shown + 1) * unit
            &&& 200 * bytes == (2 * shown - 1) * unit || 200 * bytes == (2 * shown + 1) * unit
                ==> shown % 2 == 0
        }),
{
    let figure = crate::laws::figures::size_is_nearest_in_its_unit(total_bytes);
    reveal_strlit("From: ");
    reveal_strlit(")");
    assert("From: "@ == seq!['F', 'r', 'o', 'm', ':', ' ']);
    let (whole, tenths, hundredths) = figure;
    let ten = seq!['0', '1', '2', '3', '4', '5', '6', '7', '8', '9'];
    let letter = if total_bytes > 1_048_576 { 'M' } else { 'K' };
    let tail = seq!['.', ten[tenths as int], ten[hundredths as int], ' ', letter, 'B'];
    let front = decimal(files_count) + " file(s) ("@;
    assert(front + (decimal(whole) + tail) + ")"@ == front + decimal(whole) + tail.push(')'));
    assert(tail.push(')') == seq![
        '.',
        ten[tenths as int],
        ten[hundredths as int],
        ' ',
        letter,
        'B',
        ')',
    ]);
    figure
}

/// An offer brings up the request page with both answers, an empty bar out of sight
/// and the buttons acting on the offered transfer; the file, the bar for sending and
/// the devices stay.
pub proof fn offer_asks_for_an_answer(
    ui: UiView,
    id: Seq<char>,
    device_name: Seq<char>,
    files_count: nat,
    total_bytes: nat,
)
    ensures
        ({
            let asked = ui.after_event(
                EventView::InboundRequest { id, device_name, files_count, total_bytes },
            );
            &&& asked.page == Page::Request
            &&& asked.transfer_id == Some(id)
            &&& asked.accept_visible
            &&& asked.decline_visible
            &&& !asked.request_cancel_visible
            &&& !asked.request_bar.visible
            &&& asked.request_bar.filled is None
            &&& asked.request_bar.text == ui.request_bar.text
            &&& asked.send_bar == ui.send_bar
            &&& asked.file_label == ui.file_label
            &&& asked.selected_file == ui.selected_file
            &&& asked.devices == ui.devices
        }),
{
}

/// The announcement of a device touches nothing but the list of devices.
pub proof fn announcement_touches_only_the_list(ui: UiView, endpoint: EndpointView)
    ensures
        ({
            let next = ui.after_event(EventView::EndpointFound(endpoint));
            &&& next.devices == crate::devices::listed(ui.devices, endpoint)
            &&& next.page == ui.page
            &&& next.file_label == ui.file_label
            &&& next.device_label == ui.device_label
            &&& next.files_label == ui.files_label
            &&& next.request_bar == ui.request_bar
            &&& next.send_bar == ui.send_bar
            &&& next.accept_visible == ui.accept_visible
            &&& next.decline_visible == ui.decline_visible
            &&& next.request_cancel_visible == ui.request_cancel_visible
            &&& next.transfer_id == ui.transfer_id
            &&& next.selected_file == ui.selected_file
        }),
{
}

/// An outgoing transfer brings up its bar, empty and with the text that it had, and
/// the buttons act on it; the rest of the window stays.
pub proof fn outgoing_transfer_brings_up_its_bar(ui: UiView, id: Seq<char>)
    ensures
        ({
            let next = ui.after_event(EventView::OutboundStarted(id));
            &&& next.transfer_id == Some(id)
            &&& next.send_bar.visible
            &&& next.send_bar.filled is None
            &&& next.send_bar.text == ui.send_bar.text
            &&& next.page == ui.page
            &&& next.file_label == ui.file_label
            &&& next.device_label == ui.device_label
            &&& next.files_label == ui.files_label
            &&& next.request_bar == ui.request_bar
            &&& next.accept_visible == ui.accept_visible
            &&& next.decline_visible == ui.decline_visible
            &&& next.request_cancel_visible == ui.request_cancel_visible
            &&& next.selected_file == ui.selected_file
            &&& next.devices == ui.devices
        }),
{
}

/// Progress fills every bar in sight and is read in it as a percentage; bars out of
/// sight and the rest of the window stay.
pub proof fn progress_fills_the_bars_in_sight(ui: UiView, progress: ProgressView)
    ensures
        ({
            let next = ui.after_event(EventView::Progress(progress));
            let read = decimal(
                crate::figures::percent(progress.acknowledged, progress.total),
            ).push('%');
            &&& next.request_bar.visible == ui.request_bar.visible
            &&& next.send_bar.visible == ui.send_bar.visible
            &&& ui.request_bar.visible ==> next.request_bar.filled == Some(progress)
                && next.request_bar.text == Some(read)
            &&& ui.send_bar.visible ==> next.send_bar.filled == Some(progress) && next.send_bar.text
                == Some(read)
            &&& !ui.request_bar.visible ==> next.request_bar == ui.request_bar
            &&& !ui.send_bar.visible ==> next.send_bar == ui.send_bar
            &&& next.page == ui.page
            &&& next.file_label == ui.file_label
            &&& next.device_label == ui.device_label
            &&& next.files_label == ui.files_label
            &&& next.accept_visible == ui.accept_visible
            &&& next.decline_visible == ui.decline_visible
            &&& next.request_cancel_visible == ui.request_cancel_visible
            &&& next.transfer_id == ui.transfer_id
            &&& next.selected_file == ui.selected_file
            &&& next.devices == ui.devices
        }),
{
    crate::laws::transfer::bar_reads_the_percentage(progress);
}

/// The end of a transfer, good or bad and for whatever reason, brings back the first
/// page, puts both bars out of sight and leaves the buttons without a transfer; the
/// rest of the window stays.
pub proof fn end_brings_back_the_first_page(ui: UiView, end: EventView)
    requires
        end is Finished || end is Error,
    ensures
        ({
            let next = ui.after_event(end);
            &&& next.page == Page::Initial
            &&& next.transfer_id is None
            &&& !next.request_bar.visible
            &&& next.request_bar.filled == ui.request_bar.filled
            &&& next.request_bar.text == ui.request_bar.text
            &&& !next.send_bar.visible
            &&& next.send_bar.filled == ui.send_bar.filled
            &&& next.send_bar.text == ui.send_bar.text
            &&& next.file_label == ui.file_label
            &&& next.device_label == ui.device_label
            &&& next.files_label == ui.files_label
            &&& next.accept_visible == ui.accept_visible
            &&& next.decline_visible == ui.decline_visible
            &&& next.request_cancel_visible == ui.request_cancel_visible
            &&& next.selected_file == ui.selected_file
            &&& next.devices == ui.devices
        }),
{
}

/// A file is named as it was chosen, and `Unknown` where it has no name.
pub proof fn file_is_named_as_chosen(file: FileView)
    ensures
        file.name matches Some(name) ==> file.label() == name,
        file.name is None ==> file.label() == "Unknown"@,
        file.can_be_shown() <==> can_be_shortened(file.label(), 30),
{
}

/// An accepted choice shows its file: its name in full where that takes up to thirty
/// bytes and shortened otherwise. A path that it has is kept as it is, and without
/// one the last path stays. The rest of the window stays.
pub proof fn accepted_choice_is_shown(ui: UiView, file: FileView)
    ensures
        ({
            let next = ui.file_choice(true, Some(file));
            &&& next.page == Page::Selected
            &&& file.name matches Some(name) ==> next.file_label == shortened(name, 30)
            &&& file.name matches Some(name) ==> encode_utf8(name).len() <= 30 ==> next.file_label
                == name
            &&& file.name is None ==> next.file_label == "Unknown"@
            &&& file.path is Some ==> next.selected_file == file.path
            &&& file.path is None ==> next.selected_file == ui.selected_file
            &&& next.device_label == ui.device_label
            &&& next.files_label == ui.files_label
            &&& next.request_bar == ui.request_bar
            &&& next.send_bar == ui.send_bar
            &&& next.accept_visible == ui.accept_visible
            &&& next.decline_visible == ui.decline_visible
            &&& next.request_cancel_visible == ui.request_cancel_visible
            &&& next.transfer_id == ui.transfer_id
            &&& next.devices == ui.devices
        }),
{
    reveal_strlit("Unknown");
    vstd::utf8::is_ascii_chars_encode_utf8("Unknown"@);
    assert(encode_utf8("Unknown"@).len() == 7);
}

/// A choice that was not accepted, or that has no file, changes nothing.
pub proof fn other_choices_change_nothing(ui: UiView, accepted: bool, file: Option<FileView>)
    requires
        !accepted || file is None,
    ensures
        ui.file_choice(accepted, file) == ui,
{
}

/// Giving up sending brings back the first page, puts the bar for sending out of
/// sight and leaves the buttons without a transfer; the rest of the window stays.
pub proof fn giving_up_sending(ui: UiView)
    ensures
        ui.cancelled().page == Page::Initial,
        ui.cancelled().transfer_id is None,
        !ui.cancelled().send_bar.visible,
        ui.cancelled().send_bar.filled == ui.send_bar.filled,
        ui.cancelled().send_bar.text == ui.send_bar.text,
        ui.cancelled().request_bar == ui.request_bar,
        ui.cancelled().file_label == ui.file_label,
        ui.cancelled().device_label == ui.device_label,
        ui.cancelled().files_label == ui.files_label,
        ui.cancelled().accept_visible == ui.accept_visible,
        ui.cancelled().decline_visible == ui.decline_visible,
        ui.cancelled().request_cancel_visible == ui.request_cancel_visible,
        ui.cancelled().selected_file == ui.selected_file,
        ui.cancelled().devices == ui.devices,
{
}

/// Taking an offer brings up its bar and the button that gives it up, in place of
/// the two answers; the rest of the window stays, and all of it where there is no
/// transfer.
pub proof fn taking_an_offer(ui: UiView)
    ensures
        ui.transfer_id is None ==> ui.accepted() == ui,
        ui.transfer_id is Some ==> {
            &&& ui.accepted().request_bar.visible
            &&& ui.accepted().request_cancel_visible
            &&& !ui.accepted().accept_visible
            &&& !ui.accepted().decline_visible
        },
        ui.accepted().request_bar.filled == ui.request_bar.filled,
        ui.accepted().request_bar.text == ui.request_bar.text,
        ui.accepted().page == ui.page,
        ui.accepted().transfer_id == ui.transfer_id,
        ui.accepted().send_bar == ui.send_bar,
        ui.accepted().file_label == ui.file_label,
        ui.accepted().device_label == ui.device_label,
        ui.accepted().files_label == ui.files_label,
        ui.accepted().selected_file == ui.selected_file,
        ui.accepted().devices == ui.devices,
{
}

/// Turning an offer down brings back the first page and changes nothing else; the
/// buttons still act on the offer.
pub proof fn turning_an_offer_down(ui: UiView)
    ensures
        ui.declined().page == Page::Initial,
        ui.declined().transfer_id == ui.transfer_id,
        ui.declined().request_bar == ui.request_bar,
        ui.declined().send_bar == ui.send_bar,
        ui.declined().file_label == ui.file_label,
        ui.declined().device_label == ui.device_label,
        ui.declined().files_label == ui.files_label,
        ui.declined().accept_visible == ui.accept_visible,
        ui.declined().decline_visible == ui.decline_visible,
        ui.declined().request_cancel_visible == ui.request_cancel_visible,
        ui.declined().selected_file == ui.selected_file,
        ui.declined().devices == ui.devices,
{
}

/// Giving up receiving brings back the first page and leaves the buttons without a
/// transfer; the rest of the window stays.
pub proof fn giving_up_receiving(ui: UiView)
    ensures
        ui.request_cancelled().page == Page::Initial,
        ui.request_cancelled().transfer_id is None,
        ui.request_cancelled().request_bar == ui.request_bar,
        ui.request_cancelled().send_bar == ui.send_bar,
        ui.request_cancelled().file_label == ui.file_label,
        ui.request_cancelled().device_label == ui.device_label,
        ui.request_cancelled().files_label == ui.files_label,
        ui.request_cancelled().accept_visible == ui.accept_visible,
        ui.request_cancelled().decline_visible == ui.decline_visible,
        ui.request_cancelled().request_cancel_visible == ui.request_cancel_visible,
        ui.request_cancelled().selected_file == ui.selected_file,
        ui.request_cancelled().devices == ui.devices,
{
}

/// With a transfer, a button tells the service its own word about that transfer;
/// without one it tells nothing.
pub proof fn button_tells_its_word(ui: UiView, action: TransferAction)
    ensures
        ui.transfer_id matches Some(id) ==> {
            &&& ui.command(action) is Some
            &&& (ui.command(action)->0).id == id
            &&& (ui.command(action)->0).action == action
        },
        ui.transfer_id is None ==> ui.command(action) is None,
{
}

/// Once a file is chosen, a click on a device orders exactly that file for it; before
/// that it orders nothing.
pub proof fn click_orders_the_chosen_file(ui: UiView, device: EndpointView, now: nat)
    ensures
        ui.selected_file is None ==> ui.send_request(device, now) is None,
        ui.selected_file matches Some(path) ==> {
            let order = ui.send_request(device, now)->0;
            &&& ui.send_request(device, now) is Some
            &&& order.files.len() == 1
            &&& order.files[0] == path
            &&& order.id == device.id + seq!['-'] + decimal(now)
            &&& device.name matches Some(name) ==> order.name == name
            &&& device.name is None ==> order.name == Seq::<char>::empty()
            &&& order.addr == device.ip.unwrap_or(Seq::empty()) + seq![':'] + device.port.unwrap_or(
                Seq::empty(),
            )
        },
{
    if let Some(path) = ui.selected_file {
        crate::laws::devices::order_holds_the_chosen_path(device, path, now);
        crate::laws::devices::order_is_for_the_device(device, path, now);
        crate::laws::devices::order_id_joins_device_and_time(device, path, now);
    }
}

} // verus!
