//! Laws of the calls themselves: what comes back from a function, or is left behind
//! by it, in terms of what it was given.
use vstd::prelude::*;
use vstd::utf8::encode_utf8;
use crate::devices::{DeviceList, EndpointInfo, ListChange, SendInfo};
use crate::figures::{percent, percent_text, size_text};
use crate::filename::{can_be_shortened, can_truncate_filename, shortened, stem_of, truncate_filename};
use crate::startup::{downloads_dir, host_name};
use crate::text::{
    capital, decimal, decimal_text, is_white_space, same_text, text_contains, trim_text,
};
use crate::transfer::{
    discovery_step, events_for, events_of, message_step, start_failure, ChannelMessage, EventView,
    LoopStep, Progress, Received, ServiceEvent, TransferPayload, TransferState,
};
use crate::ui::{ChosenFile, Command, Page, TransferAction, Ui};

verus! {

/// The numeral of a number: its last digit behind the numeral of the rest.
pub proof fn numeral_of_a_number(n: u128, text: String)
    requires
        call_ensures(decimal_text, (n,), text),
    ensures
        text@.len() > 0,
        text@.last() == seq!['0', '1', '2', '3', '4', '5', '6', '7', '8', '9'][n as int % 10],
        n < 10 ==> text@.len() == 1,
        n >= 10 ==> text@.drop_last() == decimal((n / 10) as nat),
{
    let rest = (n / 10) as nat;
    let digit = (n % 10) as nat;
    if n < 10 {
        crate::laws::text::numeral_of_a_digit(n as nat);
    } else {
        crate::laws::text::numeral_grows_by_a_digit(rest, digit);
        assert(n == 10 * rest + digit);
        assert(decimal(rest).push(text@.last()).drop_last() == decimal(rest));
    }
}

/// Texts are the same if their characters are.
pub proof fn same_characters(a: &str, b: &str, same: bool)
    requires
        call_ensures(same_text, (a, b), same),
    ensures
        same <==> a@ == b@,
{
}

/// A part is found exactly where it stands between two others.
pub proof fn found_part(text: &str, part: &str, found: bool)
    requires
        call_ensures(text_contains, (text, part), found),
    ensures
        found <==> exists|front: Seq<char>, back: Seq<char>|
            text@ == #[trigger] (front + part@ + back),
{
    if found {
        crate::laws::text::found_part_is_in_the_middle(text@, part@);
    }
    if exists|front: Seq<char>, back: Seq<char>| text@ == #[trigger] (front + part@ + back) {
        let (front, back) = choose|front: Seq<char>, back: Seq<char>|
            text@ == #[trigger] (front + part@ + back);
        crate::laws::text::part_in_the_middle_is_found(front, part@, back);
    }
}

/// Trimming gives what stands between two stretches of white space.
pub proof fn trimmed_text(text: &str, inner: &str, front: Seq<char>, name: Seq<char>, back: Seq<char>)
    requires
        call_ensures(trim_text, (text,), inner),
        text@ == front + name + back,
        forall|i: int| 0 <= i < front.len() ==> is_white_space(#[trigger] front[i]),
        forall|i: int| 0 <= i < back.len() ==> is_white_space(#[trigger] back[i]),
        name.len() > 0 ==> !is_white_space(name.first()) && !is_white_space(name.last()),
    ensures
        inner@ == name,
{
    crate::laws::text::trimming_gives_what_is_between(front, name, back);
}

/// The percentage of a transfer below 8 TiB is nearest to the exact one.
pub proof fn percentage_of_a_transfer(acknowledged: u64, total: u64, shown: String)
    requires
        total > 0,
        call_ensures(percent_text, (acknowledged, total), shown),
    ensures
        shown@ == decimal(percent(acknowledged as nat, total as nat)).push('%'),
        acknowledged < 0x800_0000_0000 && total < 0x20_0000_0000_0000 ==> exists|p: nat|
            #![trigger decimal(p)]
            shown@ == decimal(p).push('%') && (2 * p - 1) * total <= 200 * acknowledged <= (2 * p + 1)
                * total,
        acknowledged == total ==> shown@ == "100%"@,
{
    let p = percent(acknowledged as nat, total as nat);
    crate::laws::figures::percent_ends_in_its_sign(acknowledged as nat, total as nat);
    if acknowledged < 0x800_0000_0000 && total < 0x20_0000_0000_0000 {
        crate::laws::figures::percent_is_accurate(acknowledged as nat, total as nat);
        assert(shown@ == decimal(p).push('%'));
    }
    if acknowledged == total {
        crate::figures::percent_of_all_is_hundred(total as nat);
        reveal_strlit("100%");
        crate::laws::text::numeral_of_a_digit(1);
        crate::laws::text::numeral_grows_by_a_digit(1, 0);
        crate::laws::text::numeral_grows_by_a_digit(10, 0);
        assert(decimal(100).push('%') == "100%"@);
    }
}

/// A size is shown with two decimals, in megabytes above 1048576 bytes and in
/// kilobytes otherwise, and is nearest to the number of bytes below 8 PiB.
pub proof fn size_of_a_transfer(bytes: u64, shown: String) -> (figure: (nat, nat, nat))
    requires
        call_ensures(size_text, (bytes,), shown),
    ensures
        ({
            let (whole, tenths, hundredths) = figure;
            let unit: nat = if bytes > 1_048_576 { 1_048_576 } else { 1_024 };
            let all = 100 * whole + 10 * tenths + hundredths;
            &&& tenths < 10
            &&& hundredths < 10
            &&& shown@ == decimal(whole) + seq![
                '.',
                seq!['0', '1', '2', '3', '4', '5', '6', '7', '8', '9'][tenths as int],
                seq!['0', '1', '2', '3', '4', '5', '6', '7', '8', '9'][hundredths as int],
                ' ',
                if bytes > 1_048_576 {
                    'M'
                } else {
                    'K'
                },
                'B',
            ]
            &&& bytes < 0x20_0000_0000_0000 ==> (2 * all - 1) * unit <= 200 * bytes <= (2 * all + 1)
                * unit
        }),
{
    crate::laws::figures::size_is_nearest_in_its_unit(bytes as nat)
}

/// A name can be shown unless the fifteenth byte of a stem that is to be cut stands
/// inside a character.
pub proof fn name_that_can_be_shown(name: &str, max_len: usize, can: bool)
    requires
        call_ensures(can_truncate_filename, (name, max_len), can),
    ensures
        encode_utf8(name@).len() <= max_len ==> can,
        encode_utf8(stem_of(name@)).len() <= 15 ==> can,
        encode_utf8(name@).len() > max_len && encode_utf8(stem_of(name@)).len() > 15 ==> (can
            <==> exists|kept: Seq<char>, rest: Seq<char>|
            stem_of(name@) == #[trigger] (kept + rest) && encode_utf8(kept).len() == 15),
{
    if encode_utf8(name@).len() > max_len && encode_utf8(stem_of(name@)).len() > 15 {
        if can {
            let (kept, rest) = crate::laws::filename::shown_names_are_cut_between_characters(
                name@,
                max_len as nat,
            );
            assert(stem_of(name@) == kept + rest);
        }
        if exists|kept: Seq<char>, rest: Seq<char>|
            stem_of(name@) == #[trigger] (kept + rest) && encode_utf8(kept).len() == 15 {
            let (kept, rest) = choose|kept: Seq<char>, rest: Seq<char>|
                stem_of(name@) == #[trigger] (kept + rest) && encode_utf8(kept).len() == 15;
            if rest.len() == 0 {
                assert(kept + rest == kept);
            }
            crate::laws::filename::long_names_keep_their_beginning(
                name@,
                max_len as nat,
                kept,
                rest,
            );
        }
    }
}

/// The shown form of a name: itself, or the beginning of its stem, a gap and its
/// extension.
pub proof fn shown_form_of_a_name(name: &str, max_len: usize, shown: String)
    requires
        call_ensures(truncate_filename, (name, max_len), shown),
    ensures
        encode_utf8(name@).len() <= max_len ==> shown@ == name@,
        encode_utf8(stem_of(name@)).len() <= 15 ==> shown@ == name@,
        shown@ == shortened(name@, max_len as nat),
{
}

/// A long file name `kept` and `rest`, a dot and `ext` is shown by its two ends.
pub proof fn shown_form_of_a_long_name(
    name: &str,
    max_len: usize,
    shown: String,
    kept: Seq<char>,
    rest: Seq<char>,
    ext: Seq<char>,
)
    requires
        call_ensures(truncate_filename, (name, max_len), shown),
        name@ == kept + rest + seq!['.'] + ext,
        !(kept + rest).contains('/'),
        !ext.contains('/'),
        !ext.contains('.'),
        encode_utf8(kept).len() == 15,
        rest.len() > 0,
        ext.len() > 0,
        encode_utf8(name@).len() > max_len,
    ensures
        shown@ == kept + " ... ."@ + ext,
{
    crate::laws::filename::long_file_name_is_shown_by_its_ends(kept, rest, ext, max_len as nat);
}

/// The directory for received files: the configured one, or else `Downloads` in the
/// home directory.
pub proof fn directory_for_downloads(configured: Option<Vec<u8>>, home: Option<String>, path: Vec<u8>)
    requires
        call_ensures(downloads_dir, (configured, home), path),
    ensures
        configured matches Some(given) ==> path@ == given@,
        configured is None && home is None ==> path@ == encode_utf8("Downloads"@),
        configured is None && home is Some && (home->0)@.len() == 0 ==> path@ == encode_utf8(
            "Downloads"@,
        ),
        configured is None && home is Some && (home->0)@.len() > 0 && (home->0)@.last() != '/'
            ==> path@ == encode_utf8((home->0)@ + "/Downloads"@),
        configured is None && home is Some && (home->0)@.len() > 0 && (home->0)@.last() == '/'
            ==> path@ == encode_utf8((home->0)@ + "Downloads"@),
{
    crate::laws::startup::downloads_without_home();
    if let Some(given) = home {
        if given@.len() == 0 {
            assert(given@ == Seq::<char>::empty());
        } else if given@.last() != '/' {
            crate::laws::startup::downloads_are_in_the_home_directory(given@);
        }
    }
}

/// The name of this device: that of the first file that could be read, trimmed.
pub proof fn name_of_this_device(
    kernel: Option<String>,
    etc: Option<String>,
    name: String,
    front: Seq<char>,
    inner: Seq<char>,
    back: Seq<char>,
)
    requires
        call_ensures(host_name, (kernel, etc), name),
        kernel matches Some(text) ==> text@ == front + inner + back,
        kernel is None && etc is Some ==> (etc->0)@ == front + inner + back,
        forall|i: int| 0 <= i < front.len() ==> is_white_space(#[trigger] front[i]),
        forall|i: int| 0 <= i < back.len() ==> is_white_space(#[trigger] back[i]),
        inner.len() > 0 ==> !is_white_space(inner.first()) && !is_white_space(inner.last()),
    ensures
        kernel is Some || etc is Some ==> name@ == inner,
        kernel is None && etc is None ==> name@ == "Linux"@,
{
    crate::laws::startup::device_name_is_trimmed_host_name(front, inner, back, None);
    crate::laws::text::trimming_gives_what_is_between(front, inner, back);
}

/// A device is shown under its announced name.
pub proof fn label_of_a_device(device: EndpointInfo, label: String)
    requires
        call_ensures(EndpointInfo::label, (&device,), label),
    ensures
        device.name matches Some(name) ==> label@ == name@,
        device.name is None ==> label@ == "Unknown"@,
{
}

/// The key of a device's row joins its id and its announced name.
pub proof fn key_of_a_device(device: EndpointInfo, key: String)
    requires
        call_ensures(EndpointInfo::row_key, (&device,), key),
    ensures
        device.name matches Some(name) ==> key@ == device.id@ + seq![':', ':', ':'] + name@,
        device.name is None ==> key@ == device.id@ + seq![':', ':', ':'] + "Unknown"@,
{
    crate::laws::devices::key_joins_id_and_name(device@);
}

/// The avatar shows the capital of the first letter of the announced name.
pub proof fn initials_of_a_device(device: EndpointInfo, letters: String)
    requires
        call_ensures(EndpointInfo::initials, (&device,), letters),
    ensures
        device.name matches Some(name) ==> name@.len() > 0 ==> letters@ == capital(name@[0]),
        device.name matches Some(name) ==> name@.len() == 0 ==> letters@ == seq!['?'],
        device.name is None ==> letters@ == seq!['U'],
{
    crate::laws::devices::initials_are_of_the_announced_name(device@);
    if let Some(name) = device.name {
        if name@.len() > 0 {
            assert(name@ == seq![name@[0]] + name@.drop_first());
        } else {
            assert(name@ == Seq::<char>::empty());
        }
    }
}

/// An order holds the chosen path alone and is for the device and the time.
pub proof fn order_for_a_device(device: EndpointInfo, path: &str, now: u128, order: SendInfo)
    requires
        call_ensures(EndpointInfo::send_request, (&device, path, now), order),
    ensures
        order.files@.len() == 1,
        order.files@[0]@ == path@,
        order.id@ == device.id@ + seq!['-'] + decimal(now as nat),
        device.name matches Some(name) ==> order.name@ == name@,
        device.name is None ==> order.name@.len() == 0,
        device.ip matches Some(ip) ==> device.port matches Some(port) ==> order.addr@ == ip@ + seq![
            ':',
        ] + port@,
        device.ip is None && device.port is None ==> order.addr@ == seq![':'],
{
    crate::laws::devices::contents_of_an_order(order);
    crate::laws::devices::order_holds_the_chosen_path(device@, path@, now as nat);
    crate::laws::devices::order_is_for_the_device(device@, path@, now as nat);
    crate::laws::devices::order_id_joins_device_and_time(device@, path@, now as nat);
    assert(order@.files[0] == order.files@[0]@);
}

/// A new list is empty.
pub proof fn list_starts_empty(list: DeviceList, len: usize)
    requires
        call_ensures(DeviceList::new, (), list),
        call_ensures(DeviceList::len, (&list,), len),
    ensures
        len == 0,
{
}

/// A list gives back the devices that it holds, by their positions.
pub proof fn list_gives_its_devices(list: DeviceList, len: usize, at: usize, device: Option<&EndpointInfo>)
    requires
        call_ensures(DeviceList::len, (&list,), len),
        call_ensures(DeviceList::get, (&list, at), device),
    ensures
        len == list@.len(),
        device is Some <==> at < len,
        device matches Some(d) ==> d@ == list@[at as int],
{
}

/// What an announcement does to the list: the device comes to the end where no row
/// matches it; where one does and is a placeholder that a name replaces, that row
/// leaves too; and otherwise nothing changes.
pub proof fn announcement_to_a_list(list: &mut DeviceList, found: EndpointInfo, change: ListChange)
    requires
        call_ensures(DeviceList::add_device, (list, found), change),
        old(list)@.len() <= usize::MAX,
    ensures
        change is Added <==> forall|i: int|
            0 <= i < old(list)@.len() ==> !(#[trigger] old(list)@[i]).matches(found.id@),
        change is Added ==> final(list)@ == old(list)@ + seq![found@],
        change is Unchanged ==> final(list)@ == old(list)@,
        change matches ListChange::Replaced(at) ==> {
            &&& at < old(list)@.len()
            &&& old(list)@[at as int].matches(found.id@)
            &&& old(list)@[at as int].is_placeholder()
            &&& found.name is Some
            &&& (found.name->0)@ != "Unknown"@
            &&& forall|i: int| 0 <= i < at ==> !(#[trigger] old(list)@[i]).matches(found.id@)
            &&& final(list)@ == old(list)@.remove(at as int) + seq![found@]
        },
        change is Unchanged ==> exists|at: int|
            {
                &&& 0 <= at < old(list)@.len()
                &&& (#[trigger] old(list)@[at]).matches(found.id@)
                &&& !old(list)@[at].is_placeholder() || found.name is None || (found.name->0)@
                    == "Unknown"@
            },
{
    crate::devices::first_match_bounds(old(list)@, found.id@);
    crate::laws::devices::named_devices_bring_a_name(found@);
}

/// Progress is of a transfer with more than zero bytes, and holds what it was given.
pub proof fn progress_holds_what_it_was_given(
    acknowledged: u64,
    total: u64,
    progress: Option<Progress>,
    part: u64,
    whole: u64,
)
    requires
        call_ensures(Progress::new, (acknowledged, total), progress),
        progress matches Some(p) ==> call_ensures(Progress::acknowledged, (&p,), part),
        progress matches Some(p) ==> call_ensures(Progress::total, (&p,), whole),
    ensures
        progress is Some <==> total > 0,
        progress is Some ==> part == acknowledged && whole == total,
{
}

/// The text of a progress bar is the percentage of its progress, which for a
/// transfer below 8 TiB is nearest to the exact one.
pub proof fn text_of_progress(progress: Progress, text: String)
    requires
        progress@.total > 0,
        call_ensures(Progress::text, (&progress,), text),
    ensures
        text@ == decimal(percent(progress@.acknowledged, progress@.total)).push('%'),
        progress@.acknowledged < 0x800_0000_0000 && progress@.total < 0x20_0000_0000_0000 ==> exists|
            p: nat,
        |
            #![trigger decimal(p)]
            text@ == decimal(p).push('%') && (2 * p - 1) * progress@.total <= 200
                * progress@.acknowledged <= (2 * p + 1) * progress@.total,
{
    crate::laws::transfer::bar_reads_the_percentage(progress@);
    if progress@.acknowledged < 0x800_0000_0000 && progress@.total < 0x20_0000_0000_0000 {
        let p = crate::laws::transfer::bar_reads_the_nearest_percentage(progress@);
        assert(text@ == decimal(p).push('%'));
    }
}

/// The text of a progress bar does not go back: of two texts of a transfer the later
/// one reads no smaller number.
pub proof fn texts_of_progress_go_up(
    earlier: Progress,
    earlier_text: String,
    later: Progress,
    later_text: String,
) -> (numbers: (nat, nat))
    requires
        call_ensures(Progress::text, (&earlier,), earlier_text),
        call_ensures(Progress::text, (&later,), later_text),
        earlier@.acknowledged <= later@.acknowledged,
        earlier@.total == later@.total,
        later@.total > 0,
    ensures
        earlier_text@ == decimal(numbers.0).push('%'),
        later_text@ == decimal(numbers.1).push('%'),
        numbers.0 <= numbers.1,
{
    crate::laws::transfer::bar_never_goes_back(earlier@, later@)
}

/// The end of a transfer comes to exactly one event.
pub proof fn events_of_an_end(message: ChannelMessage, events: Vec<ServiceEvent>)
    requires
        call_ensures(events_for, (message,), events),
        message.client is Some,
    ensures
        (message.client->0).state == Some(TransferState::Finished) ==> events@.len() == 1
            && events@[0] is Finished,
        (message.client->0).state == Some(TransferState::Rejected) || (message.client->0).state
            == Some(TransferState::Cancelled) || (message.client->0).state == Some(
            TransferState::Disconnected,
        ) ==> events@.len() == 1 && events@[0] is Error && (events@[0]->Error_0)@
            == "Transfer ended prematurely"@,
{
    crate::laws::transfer::contents_of_events(events@);
    if events@.len() == 1 {
        assert(events_of(message)[0] == events@[0]@);
    }
}

/// An offer comes to exactly one request, with what is known of it.
pub proof fn events_of_an_offer(message: ChannelMessage, events: Vec<ServiceEvent>)
    requires
        call_ensures(events_for, (message,), events),
        message.client is Some,
        (message.client->0).state == Some(TransferState::WaitingForUserConsent),
    ensures
        events@.len() == 1,
        events@[0] is InboundRequest,
        events@[0]->id@ == message.id@,
        (message.client->0).metadata matches Some(known) ==> {
            &&& known.source matches Some(name) ==> events@[0]->device_name@ == name@
            &&& known.source is None ==> events@[0]->device_name@ == "Unknown Device"@
            &&& known.payload matches Some(TransferPayload::Files(names))
                ==> events@[0]->files_count == names@.len()
            &&& !(known.payload is Some && known.payload->0 is Files) ==> events@[0]->files_count == 0
            &&& events@[0]->total_bytes == known.total_bytes
        },
        (message.client->0).metadata is None ==> {
            &&& events@[0]->device_name@ == "Unknown Device"@
            &&& events@[0]->files_count == 0
            &&& events@[0]->total_bytes == 0
        },
{
    crate::laws::transfer::contents_of_events(events@);
    crate::laws::transfer::offer_is_told(message);
    assert(events_of(message)[0] == events@[0]@);
    crate::laws::transfer::contents_of_an_event(events@[0]);
}

/// A running transfer comes to its announcement, where it is an outgoing one, and
/// its progress, where it has more than zero bytes.
pub proof fn events_of_a_running_transfer(message: ChannelMessage, events: Vec<ServiceEvent>)
    requires
        call_ensures(events_for, (message,), events),
        message.client is Some,
        (message.client->0).metadata is Some,
    ensures
        (message.client->0).state == Some(TransferState::ReceivingFiles) ==> {
            let known = (message.client->0).metadata->0;
            &&& known.total_bytes > 0 ==> events@.len() == 1 && events@[0] is Progress && (
            events@[0]->Progress_0)@.acknowledged == known.ack_bytes && (
            events@[0]->Progress_0)@.total == known.total_bytes
            &&& known.total_bytes == 0 ==> events@.len() == 0
        },
        (message.client->0).state == Some(TransferState::SendingFiles) ==> {
            let known = (message.client->0).metadata->0;
            &&& events@.len() >= 1
            &&& events@[0] is OutboundStarted
            &&& (events@[0]->OutboundStarted_0)@ == message.id@
            &&& known.total_bytes > 0 ==> events@.len() == 2 && events@[1] is Progress && (
            events@[1]->Progress_0)@.acknowledged == known.ack_bytes && (
            events@[1]->Progress_0)@.total == known.total_bytes
            &&& known.total_bytes == 0 ==> events@.len() == 1
        },
{
    crate::laws::transfer::contents_of_events(events@);
    let views = events_of(message);
    if events@.len() > 0 {
        assert(views[0] == events@[0]@);
    }
    if events@.len() > 1 {
        assert(views[1] == events@[1]@);
    }
}

/// Every other message comes to nothing.
pub proof fn events_of_other_messages(message: ChannelMessage, events: Vec<ServiceEvent>)
    requires
        call_ensures(events_for, (message,), events),
        message.client matches Some(news) ==> news.state is None || news.state == Some(
            TransferState::Initial,
        ) || news.state == Some(TransferState::Other) || (news.metadata is None && (news.state
            == Some(TransferState::ReceivingFiles) || news.state == Some(
            TransferState::SendingFiles,
        ))),
    ensures
        events@.len() == 0,
{
    crate::laws::transfer::contents_of_events(events@);
}

/// The loop that listens for devices sends each on, goes on after missing some, and
/// ends with its channel.
pub proof fn step_of_discovery(received: Received<EndpointInfo>, step: LoopStep)
    requires
        call_ensures(discovery_step, (received,), step),
    ensures
        received is Closed <==> step is Stop,
        received matches Received::Message(endpoint) ==> step is Continue && (step->0)@.len() == 1 && (
        step->0)@[0]@ == EventView::EndpointFound(endpoint@),
        received is Lagged ==> step is Continue && (step->0)@.len() == 0,
{
    crate::laws::transfer::events_of_a_step(step);
    if let Received::Message(endpoint) = received {
        assert((step.events()->0)[0] == (step->0)@[0]@);
    }
}

/// The loop that listens for messages sends on what each comes to, goes on after
/// missing some, and ends with its channel.
pub proof fn step_of_messages(received: Received<ChannelMessage>, step: LoopStep)
    requires
        call_ensures(message_step, (received,), step),
    ensures
        received is Closed <==> step is Stop,
        received matches Received::Message(message) ==> step is Continue && step.events() == Some(
            events_of(message),
        ),
        received matches Received::Message(message) ==> message.client matches Some(news)
            ==> news.state == Some(TransferState::Finished) ==> (step->0)@.len() == 1 && (
        step->0)@[0] is Finished,
        received is Lagged ==> step is Continue && (step->0)@.len() == 0,
{
    crate::laws::transfer::events_of_a_step(step);
    if let Received::Message(message) = received {
        if (step->0)@.len() == 1 {
            assert((step.events()->0)[0] == (step->0)@[0]@);
        }
    }
}

/// A service that did not start is told as an error.
pub proof fn event_of_a_failed_start(event: ServiceEvent)
    requires
        call_ensures(start_failure, (), event),
    ensures
        event is Error,
        (event->Error_0)@ == "Failed to start service"@,
{
}

/// A chosen file goes by its name.
pub proof fn label_of_a_file(file: ChosenFile, label: String, can: bool)
    requires
        call_ensures(ChosenFile::label, (&file,), label),
        call_ensures(ChosenFile::can_be_shown, (&file,), can),
    ensures
        file.name matches Some(name) ==> label@ == name@,
        file.name is None ==> label@ == "Unknown"@,
        can == can_be_shortened(label@, 30),
{
}

/// The window opens on its first page, without a file, a device or a transfer.
pub proof fn window_when_it_opens(ui: Ui)
    requires
        call_ensures(Ui::new, (), ui),
    ensures
        ui.page == Page::Initial,
        ui.file_label@ == "No file selected"@,
        ui.device_label@.len() == 0,
        ui.files_label@.len() == 0,
        !ui.request_bar.visible,
        ui.request_bar.filled is None,
        ui.request_bar.text is None,
        !ui.send_bar.visible,
        ui.send_bar.filled is None,
        ui.send_bar.text is Some,
        (ui.send_bar.text->0)@ == "Sending..."@,
        ui.accept_visible,
        ui.decline_visible,
        !ui.request_cancel_visible,
        ui.transfer_id is None,
        ui.selected_file is None,
        ui.devices@.len() == 0,
{
    crate::laws::ui::contents_of_the_window(ui);
    crate::laws::ui::contents_of_a_bar(ui.request_bar);
    crate::laws::ui::contents_of_a_bar(ui.send_bar);
}

/// An offer shows who makes it, how many files it has and how large it is, and asks
/// for an answer.
pub proof fn window_after_an_offer(ui: &mut Ui, event: ServiceEvent, change: ListChange) -> (figure: (
    nat,
    nat,
    nat,
))
    requires
        call_ensures(Ui::on_event, (ui, event), change),
        event is InboundRequest,
    ensures
        change is Unchanged,
        final(ui).page == Page::Request,
        final(ui).transfer_id is Some,
        (final(ui).transfer_id->0)@ == event->id@,
        final(ui).device_label@ == "From: "@ + event->device_name@,
        final(ui).accept_visible,
        final(ui).decline_visible,
        !final(ui).request_cancel_visible,
        !final(ui).request_bar.visible,
        final(ui).devices@ == old(ui).devices@,
        final(ui)@.selected_file == old(ui)@.selected_file,
        ({
            let (whole, tenths, hundredths) = figure;
            let bytes = event->total_bytes;
            let unit: nat = if bytes > 1_048_576 { 1_048_576 } else { 1_024 };
            let all = 100 * whole + 10 * tenths + hundredths;
            &&& tenths < 10
            &&& hundredths < 10
            &&& final(ui).files_label@ == decimal(event->files_count as nat) + " file(s) ("@ + decimal(
                whole,
            ) + seq![
                '.',
                seq!['0', '1', '2', '3', '4', '5', '6', '7', '8', '9'][tenths as int],
                seq!['0', '1', '2', '3', '4', '5', '6', '7', '8', '9'][hundredths as int],
                ' ',
                if bytes > 1_048_576 {
                    'M'
                } else {
                    'K'
                },
                'B',
                ')',
            ]
            &&& bytes < 0x20_0000_0000_0000 ==> (2 * all - 1) * unit <= 200 * bytes <= (2 * all + 1)
                * unit
        }),
{
    crate::laws::transfer::contents_of_an_event(event);
    crate::laws::ui::contents_of_the_window(*final(ui));
    crate::laws::ui::contents_of_a_bar(final(ui).request_bar);
    reveal_strlit("From: ");
    assert("From: "@ == seq!['F', 'r', 'o', 'm', ':', ' ']);
    crate::laws::ui::offer_is_shown_by_sender_and_size(
        old(ui)@,
        event->id@,
        event->device_name@,
        event->files_count as nat,
        event->total_bytes as nat,
    )
}

/// The end of a transfer brings back the first page and leaves no transfer.
pub proof fn window_after_an_end(ui: &mut Ui, event: ServiceEvent, change: ListChange)
    requires
        call_ensures(Ui::on_event, (ui, event), change),
        event is Finished || event is Error,
    ensures
        change is Unchanged,
        final(ui).page == Page::Initial,
        final(ui).transfer_id is None,
        !final(ui).request_bar.visible,
        !final(ui).send_bar.visible,
        final(ui)@.selected_file == old(ui)@.selected_file,
        final(ui).devices@ == old(ui).devices@,
{
    crate::laws::transfer::contents_of_an_event(event);
    crate::laws::ui::contents_of_the_window(*final(ui));
    crate::laws::ui::end_brings_back_the_first_page(old(ui)@, event@);
}

/// Progress is read in the bars that are in sight.
pub proof fn window_after_progress(ui: &mut Ui, event: ServiceEvent, change: ListChange)
    requires
        call_ensures(Ui::on_event, (ui, event), change),
        event is Progress,
    ensures
        change is Unchanged,
        final(ui).page == old(ui).page,
        final(ui)@.transfer_id == old(ui)@.transfer_id,
        old(ui).request_bar.visible ==> final(ui).request_bar.visible && final(ui).request_bar.text is Some && (final(ui).request_bar.text->0)@ == decimal(
            percent((event->Progress_0)@.acknowledged, (event->Progress_0)@.total),
        ).push('%'),
        old(ui).send_bar.visible ==> final(ui).send_bar.visible && final(ui).send_bar.text is Some && (
        final(ui).send_bar.text->0)@ == decimal(
            percent((event->Progress_0)@.acknowledged, (event->Progress_0)@.total),
        ).push('%'),
        !old(ui).request_bar.visible ==> final(ui).request_bar@ == old(ui).request_bar@,
        !old(ui).send_bar.visible ==> final(ui).send_bar@ == old(ui).send_bar@,
{
    crate::laws::transfer::contents_of_an_event(event);
    crate::laws::ui::contents_of_the_window(*final(ui));
    crate::laws::ui::contents_of_a_bar(final(ui).request_bar);
    crate::laws::ui::contents_of_a_bar(final(ui).send_bar);
    crate::laws::ui::progress_fills_the_bars_in_sight(old(ui)@, (event->Progress_0)@);
}

/// An outgoing transfer brings up its bar, and the buttons act on it.
pub proof fn window_after_a_start(ui: &mut Ui, event: ServiceEvent, change: ListChange)
    requires
        call_ensures(Ui::on_event, (ui, event), change),
        event is OutboundStarted,
    ensures
        change is Unchanged,
        final(ui).page == old(ui).page,
        final(ui).transfer_id is Some,
        (final(ui).transfer_id->0)@ == (event->OutboundStarted_0)@,
        final(ui).send_bar.visible,
        final(ui).send_bar.filled is None,
        final(ui).request_bar@ == old(ui).request_bar@,
{
    crate::laws::transfer::contents_of_an_event(event);
    crate::laws::ui::contents_of_the_window(*final(ui));
    crate::laws::ui::contents_of_a_bar(final(ui).send_bar);
}

/// An announced device reaches the list, and nothing else in the window.
pub proof fn window_after_an_announcement(ui: &mut Ui, event: ServiceEvent, change: ListChange)
    requires
        call_ensures(Ui::on_event, (ui, event), change),
        event is EndpointFound,
    ensures
        change == crate::devices::change_of(old(ui).devices@, (event->EndpointFound_0)@),
        final(ui).devices@ == crate::devices::listed(old(ui).devices@, (event->EndpointFound_0)@),
        final(ui).page == old(ui).page,
        final(ui)@.transfer_id == old(ui)@.transfer_id,
        final(ui)@.selected_file == old(ui)@.selected_file,
{
    crate::laws::transfer::contents_of_an_event(event);
}

/// An accepted file is shown and its path kept as it is; any other choice changes
/// nothing.
pub proof fn window_after_a_choice(ui: &mut Ui, accepted: bool, file: Option<ChosenFile>)
    requires
        call_ensures(Ui::on_file_choice, (ui, accepted, file), ()),
    ensures
        accepted && file is Some ==> {
            let chosen = file->0;
            &&& final(ui).page == Page::Selected
            &&& chosen.path matches Some(path) ==> final(ui).selected_file is Some && (final(ui).selected_file->0)@ == path@
            &&& chosen.path is None ==> final(ui)@.selected_file == old(ui)@.selected_file
            &&& chosen.name matches Some(name) ==> final(ui).file_label@ == shortened(name@, 30)
            &&& chosen.name is None ==> final(ui).file_label@ == "Unknown"@
            &&& final(ui)@.transfer_id == old(ui)@.transfer_id
        },
        !accepted || file is None ==> final(ui)@ == old(ui)@,
{
    crate::laws::ui::contents_of_the_window(*final(ui));
    crate::laws::ui::contents_of_a_file(file);
    if accepted && file is Some {
        crate::laws::ui::accepted_choice_is_shown(old(ui)@, (file->0)@);
    }
}

/// The button that gives up sending tells the service to cancel the current
/// transfer, if there is one, and forgets it.
pub proof fn button_that_gives_up_sending(ui: &mut Ui, command: Option<Command>)
    requires
        call_ensures(Ui::on_cancel, (ui,), command),
    ensures
        command is Some <==> old(ui).transfer_id is Some,
        command is Some ==> (command->0).id@ == (old(ui).transfer_id->0)@ && (command->0).action
            == TransferAction::TransferCancel,
        final(ui).page == Page::Initial,
        final(ui).transfer_id is None,
        !final(ui).send_bar.visible,
        final(ui).request_bar@ == old(ui).request_bar@,
        final(ui)@.selected_file == old(ui)@.selected_file,
{
    crate::laws::ui::contents_of_the_window(*final(ui));
    crate::laws::ui::contents_of_a_bar(final(ui).send_bar);
}

/// The button that takes an offer tells the service so and keeps the transfer; the
/// bar and the button that gives it up take the place of the answers.
pub proof fn button_that_takes_an_offer(ui: &mut Ui, command: Option<Command>)
    requires
        call_ensures(Ui::on_accept, (ui,), command),
    ensures
        command is Some <==> old(ui).transfer_id is Some,
        command is Some ==> (command->0).id@ == (old(ui).transfer_id->0)@ && (command->0).action
            == TransferAction::ConsentAccept,
        command is Some ==> final(ui).request_bar.visible && final(ui).request_cancel_visible
            && !final(ui).accept_visible && !final(ui).decline_visible,
        command is None ==> final(ui)@ == old(ui)@,
        final(ui).page == old(ui).page,
        final(ui)@.transfer_id == old(ui)@.transfer_id,
{
    crate::laws::ui::contents_of_the_window(*final(ui));
    crate::laws::ui::contents_of_a_bar(final(ui).request_bar);
}

/// The button that turns an offer down tells the service so and brings back the
/// first page.
pub proof fn button_that_turns_an_offer_down(ui: &mut Ui, command: Option<Command>)
    requires
        call_ensures(Ui::on_decline, (ui,), command),
    ensures
        command is Some <==> old(ui).transfer_id is Some,
        command is Some ==> (command->0).id@ == (old(ui).transfer_id->0)@ && (command->0).action
            == TransferAction::ConsentDecline,
        final(ui).page == Page::Initial,
        final(ui)@.transfer_id == old(ui)@.transfer_id,
        final(ui).request_bar@ == old(ui).request_bar@,
{
    crate::laws::ui::contents_of_the_window(*final(ui));
}

/// The button that gives up receiving tells the service to cancel the current
/// transfer, if there is one, and forgets it.
pub proof fn button_that_gives_up_receiving(ui: &mut Ui, command: Option<Command>)
    requires
        call_ensures(Ui::on_request_cancel, (ui,), command),
    ensures
        command is Some <==> old(ui).transfer_id is Some,
        command is Some ==> (command->0).id@ == (old(ui).transfer_id->0)@ && (command->0).action
            == TransferAction::TransferCancel,
        final(ui).page == Page::Initial,
        final(ui).transfer_id is None,
        final(ui).send_bar@ == old(ui).send_bar@,
        final(ui).request_bar@ == old(ui).request_bar@,
{
    crate::laws::ui::contents_of_the_window(*final(ui));
}

/// A click on a device orders the chosen file alone for it, and nothing before a
/// file is chosen.
pub proof fn click_on_a_device(ui: Ui, device: EndpointInfo, now: u128, order: Option<SendInfo>)
    requires
        call_ensures(Ui::on_device, (&ui, &device, now), order),
    ensures
        order is Some <==> ui.selected_file is Some,
        order is Some ==> {
            &&& (order->0).files@.len() == 1
            &&& (order->0).files@[0]@ == (ui.selected_file->0)@
            &&& (order->0).id@ == device.id@ + seq!['-'] + decimal(now as nat)
            &&& device.name matches Some(name) ==> (order->0).name@ == name@
            &&& device.name is None ==> (order->0).name@.len() == 0
        },
{
    crate::laws::ui::contents_of_the_window(ui);
    crate::laws::ui::click_orders_the_chosen_file(ui@, device@, now as nat);
    if let Some(given) = order {
        crate::laws::devices::contents_of_an_order(given);
        assert(given@.files[0] == given.files@[0]@);
    }
}

} // verus!
