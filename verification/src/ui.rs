//! The state of the window: which page is shown, what its labels, bars and
//! buttons show, and which transfer its buttons act on.
//!
//! Each thing that can happen is a method on [`Ui`]. It changes the state, which
//! the window then shows, and returns what is to be sent to the service.
use vstd::prelude::*;
use vstd::string::*;
use crate::devices::{
    change_of, listed, DeviceList, EndpointInfo, EndpointView, ListChange, SendInfo, SendView,
};
use crate::figures::{size_shown, size_text};
use crate::filename::{can_be_shortened, can_truncate_filename, shortened, truncate_filename};
use crate::text::{decimal, decimal_text, text_of};
use crate::transfer::{EventView, Progress, ProgressView, ServiceEvent};

verus! {

/// File names of more bytes than this are shortened.
pub const SHOWN_NAME_BYTES: usize = 30;

/// The pages of the window.
#[derive(Clone, Copy, Debug, PartialEq, Eq, Structural)]
pub enum Page {
    /// The button that starts the choice of a file.
    Initial,
    /// The chosen file and the devices that it can go to.
    Selected,
    /// The transfer that another device offers.
    Request,
}

/// What the user tells the service about a transfer.
#[derive(Clone, Copy, Debug, PartialEq, Eq, Structural)]
pub enum TransferAction {
    ConsentAccept,
    ConsentDecline,
    TransferCancel,
}

/// A word to the service.
pub struct Command {
    pub id: String,
    pub action: TransferAction,
}

/// The contents of a [`Command`].
#[verifier::ext_equal]
pub struct CommandView {
    pub id: Seq<char>,
    pub action: TransferAction,
}

impl View for Command {
    type V = CommandView;

    open spec fn view(&self) -> CommandView {
        CommandView { id: self.id@, action: self.action }
    }
}

/// The contents of an optional command.
pub open spec fn command_view(command: Option<Command>) -> Option<CommandView> {
    match command {
        Some(c) => Some(c@),
        None => None,
    }
}

/// A file in the choice of files, by its base name and its path where it has them.
pub struct ChosenFile {
    pub name: Option<String>,
    pub path: Option<String>,
}

/// The contents of a [`ChosenFile`].
#[verifier::ext_equal]
pub struct FileView {
    pub name: Option<Seq<char>>,
    pub path: Option<Seq<char>>,
}

impl View for ChosenFile {
    type V = FileView;

    open spec fn view(&self) -> FileView {
        FileView { name: text_of(self.name), path: text_of(self.path) }
    }
}

impl FileView {
    /// The full name of the file.
    pub open spec fn label(self) -> Seq<char> {
        self.name.unwrap_or("Unknown"@)
    }

    /// The name can be shown: shortening it splits no character.
    pub open spec fn can_be_shown(self) -> bool {
        can_be_shortened(self.label(), SHOWN_NAME_BYTES as nat)
    }
}

/// The contents of an optional file.
pub open spec fn file_view(file: Option<ChosenFile>) -> Option<FileView> {
    match file {
        Some(f) => Some(f@),
        None => None,
    }
}

impl ChosenFile {
    /// The full name of the file.
    pub fn label(&self) -> (label: String)
        ensures
            label@ == self@.label(),
    {
        match &self.name {
            Some(name) => name.clone(),
            None => "Unknown".to_owned(),
        }
    }

    /// True when the name can be shown.
    pub fn can_be_shown(&self) -> (can: bool)
        ensures
            can == self@.can_be_shown(),
    {
        can_truncate_filename(self.label().as_str(), SHOWN_NAME_BYTES)
    }
}

/// A progress bar.
pub struct Bar {
    pub visible: bool,
    /// How far it is filled; `None` is empty.
    pub filled: Option<Progress>,
    pub text: Option<String>,
}

/// The contents of a [`Bar`].
#[verifier::ext_equal]
pub struct BarView {
    pub visible: bool,
    pub filled: Option<ProgressView>,
    pub text: Option<Seq<char>>,
}

impl View for Bar {
    type V = BarView;

    open spec fn view(&self) -> BarView {
        BarView {
            visible: self.visible,
            filled: match self.filled {
                Some(progress) => Some(progress@),
                None => None,
            },
            text: text_of(self.text),
        }
    }
}

impl BarView {
    pub open spec fn hidden(self) -> BarView {
        BarView { visible: false, ..self }
    }

    pub open spec fn unhidden(self) -> BarView {
        BarView { visible: true, ..self }
    }

    pub open spec fn emptied(self) -> BarView {
        BarView { filled: None, ..self }
    }

    /// A visible bar shows the progress; a hidden one stays as it is.
    pub open spec fn advance(self, progress: ProgressView) -> BarView {
        if self.visible {
            BarView { visible: true, filled: Some(progress), text: Some(progress.shown()) }
        } else {
            self
        }
    }
}

impl Bar {
    fn advance(&mut self, progress: Progress)
        ensures
            final(self)@ == old(self)@.advance(progress@),
    {
        if self.visible {
            self.filled = Some(progress);
            self.text = Some(progress.text());
        }
    }
}

/// The state of the window.
pub struct Ui {
    pub page: Page,
    /// The name of the chosen file.
    pub file_label: String,
    /// Who offers a transfer.
    pub device_label: String,
    /// How much is offered.
    pub files_label: String,
    pub request_bar: Bar,
    pub send_bar: Bar,
    pub accept_visible: bool,
    pub decline_visible: bool,
    pub request_cancel_visible: bool,
    /// The transfer that the buttons act on.
    pub transfer_id: Option<String>,
    /// The path of the chosen file.
    pub selected_file: Option<String>,
    pub devices: DeviceList,
}

/// The contents of a [`Ui`].
#[verifier::ext_equal]
pub struct UiView {
    pub page: Page,
    pub file_label: Seq<char>,
    pub device_label: Seq<char>,
    pub files_label: Seq<char>,
    pub request_bar: BarView,
    pub send_bar: BarView,
    pub accept_visible: bool,
    pub decline_visible: bool,
    pub request_cancel_visible: bool,
    pub transfer_id: Option<Seq<char>>,
    pub selected_file: Option<Seq<char>>,
    pub devices: Seq<EndpointView>,
}

impl View for Ui {
    type V = UiView;

    open spec fn view(&self) -> UiView {
        UiView {
            page: self.page,
            file_label: self.file_label@,
            device_label: self.device_label@,
            files_label: self.files_label@,
            request_bar: self.request_bar@,
            send_bar: self.send_bar@,
            accept_visible: self.accept_visible,
            decline_visible: self.decline_visible,
            request_cancel_visible: self.request_cancel_visible,
            transfer_id: text_of(self.transfer_id),
            selected_file: text_of(self.selected_file),
            devices: self.devices@,
        }
    }
}

/// The line that tells how much is offered.
pub open spec fn offer_text(files_count: nat, total_bytes: nat) -> Seq<char> {
    decimal(files_count) + " file(s) ("@ + size_shown(total_bytes) + ")"@
}

impl UiView {
    /// The window when it opens.
    pub open spec fn initial() -> UiView {
        UiView {
            page: Page::Initial,
            file_label: "No file selected"@,
            device_label: Seq::empty(),
            files_label: Seq::empty(),
            request_bar: BarView { visible: false, filled: None, text: None },
            send_bar: BarView { visible: false, filled: None, text: Some("Sending..."@) },
            accept_visible: true,
            decline_visible: true,
            request_cancel_visible: false,
            transfer_id: None,
            selected_file: None,
            devices: Seq::empty(),
        }
    }

    /// A device was announced.
    pub open spec fn endpoint_found(self, endpoint: EndpointView) -> UiView {
        UiView { devices: listed(self.devices, endpoint), ..self }
    }

    /// Another device offers a transfer: the request page asks for consent.
    pub open spec fn inbound_request(
        self,
        id: Seq<char>,
        device_name: Seq<char>,
        files_count: nat,
        total_bytes: nat,
    ) -> UiView {
        UiView {
            page: Page::Request,
            device_label: "From: "@ + device_name,
            files_label: offer_text(files_count, total_bytes),
            request_bar: self.request_bar.hidden().emptied(),
            accept_visible: true,
            decline_visible: true,
            request_cancel_visible: false,
            transfer_id: Some(id),
            ..self
        }
    }

    /// An outgoing transfer runs: its bar is shown empty, with its last text.
    pub open spec fn outbound_started(self, id: Seq<char>) -> UiView {
        UiView { transfer_id: Some(id), send_bar: self.send_bar.unhidden().emptied(), ..self }
    }

    /// A transfer has advanced: the bars that are visible show it.
    pub open spec fn progress(self, progress: ProgressView) -> UiView {
        UiView {
            request_bar: self.request_bar.advance(progress),
            send_bar: self.send_bar.advance(progress),
            ..self
        }
    }

    /// A transfer has ended, well or not: back to the first page.
    pub open spec fn ended(self) -> UiView {
        UiView {
            page: Page::Initial,
            request_bar: self.request_bar.hidden(),
            send_bar: self.send_bar.hidden(),
            transfer_id: None,
            ..self
        }
    }

    /// What an event comes to.
    pub open spec fn after_event(self, event: EventView) -> UiView {
        match event {
            EventView::EndpointFound(endpoint) => self.endpoint_found(endpoint),
            EventView::InboundRequest { id, device_name, files_count, total_bytes } =>
                self.inbound_request(id, device_name, files_count, total_bytes),
            EventView::OutboundStarted(id) => self.outbound_started(id),
            EventView::Progress(progress) => self.progress(progress),
            EventView::Finished => self.ended(),
            EventView::Error(_) => self.ended(),
        }
    }

    /// The user has left the choice of a file. A chosen file without a path leaves
    /// the last path in place.
    pub open spec fn file_choice(self, accepted: bool, file: Option<FileView>) -> UiView {
        match file {
            Some(chosen) if accepted => UiView {
                page: Page::Selected,
                file_label: shortened(chosen.label(), SHOWN_NAME_BYTES as nat),
                selected_file: if chosen.path is Some {
                    chosen.path
                } else {
                    self.selected_file
                },
                ..self
            },
            _ => self,
        }
    }

    /// The user gave up sending.
    pub open spec fn cancelled(self) -> UiView {
        UiView {
            page: Page::Initial,
            send_bar: self.send_bar.hidden(),
            transfer_id: None,
            ..self
        }
    }

    /// The user took an offer: its bar takes the place of the two answers.
    pub open spec fn accepted(self) -> UiView {
        if self.transfer_id is Some {
            UiView {
                request_bar: self.request_bar.unhidden(),
                accept_visible: false,
                decline_visible: false,
                request_cancel_visible: true,
                ..self
            }
        } else {
            self
        }
    }

    /// The user turned an offer down.
    pub open spec fn declined(self) -> UiView {
        UiView { page: Page::Initial, ..self }
    }

    /// The user gave up receiving.
    pub open spec fn request_cancelled(self) -> UiView {
        UiView { page: Page::Initial, transfer_id: None, ..self }
    }

    /// The word to the service about the current transfer, if there is one.
    pub open spec fn command(self, action: TransferAction) -> Option<CommandView> {
        match self.transfer_id {
            Some(id) => Some(CommandView { id, action }),
            None => None,
        }
    }

    /// What a click on a device asks the service to send, once a file is chosen.
    pub open spec fn send_request(self, device: EndpointView, now: nat) -> Option<SendView> {
        match self.selected_file {
            Some(path) => Some(device.send_request(path, now)),
            None => None,
        }
    }
}

impl Ui {
    /// The window when it opens.
    pub fn new() -> (ui: Ui)
        ensures
            ui@ == UiView::initial(),
    {
        let ui = Ui {
            page: Page::Initial,
            file_label: "No file selected".to_owned(),
            device_label: String::new(),
            files_label: String::new(),
            request_bar: Bar { visible: false, filled: None, text: None },
            send_bar: Bar { visible: false, filled: None, text: Some("Sending...".to_owned()) },
            accept_visible: true,
            decline_visible: true,
            request_cancel_visible: false,
            transfer_id: None,
            selected_file: None,
            devices: DeviceList::new(),
        };
        assert(ui@ == UiView::initial());
        ui
    }

    fn show_request(&mut self, id: String, device_name: String, files_count: usize, total_bytes: u64)
        ensures
            final(self)@ == old(self)@.inbound_request(
                id@,
                device_name@,
                files_count as nat,
                total_bytes as nat,
            ),
    {
        self.device_label = "From: ".to_owned().concat(device_name.as_str());
        self.files_label = decimal_text(files_count as u128).concat(" file(s) (").concat(
            size_text(total_bytes).as_str(),
        ).concat(")");
        self.transfer_id = Some(id);
        self.request_bar.visible = false;
        self.request_bar.filled = None;
        self.accept_visible = true;
        self.decline_visible = true;
        self.request_cancel_visible = false;
        self.page = Page::Request;
    }

    fn end_transfer(&mut self)
        ensures
            final(self)@ == old(self)@.ended(),
    {
        self.transfer_id = None;
        self.request_bar.visible = false;
        self.send_bar.visible = false;
        self.page = Page::Initial;
    }

    /// Takes in an event of the service. Returns what it changed in the list of
    /// devices.
    pub fn on_event(&mut self, event: ServiceEvent) -> (change: ListChange)
        ensures
            final(self)@ == old(self)@.after_event(event@),
            change == (match event@ {
                EventView::EndpointFound(endpoint) => change_of(old(self)@.devices, endpoint),
                _ => ListChange::Unchanged,
            }),
    {
        match event {
            ServiceEvent::EndpointFound(endpoint) => self.devices.add_device(endpoint),
            ServiceEvent::InboundRequest { id, device_name, files_count, total_bytes } => {
                self.show_request(id, device_name, files_count, total_bytes);
                ListChange::Unchanged
            },
            ServiceEvent::OutboundStarted(id) => {
                self.transfer_id = Some(id);
                self.send_bar.visible = true;
                self.send_bar.filled = None;
                ListChange::Unchanged
            },
            ServiceEvent::Progress(progress) => {
                self.request_bar.advance(progress);
                self.send_bar.advance(progress);
                ListChange::Unchanged
            },
            ServiceEvent::Finished => {
                self.end_transfer();
                ListChange::Unchanged
            },
            ServiceEvent::Error(_) => {
                self.end_transfer();
                ListChange::Unchanged
            },
        }
    }

    /// Takes in how the user left the choice of a file: with a file or without,
    /// by accepting it or not.
    pub fn on_file_choice(&mut self, accepted: bool, file: Option<ChosenFile>)
        requires
            accepted && file is Some ==> (file->0)@.can_be_shown(),
        ensures
            final(self)@ == old(self)@.file_choice(accepted, file_view(file)),
    {
        if accepted {
            if let Some(chosen) = file {
                let label = chosen.label();
                self.file_label = truncate_filename(label.as_str(), SHOWN_NAME_BYTES);
                if chosen.path.is_some() {
                    self.selected_file = chosen.path;
                }
                self.page = Page::Selected;
            }
        }
    }

    fn command(&self, action: TransferAction) -> (command: Option<Command>)
        ensures
            command_view(command) == self@.command(action),
    {
        match &self.transfer_id {
            Some(id) => Some(Command { id: id.clone(), action }),
            None => None,
        }
    }

    /// The button that gives up sending.
    pub fn on_cancel(&mut self) -> (command: Option<Command>)
        ensures
            command_view(command) == old(self)@.command(TransferAction::TransferCancel),
            final(self)@ == old(self)@.cancelled(),
    {
        let command = self.command(TransferAction::TransferCancel);
        self.transfer_id = None;
        self.send_bar.visible = false;
        self.page = Page::Initial;
        command
    }

    /// The button that takes an offer.
    pub fn on_accept(&mut self) -> (command: Option<Command>)
        ensures
            command_view(command) == old(self)@.command(TransferAction::ConsentAccept),
            final(self)@ == old(self)@.accepted(),
    {
        let command = self.command(TransferAction::ConsentAccept);
        if self.transfer_id.is_some() {
            self.request_bar.visible = true;
            self.accept_visible = false;
            self.decline_visible = false;
            self.request_cancel_visible = true;
        }
        command
    }

    /// The button that turns an offer down.
    pub fn on_decline(&mut self) -> (command: Option<Command>)
        ensures
            command_view(command) == old(self)@.command(TransferAction::ConsentDecline),
            final(self)@ == old(self)@.declined(),
    {
        let command = self.command(TransferAction::ConsentDecline);
        self.page = Page::Initial;
        command
    }

    /// The button that gives up receiving.
    pub fn on_request_cancel(&mut self) -> (command: Option<Command>)
        ensures
            command_view(command) == old(self)@.command(TransferAction::TransferCancel),
            final(self)@ == old(self)@.request_cancelled(),
    {
        let command = self.command(TransferAction::TransferCancel);
        self.transfer_id = None;
        self.page = Page::Initial;
        command
    }

    /// A click on a device, `now` milliseconds into the Unix era.
    pub fn on_device(&self, device: &EndpointInfo, now: u128) -> (request: Option<SendInfo>)
        ensures
            match request {
                Some(r) => self@.send_request(device@, now as nat) == Some(r@),
                None => self@.send_request(device@, now as nat) is None,
            },
    {
        match &self.selected_file {
            Some(path) => Some(device.send_request(path.as_str(), now)),
            None => None,
        }
    }
}

} // verus!
