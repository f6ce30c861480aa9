use sendfiles::devices::{EndpointInfo, ListChange};
use sendfiles::transfer::{Progress, ServiceEvent};
use sendfiles::ui::{ChosenFile, Command, Page, TransferAction, Ui};

fn request(id: &str) -> ServiceEvent {
    ServiceEvent::InboundRequest {
        id: id.to_string(),
        device_name: "Pixel".to_string(),
        files_count: 3,
        total_bytes: 1536,
    }
}

fn progress(acknowledged: u64, total: u64) -> ServiceEvent {
    ServiceEvent::Progress(Progress::new(acknowledged, total).unwrap())
}

fn file(name: Option<&str>, path: Option<&str>) -> Option<ChosenFile> {
    Some(ChosenFile { name: name.map(|n| n.to_string()), path: path.map(|p| p.to_string()) })
}

fn assert_command(command: Option<Command>, id: &str, action: TransferAction) {
    let command = command.unwrap();
    assert_eq!(command.id, id);
    assert_eq!(command.action, action);
}

fn device() -> EndpointInfo {
    EndpointInfo { id: "AAAA".to_string(), name: Some("Phone".to_string()), ip: None, port: None }
}

#[test]
fn window_opens_on_the_first_page() {
    let ui = Ui::new();
    assert_eq!(ui.page, Page::Initial);
    assert_eq!(ui.file_label, "No file selected");
    assert_eq!(ui.device_label, "");
    assert_eq!(ui.files_label, "");
    assert!(!ui.request_bar.visible && ui.request_bar.text.is_none() && ui.request_bar.filled.is_none());
    assert!(!ui.send_bar.visible && ui.send_bar.filled.is_none());
    assert_eq!(ui.send_bar.text.as_deref(), Some("Sending..."));
    assert!(ui.accept_visible && ui.decline_visible && !ui.request_cancel_visible);
    assert!(ui.transfer_id.is_none() && ui.selected_file.is_none());
    assert_eq!(ui.devices.len(), 0);
}

#[test]
fn offer_is_shown() {
    let mut ui = Ui::new();
    assert_eq!(ui.on_event(request("t1")), ListChange::Unchanged);
    assert_eq!(ui.page, Page::Request);
    assert_eq!(ui.device_label, "From: Pixel");
    assert_eq!(ui.files_label, "3 file(s) (1.50 KB)");
    assert_eq!(ui.transfer_id.as_deref(), Some("t1"));
    assert!(ui.accept_visible && ui.decline_visible && !ui.request_cancel_visible);
}

#[test]
fn offer_is_taken_and_finishes() {
    let mut ui = Ui::new();
    ui.on_event(request("t1"));
    ui.on_event(progress(1, 4));
    assert!(ui.request_bar.filled.is_none());
    assert_command(ui.on_accept(), "t1", TransferAction::ConsentAccept);
    assert!(ui.request_bar.visible && ui.request_cancel_visible);
    assert!(!ui.accept_visible && !ui.decline_visible);
    assert_eq!(ui.page, Page::Request);
    ui.on_event(progress(1, 4));
    assert_eq!(ui.request_bar.text.as_deref(), Some("25%"));
    let filled = ui.request_bar.filled.unwrap();
    assert_eq!((filled.acknowledged(), filled.total()), (1, 4));
    assert!(ui.send_bar.filled.is_none());
    ui.on_event(ServiceEvent::Finished);
    assert_eq!(ui.page, Page::Initial);
    assert!(!ui.request_bar.visible && ui.transfer_id.is_none());
    assert!(ui.on_accept().is_none());
    assert!(!ui.request_bar.visible);
}

#[test]
fn offer_is_turned_down() {
    let mut ui = Ui::new();
    ui.on_event(request("t1"));
    assert_command(ui.on_decline(), "t1", TransferAction::ConsentDecline);
    assert_eq!(ui.page, Page::Initial);
    assert_eq!(ui.transfer_id.as_deref(), Some("t1"));
}

#[test]
fn taken_offer_is_given_up() {
    let mut ui = Ui::new();
    ui.on_event(request("t1"));
    ui.on_accept();
    assert_command(ui.on_request_cancel(), "t1", TransferAction::TransferCancel);
    assert_eq!(ui.page, Page::Initial);
    assert!(ui.transfer_id.is_none());
    assert!(ui.request_bar.visible);
    assert!(ui.on_request_cancel().is_none());
    ui.on_event(request("t2"));
    assert!(!ui.request_bar.visible && ui.request_bar.filled.is_none());
}

#[test]
fn outgoing_transfer_runs_and_fails() {
    let mut ui = Ui::new();
    ui.on_event(progress(1, 2));
    assert_eq!(ui.send_bar.text.as_deref(), Some("Sending..."));
    ui.on_event(ServiceEvent::OutboundStarted("t3".to_string()));
    assert!(ui.send_bar.visible && ui.send_bar.filled.is_none());
    ui.on_event(progress(1, 2));
    assert_eq!(ui.send_bar.text.as_deref(), Some("50%"));
    ui.on_event(ServiceEvent::OutboundStarted("t3".to_string()));
    assert!(ui.send_bar.filled.is_none());
    assert_eq!(ui.send_bar.text.as_deref(), Some("50%"));
    ui.on_event(ServiceEvent::Error("gone".to_string()));
    assert!(!ui.send_bar.visible && ui.transfer_id.is_none());
    assert_eq!(ui.page, Page::Initial);
    assert!(ui.on_cancel().is_none());
}

#[test]
fn outgoing_transfer_is_given_up() {
    let mut ui = Ui::new();
    ui.on_event(ServiceEvent::OutboundStarted("t3".to_string()));
    assert_command(ui.on_cancel(), "t3", TransferAction::TransferCancel);
    assert!(!ui.send_bar.visible && ui.transfer_id.is_none());
    assert_eq!(ui.page, Page::Initial);
}

#[test]
fn buttons_without_transfer_tell_nothing() {
    let mut ui = Ui::new();
    assert!(ui.on_accept().is_none());
    assert!(ui.on_decline().is_none());
    assert!(ui.on_cancel().is_none());
    assert!(ui.on_request_cancel().is_none());
    assert!(ui.accept_visible && !ui.request_cancel_visible && !ui.request_bar.visible);
}

#[test]
fn file_is_chosen() {
    let mut ui = Ui::new();
    ui.on_file_choice(true, file(Some("abcdefghijklmnopqrstuvwxyz0.txt"), Some("/tmp/x")));
    assert_eq!(ui.page, Page::Selected);
    assert_eq!(ui.file_label, "abcdefghijklmno ... .txt");
    assert_eq!(ui.selected_file.as_deref(), Some("/tmp/x"));
    ui.on_file_choice(true, file(None, None));
    assert_eq!(ui.file_label, "Unknown");
    assert_eq!(ui.selected_file.as_deref(), Some("/tmp/x"));
}

#[test]
fn choice_of_file_is_dismissed() {
    let mut ui = Ui::new();
    ui.on_file_choice(false, file(Some("a.txt"), Some("/tmp/a.txt")));
    ui.on_file_choice(true, None);
    assert_eq!(ui.page, Page::Initial);
    assert_eq!(ui.file_label, "No file selected");
    assert!(ui.selected_file.is_none());
}

#[test]
fn unshowable_names_are_known_before() {
    let name = "\u{e4}".repeat(16);
    assert!(!file(Some(&name), None).unwrap().can_be_shown());
    assert!(file(Some("a"), None).unwrap().can_be_shown());
    assert!(file(None, None).unwrap().can_be_shown());
}

#[test]
fn device_is_sent_the_chosen_file() {
    let mut ui = Ui::new();
    assert!(ui.on_device(&device(), 5).is_none());
    ui.on_file_choice(true, file(Some("a.txt"), Some("/tmp/a.txt")));
    let sent = ui.on_device(&device(), 5).unwrap();
    assert_eq!(sent.id, "AAAA-5");
    assert_eq!(sent.files, vec!["/tmp/a.txt"]);
    ui.on_event(ServiceEvent::Finished);
    assert!(ui.on_device(&device(), 6).is_some());
}

#[test]
fn devices_stay_in_the_list() {
    let mut ui = Ui::new();
    assert_eq!(ui.on_event(ServiceEvent::EndpointFound(device())), ListChange::Added);
    assert_eq!(ui.on_event(ServiceEvent::EndpointFound(device())), ListChange::Unchanged);
    ui.on_file_choice(true, file(Some("a.txt"), Some("/tmp/a.txt")));
    ui.on_event(request("t1"));
    ui.on_event(ServiceEvent::Error("gone".to_string()));
    ui.on_cancel();
    assert_eq!(ui.devices.len(), 1);
}

#[test]
fn click_sends_the_last_chosen_path() {
    let mut ui = Ui::new();
    ui.on_file_choice(true, file(Some("a"), Some("/tmp/a")));
    ui.on_file_choice(true, file(Some("b"), Some("/tmp/b")));
    ui.on_file_choice(false, file(Some("c"), Some("/tmp/c")));
    ui.on_file_choice(true, file(Some("d"), None));
    ui.on_file_choice(true, None);
    ui.on_event(request("t1"));
    ui.on_cancel();
    assert_eq!(ui.on_device(&device(), 9).unwrap().files, vec!["/tmp/b"]);
}
