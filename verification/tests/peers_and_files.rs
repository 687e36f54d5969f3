use photo_transfer::client::{
    build_header, decision_for, file_metadata, plan_send, select_files, FileInfo, SendEvent,
    SendFailure, SendPhase, SendStart, SendStep, Sending,
};
use photo_transfer::files::{
    file_extension, file_in_folder, get_media_extensions_list, is_hidden_name, is_media_file_name,
    visit_chosen, visit_entry, visit_for_media, EntryKind, Visit,
};
use photo_transfer::registry::{
    peer_of, Advertisement, DiscoveredService, DiscoveryEvent, PeerRegistry,
};
use photo_transfer::text::{
    chars_of, decimal_chars, equals, matches_at, replace, starts_with, text_of, zero_padded_chars,
};
use photo_transfer::server::local_host_name;
use photo_transfer::session::{
    sender_start, sender_step, SenderDirective, SenderEnd, SenderEvent, SenderPhase,
};
use photo_transfer::updates::{
    archive_name, download_url_for, is_app_bundle, new_release, platform_entries,
    update_instance_name, update_service_type, Architecture, ServerState, UPDATE_PORT,
};
use photo_transfer::wire::{FileMetadata, ProtocolError, CHUNK_SIZE};
use photo_transfer::reception::AbortCause;
use photo_transfer::wire::ErrorKind;
use photo_transfer::client::sum_sizes;
use photo_transfer::platform::{host_name_or_empty, millis_or_zero};
use photo_transfer::notify::{alert_script, sound_file, sound_for, sound_script, Desktop};

fn chars(s: &str) -> Vec<char> {
    s.chars().collect()
}

fn text(v: Vec<char>) -> String {
    v.into_iter().collect()
}

#[test]
fn text_replace_is_leftmost_and_does_not_rescan() {
    assert_eq!(text(replace(&chars("aaa"), &chars("aa"), &chars("b"))), "ba");
    assert_eq!(text(replace(&chars("abab"), &chars("ab"), &chars("abab"))), "abababab");
    assert_eq!(text(replace(&chars("abc"), &chars(""), &chars("x"))), "abc");
    assert_eq!(text(replace(&chars("abc"), &chars("abcd"), &chars("x"))), "abc");
    assert_eq!(text(replace(&chars("xabc"), &chars("abc"), &chars(""))), "x");
}

#[test]
fn text_search() {
    assert!(starts_with(&chars("abc"), &chars("ab")));
    assert!(starts_with(&chars("abc"), &chars("")));
    assert!(!starts_with(&chars("ab"), &chars("abc")));
    assert!(matches_at(&chars("hello"), &chars("ll"), 2));
    assert!(!matches_at(&chars("hello"), &chars("ll"), 3));
    assert!(!matches_at(&chars("hello"), &chars("lo!"), 3));
    assert!(matches_at(&chars("hello"), &chars(""), 5));
    assert!(!matches_at(&chars("hello"), &chars(""), 6));
    assert!(equals("DAY 1", "DAY 1"));
    assert!(!equals("DAY 1", "DAY 2"));
    assert!(!equals("DAY 1", "DAY 10"));
    assert_eq!(chars_of("añ€"), vec!['a', 'ñ', '€']);
    assert_eq!(text_of(&vec!['a', 'ñ', '€']), "añ€");
    assert_eq!(chars_of(""), Vec::<char>::new());
}

#[test]
fn decimal_numerals() {
    assert_eq!(text(decimal_chars(0)), "0");
    assert_eq!(text(decimal_chars(9)), "9");
    assert_eq!(text(decimal_chars(10)), "10");
    assert_eq!(text(decimal_chars(1_700_000_000_123)), "1700000000123");
    assert_eq!(text(decimal_chars(u128::MAX)), u128::MAX.to_string());
    assert_eq!(text(zero_padded_chars(7, 3)), "007");
    assert_eq!(text(zero_padded_chars(7, 0)), "7");
    assert_eq!(text(zero_padded_chars(1234, 2)), "1234");
}

fn ad(name: Option<&str>, role: Option<&str>, addresses: &[&str]) -> Advertisement {
    Advertisement {
        fullname: "porn-receiver-1._phototransfer._tcp.local.".to_string(),
        role: role.map(|r| r.to_string()),
        name: name.map(|n| n.to_string()),
        addresses: addresses.iter().map(|a| a.to_string()).collect(),
        port: 45678,
    }
}

#[test]
fn advertisement_becomes_a_peer() {
    let peer = peer_of(&ad(Some("Desk"), Some("editor"), &["10.0.0.5", "10.0.0.6"]), &None).unwrap();
    assert_eq!(
        peer,
        DiscoveredService {
            name: "Desk".to_string(),
            role: "editor".to_string(),
            host: "10.0.0.5".to_string(),
            port: 45678,
        }
    );
    let bare = peer_of(&ad(None, None, &["10.0.0.5"]), &None).unwrap();
    assert_eq!(bare.name, "porn-receiver-1._phototransfer._tcp.local.");
    assert_eq!(bare.role, "unknown");
}

#[test]
fn own_advertisement_and_addressless_ones_are_no_peers() {
    let own = Some("Desk".to_string());
    assert_eq!(peer_of(&ad(Some("Desk"), Some("editor"), &["10.0.0.5"]), &own), None);
    assert!(peer_of(&ad(Some("Other"), Some("editor"), &["10.0.0.5"]), &own).is_some());
    assert_eq!(peer_of(&ad(Some("Desk"), Some("editor"), &[]), &None), None);
}

#[test]
fn registry_keeps_one_peer_per_name() {
    let mut registry = PeerRegistry::new();
    registry.handle_event(&DiscoveryEvent::Resolved(ad(Some("A"), Some("tagger"), &["1.1.1.1"])), &None);
    let mut second = ad(Some("B"), Some("editor"), &["2.2.2.2"]);
    second.fullname = "two".to_string();
    registry.handle_event(&DiscoveryEvent::Resolved(second), &None);
    let mut moved = ad(Some("A"), Some("tagger"), &["3.3.3.3"]);
    moved.fullname = "three".to_string();
    registry.handle_event(&DiscoveryEvent::Resolved(moved), &None);
    registry.handle_event(&DiscoveryEvent::Other, &None);
    let services = registry.services();
    assert_eq!(services.len(), 2);
    assert_eq!(registry.len(), 2);
    assert_eq!(services[0].name, "A");
    assert_eq!(services[0].host, "3.3.3.3");
    assert_eq!(services[1].name, "B");
    assert_eq!(registry.find_by_role("editor").unwrap().name, "B");
    assert_eq!(registry.find_by_role("direct"), None);
}

#[test]
fn removal_matches_the_identifier_exactly() {
    let mut registry = PeerRegistry::new();
    let mut a = ad(Some("Desk"), Some("tagger"), &["1.1.1.1"]);
    a.fullname = "porn-receiver-1.local.".to_string();
    let mut b = ad(Some("Desk 2"), Some("tagger"), &["2.2.2.2"]);
    b.fullname = "porn-receiver-11.local.".to_string();
    registry.handle_event(&DiscoveryEvent::Resolved(a), &None);
    registry.handle_event(&DiscoveryEvent::Resolved(b), &None);
    registry.handle_event(&DiscoveryEvent::Removed("porn-receiver-1".to_string()), &None);
    assert_eq!(registry.len(), 2);
    registry.handle_event(&DiscoveryEvent::Removed("porn-receiver-1.local.".to_string()), &None);
    let services = registry.services();
    assert_eq!(services.len(), 1);
    assert_eq!(services[0].name, "Desk 2");
    registry.add_manual_service("9.9.9.9", 1000, "editor", "Manual");
    assert_eq!(registry.services()[1].host, "9.9.9.9");
    registry.remove("Manual");
    assert_eq!(registry.len(), 1);
    registry.clear();
    assert_eq!(registry.len(), 0);
    let direct = DiscoveredService::direct("10.0.0.1", 45678, "10.0.0.1:45678");
    assert_eq!(direct.role, "direct");
    assert_eq!(direct.name, "10.0.0.1:45678");
}

fn file(name: &str, relative: &str, size: u64) -> FileInfo {
    FileInfo {
        path: format!("/src/{}", relative),
        name: name.to_string(),
        relative_path: relative.to_string(),
        size,
    }
}

#[test]
fn selection_filters_by_relative_path() {
    let files = vec![file("a.jpg", "a.jpg", 1), file("b.jpg", "web/b.jpg", 2), file("c.jpg", "c.jpg", 3)];
    assert_eq!(select_files(&files, &None), files);
    let picked = select_files(&files, &Some(vec!["web/b.jpg".to_string(), "c.jpg".to_string()]));
    assert_eq!(picked, vec![files[1].clone(), files[2].clone()]);
    assert_eq!(select_files(&files, &Some(vec!["b.jpg".to_string()])), Vec::new());
    assert_eq!(decision_for(&picked), vec!["web/b.jpg".to_string(), "c.jpg".to_string()]);
    assert_eq!(
        file_metadata(&picked)[0],
        FileMetadata { name: "b.jpg".to_string(), relative_path: "web/b.jpg".to_string(), size: 2 }
    );
    assert_eq!(FileInfo::loose("/x/a.jpg", "a.jpg", 5).relative_path, "a.jpg");
}

#[test]
fn header_offers_every_file() {
    let files = vec![file("a.jpg", "a.jpg", 1), file("b.jpg", "b.jpg", 2)];
    let header = build_header("Ana", &Some("tagger".to_string()), &files, Some("Nunta".to_string()));
    assert_eq!(header.photographer, "Ana");
    assert_eq!(header.sender_role, Some("tagger".to_string()));
    assert_eq!(header.files.len(), 2);
    assert!(header.is_folder_transfer);
    assert_eq!(header.folder_name, Some("Nunta".to_string()));
    let plain = build_header("Ana", &None, &files, None);
    assert!(!plain.is_folder_transfer);
}

#[test]
fn send_plan_names_the_selected_files() {
    let files = vec![file("a.jpg", "a.jpg", 100), file("b.jpg", "b.jpg", 200)];
    let start = plan_send("Ana", &None, &files, None, &Some(vec!["b.jpg".to_string()])).unwrap();
    let plan = match start {
        SendStart::Connect(plan) => plan,
        SendStart::NothingToSend => panic!("a file was selected"),
    };
    assert_eq!(plan.header.files.len(), 2);
    assert_eq!(plan.decision, vec!["b.jpg".to_string()]);
    assert_eq!(plan.sending.total_bytes(), 200);
    assert_eq!(plan.first_step, SendStep::Open { index: 0 });
    let nothing = plan_send("Ana", &None, &files, None, &Some(Vec::new())).unwrap();
    assert!(matches!(nothing, SendStart::NothingToSend));
    let huge = vec![file("a", "a", u64::MAX), file("b", "b", 1)];
    assert!(matches!(plan_send("Ana", &None, &huge, None, &None), Err(ProtocolError::SizeOverflow)));
}

#[test]
fn sending_streams_and_waits_for_each_confirmation() {
    let files = vec![file("a.jpg", "a.jpg", CHUNK_SIZE as u64 + 1), file("e", "e", 0)];
    let (mut sending, first) = Sending::begin(files).unwrap();
    assert_eq!(first, SendStep::Open { index: 0 });
    assert_eq!(sending.advance(SendEvent::Opened, false), SendStep::Send { index: 0, max_bytes: CHUNK_SIZE });
    assert_eq!(
        sending.advance(SendEvent::Sent(CHUNK_SIZE), false),
        SendStep::Send { index: 0, max_bytes: 1 }
    );
    assert_eq!(sending.advance(SendEvent::Sent(1), false), SendStep::AwaitConfirmation { index: 0 });
    assert_eq!(sending.total_sent(), CHUNK_SIZE as u64 + 1);
    assert_eq!(sending.advance(SendEvent::Response(true), false), SendStep::Open { index: 1 });
    assert_eq!(sending.advance(SendEvent::Opened, true), SendStep::AwaitConfirmation { index: 1 });
    assert_eq!(sending.advance(SendEvent::Response(true), false), SendStep::Finish);
    assert_eq!(sending.phase(), SendPhase::Finished);
    assert_eq!(sending.advance(SendEvent::Opened, false), SendStep::Closed);
}

#[test]
fn sending_fails_on_cancel_and_rejection() {
    let files = vec![file("a.jpg", "a.jpg", 10)];
    let (mut sending, _) = Sending::begin(files.clone()).unwrap();
    assert_eq!(
        sending.advance(SendEvent::Opened, true),
        SendStep::Fail { cause: SendFailure::Cancelled }
    );
    assert_eq!(sending.advance(SendEvent::Sent(1), false), SendStep::Closed);

    let (mut sending, _) = Sending::begin(files.clone()).unwrap();
    sending.advance(SendEvent::Opened, false);
    assert_eq!(
        sending.advance(SendEvent::Sent(4), true),
        SendStep::Fail { cause: SendFailure::Cancelled }
    );

    let (mut sending, _) = Sending::begin(files.clone()).unwrap();
    sending.advance(SendEvent::Opened, false);
    sending.advance(SendEvent::Sent(10), false);
    assert_eq!(
        sending.advance(SendEvent::Response(false), false),
        SendStep::Fail { cause: SendFailure::Rejected }
    );

    let (mut sending, _) = Sending::begin(files.clone()).unwrap();
    sending.advance(SendEvent::Opened, false);
    assert_eq!(sending.advance(SendEvent::EndOfFile, false), SendStep::AwaitConfirmation { index: 0 });
    assert_eq!(
        sending.advance(SendEvent::ResponseFailed, false),
        SendStep::Fail { cause: SendFailure::ResponseFailed }
    );

    for (event, cause) in [
        (SendEvent::ReadFailed, SendFailure::ReadFailed),
        (SendEvent::WriteFailed, SendFailure::WriteFailed),
        (SendEvent::Sent(11), SendFailure::Unexpected),
        (SendEvent::Sent(0), SendFailure::Unexpected),
    ] {
        let (mut sending, _) = Sending::begin(files.clone()).unwrap();
        sending.advance(SendEvent::Opened, false);
        assert_eq!(sending.advance(event, false), SendStep::Fail { cause });
    }
    let (mut sending, _) = Sending::begin(files).unwrap();
    assert_eq!(
        sending.advance(SendEvent::OpenFailed, false),
        SendStep::Fail { cause: SendFailure::OpenFailed }
    );
}

#[test]
fn media_extensions() {
    let list = get_media_extensions_list();
    assert_eq!(list.len(), 42);
    assert_eq!(list[0], "cr2");
    assert_eq!(list[22], "jpg");
    assert_eq!(list[41], "crm");
    assert!(is_media_file_name("IMG_1.JPG"));
    assert!(is_media_file_name("clip.final.mov"));
    assert!(!is_media_file_name("notes.txt"));
    assert!(!is_media_file_name("jpg"));
    assert!(!is_media_file_name(".jpg"));
    assert!(!is_media_file_name("a."));
    assert_eq!(file_extension("a.tar.gz"), Some("gz".to_string()));
    assert_eq!(file_extension("a."), Some(String::new()));
    assert_eq!(file_extension(".hidden"), None);
    assert_eq!(file_extension(".."), None);
    assert_eq!(file_extension("plain"), None);
    assert_eq!(file_extension("..a"), Some("a".to_string()));
}

#[test]
fn visiting_entries() {
    assert!(is_hidden_name(".DS_Store"));
    assert!(!is_hidden_name("a.jpg"));
    assert!(!is_hidden_name(""));
    assert_eq!(visit_chosen(EntryKind::Directory), Visit::Descend);
    assert_eq!(visit_chosen(EntryKind::File), Visit::Take);
    assert_eq!(visit_chosen(EntryKind::Other), Visit::Skip);
    assert_eq!(visit_entry(".git", EntryKind::Directory), Visit::Skip);
    assert_eq!(visit_entry("web", EntryKind::Directory), Visit::Descend);
    assert_eq!(visit_entry("a.txt", EntryKind::File), Visit::Take);
    assert_eq!(visit_for_media("a.txt", EntryKind::File, true), Visit::Skip);
    assert_eq!(visit_for_media("a.nef", EntryKind::File, true), Visit::Take);
    assert_eq!(visit_for_media(".a.nef", EntryKind::File, true), Visit::Skip);
    assert_eq!(visit_for_media(".a.nef", EntryKind::File, false), Visit::Take);
    assert_eq!(visit_for_media(".photos", EntryKind::Directory, false), Visit::Descend);
    assert_eq!(visit_for_media("x", EntryKind::Other, false), Visit::Skip);
    let nested = file_in_folder("/src/n/web/a.jpg", "web", "a.jpg", 3);
    assert_eq!(nested.relative_path, "web/a.jpg");
    let top = file_in_folder("/src/n/a.jpg", "", "a.jpg", 3);
    assert_eq!(top.relative_path, "a.jpg");
    assert_eq!(top.name, "a.jpg");
    assert_eq!(top.size, 3);
}

#[test]
fn update_description() {
    assert_eq!(archive_name("receiver", Architecture::Aarch64), "receiver_aarch64.app.tar.gz");
    assert_eq!(archive_name("sender", Architecture::X64), "sender_x64.app.tar.gz");
    assert!(is_app_bundle("/x/Receiver.app"));
    assert!(!is_app_bundle("/x/Receiver.app.tar.gz"));
    assert!(!is_app_bundle("app"));
    assert_eq!(
        download_url_for("10.0.0.2", 8080, "receiver", "receiver_x64.app.tar.gz"),
        "http://10.0.0.2:8080/receiver/receiver_x64.app.tar.gz"
    );
    let release = new_release(
        "receiver",
        "1.2.0",
        "notes",
        Some(("receiver_aarch64.app.tar.gz".to_string(), Some("SIG".to_string()))),
        Some(("receiver_x64.app.tar.gz".to_string(), None)),
        "2024-05-01T00:00:00+00:00",
    );
    let entries = platform_entries(&release, "10.0.0.2", UPDATE_PORT);
    assert_eq!(entries.len(), 1);
    assert_eq!(entries[0].platform, "darwin-aarch64");
    assert_eq!(entries[0].signature, "SIG");
    assert_eq!(entries[0].url, "http://10.0.0.2:8080/receiver/receiver_aarch64.app.tar.gz");

    let mut state = ServerState::new("127.0.0.1".to_string());
    assert!(!state.running);
    assert!(state.start("10.0.0.2".to_string()));
    assert!(!state.start("10.0.0.3".to_string()));
    assert_eq!(state.local_ip, "10.0.0.2");
    state.add_release(release.clone());
    let mut newer = release.clone();
    newer.version = "1.3.0".to_string();
    state.add_release(newer);
    assert_eq!(state.releases.len(), 1);
    assert_eq!(state.releases[0].version, "1.3.0");
    state.stop();
    assert!(!state.running);
}

#[test]
fn failures_have_kinds() {
    assert_eq!(AbortCause::Cancelled.kind(), ErrorKind::Cancellation);
    assert_eq!(AbortCause::PeerClosed.kind(), ErrorKind::Connection);
    assert_eq!(AbortCause::FileFailed.kind(), ErrorKind::Filesystem);
    assert_eq!(AbortCause::Unexpected.kind(), ErrorKind::Protocol);
    assert_eq!(SendFailure::Cancelled.kind(), ErrorKind::Cancellation);
    assert_eq!(SendFailure::OpenFailed.kind(), ErrorKind::Filesystem);
    assert_eq!(SendFailure::ResponseFailed.kind(), ErrorKind::Connection);
    assert_eq!(SendFailure::Rejected.kind(), ErrorKind::Protocol);
    assert_eq!(ProtocolError::NotReady("busy".to_string()).kind(), ErrorKind::PeerNotReady);
    assert_eq!(ProtocolError::MalformedJson.kind(), ErrorKind::Protocol);
}

#[test]
fn sizes_are_summed_with_care() {
    assert_eq!(sum_sizes(&vec![file("a", "a", 1), file("b", "b", 2)]), Some(3));
    assert_eq!(sum_sizes(&Vec::new()), Some(0));
    assert_eq!(sum_sizes(&vec![file("a", "a", u64::MAX), file("b", "b", 1)]), None);
}

#[test]
fn clock_and_host_fallbacks() {
    assert_eq!(millis_or_zero(Some(5)), 5);
    assert_eq!(millis_or_zero(None), 0);
    assert_eq!(host_name_or_empty(Some("mac".to_string())), "mac");
    assert_eq!(host_name_or_empty(None), "");
}

#[test]
fn desktop_sounds_and_alerts() {
    assert_eq!(sound_for(Desktop::MacOs, "receive-photographer"), "Glass");
    assert_eq!(sound_for(Desktop::MacOs, "receive-editor"), "Ping");
    assert_eq!(sound_for(Desktop::MacOs, "send-complete"), "Hero");
    assert_eq!(sound_for(Desktop::MacOs, "error"), "Basso");
    assert_eq!(sound_for(Desktop::MacOs, "other"), "Pop");
    assert_eq!(sound_for(Desktop::Windows, "receive-photographer"), "Asterisk");
    assert_eq!(sound_for(Desktop::Windows, "receive-editor"), "Exclamation");
    assert_eq!(sound_for(Desktop::Windows, "send-complete"), "Hand");
    assert_eq!(sound_for(Desktop::Windows, "error"), "Beep");
    assert_eq!(sound_for(Desktop::Windows, "other"), "Asterisk");
    assert_eq!(sound_file("Glass"), "/System/Library/Sounds/Glass.aiff");
    assert_eq!(sound_script("Hand"), "[System.Media.SystemSounds]::Hand::Play()");
    assert_eq!(
        alert_script(Desktop::MacOs, "Done", "5 \"raw\" files"),
        "display alert \"Done\" message \"5 \\\"raw\\\" files\""
    );
    assert_eq!(
        alert_script(Desktop::Windows, "It's done", "Ana's files"),
        "Add-Type -AssemblyName System.Windows.Forms; [System.Windows.Forms.MessageBox]::Show('Ana''s files', 'It''s done', 'OK', 'Information')"
    );
}

#[test]
fn update_server_advertisement() {
    assert_eq!(update_service_type(), "_http._tcp.local.");
    assert_eq!(update_instance_name(), "porn-transfer-updates");
    assert_eq!(local_host_name("mac"), "mac.local.");
}

#[test]
fn sender_streams_only_to_a_ready_receiver() {
    let (phase, first) = sender_start();
    assert_eq!((phase, first), (SenderPhase::Connecting, SenderDirective::Connect));
    let (phase, d) = sender_step(phase, SenderEvent::Connected, false);
    assert_eq!((phase, d), (SenderPhase::Offering, SenderDirective::SendHeader));
    let (phase, d) = sender_step(phase, SenderEvent::HeaderSent, false);
    assert_eq!((phase, d), (SenderPhase::AwaitAckLength, SenderDirective::ReadLength));
    let (phase, d) = sender_step(phase, SenderEvent::LengthRead(40), false);
    assert_eq!((phase, d), (SenderPhase::AwaitAck { length: 40 }, SenderDirective::ReadPayload { length: 40 }));
    let ready = SenderEvent::AckRead { well_formed: true, ready: true };
    let busy = SenderEvent::AckRead { well_formed: true, ready: false };
    let garbled = SenderEvent::AckRead { well_formed: false, ready: true };
    assert_eq!(
        sender_step(phase, busy, false),
        (SenderPhase::Closed, SenderDirective::Close { end: SenderEnd::NotReady })
    );
    assert_eq!(
        sender_step(phase, garbled, false),
        (SenderPhase::Closed, SenderDirective::Close { end: SenderEnd::ProtocolViolated })
    );
    let (phase, d) = sender_step(phase, ready, false);
    assert_eq!((phase, d), (SenderPhase::Deciding, SenderDirective::SendDecision));
    assert_eq!(
        sender_step(phase, SenderEvent::DecisionSent, true),
        (SenderPhase::Closed, SenderDirective::Close { end: SenderEnd::Probed })
    );
    let (phase, d) = sender_step(phase, SenderEvent::DecisionSent, false);
    assert_eq!((phase, d), (SenderPhase::Streaming, SenderDirective::StreamFiles));
    assert_eq!(
        sender_step(phase, SenderEvent::Failed, false),
        (SenderPhase::Closed, SenderDirective::Close { end: SenderEnd::ConnectionLost })
    );
    let (phase, d) = sender_step(phase, SenderEvent::StreamOver, false);
    assert_eq!((phase, d), (SenderPhase::Closed, SenderDirective::Close { end: SenderEnd::Streamed }));
    assert_eq!(
        sender_step(phase, SenderEvent::Connected, false),
        (SenderPhase::Closed, SenderDirective::Close { end: SenderEnd::ProtocolViolated })
    );
    assert_eq!(
        sender_step(SenderPhase::Connecting, SenderEvent::HeaderSent, false),
        (SenderPhase::Closed, SenderDirective::Close { end: SenderEnd::ProtocolViolated })
    );
}
