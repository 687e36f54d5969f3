use photo_transfer::config::ReceiverConfig;
use photo_transfer::duplicates::{ExistingFile, FolderSnapshot};
use photo_transfer::history::{save_to_history, record_completion, TransferRecord, TransferStatus};
use photo_transfer::reception::{AbortCause, Event, Notice, Phase, Reception, Step};
use photo_transfer::server::{
    answer_header, choose_files, counted_or_received, final_folder_name, final_folder_path,
    open_negotiation, plan_reception, progress_of, registration_for, relay_folder_name,
    resume_folder, source_category, transfer_record, ResumeFolder,
};
use photo_transfer::session::{
    session_start, session_step, Directive, SessionEnd, SessionEvent, SessionPhase,
};
use photo_transfer::temp::{FolderEntry, FolderTotals};
use photo_transfer::wire::{FileMetadata, ProtocolError, TransferHeader, CHUNK_SIZE};
use photo_transfer::server::service_registration;
use photo_transfer::server::target_path;
use photo_transfer::server::{listen_step, AcceptOutcome, ListenStep};
use photo_transfer::cancel::CancellationBoard;
use photo_transfer::temp::is_deletable_temp_folder;

fn config(role: &str, use_days: bool) -> ReceiverConfig {
    ReceiverConfig {
        role: role.to_string(),
        name: "Desk".to_string(),
        base_path: "/data".to_string(),
        folder_template: "{num:02d} - {name}".to_string(),
        folder_counter: 5,
        use_day_folders: use_days,
        current_day: "DAY 1".to_string(),
        reset_numbering_daily: true,
        day_counters: Vec::new(),
        port: 45678,
    }
}

fn meta(name: &str, size: u64) -> FileMetadata {
    FileMetadata { name: name.to_string(), relative_path: name.to_string(), size }
}

fn header(files: Vec<FileMetadata>) -> TransferHeader {
    TransferHeader {
        photographer: "Ana Pop".to_string(),
        files,
        is_folder_transfer: false,
        folder_name: None,
        sender_role: None,
    }
}

#[test]
fn category_follows_the_sender_role() {
    assert_eq!(source_category(&Some("tagger".to_string())), "Tagger");
    assert_eq!(source_category(&Some("editor".to_string())), "Editor");
    assert_eq!(source_category(&Some("drone".to_string())), "Fotograf");
    assert_eq!(source_category(&None), "Fotograf");
}

#[test]
fn search_base_depends_on_the_receiver_role() {
    let h = header(Vec::new());
    let tagger = open_negotiation(&config("tagger", true), &h);
    assert_eq!(tagger.search_base, "/data/DAY 1");
    assert!(tagger.scans_scope);
    let plain_tagger = open_negotiation(&config("tagger", false), &h);
    assert_eq!(plain_tagger.search_base, "/data");
    let editor = open_negotiation(&config("editor", true), &h);
    assert_eq!(editor.search_base, "/data/Fotograf");
    assert!(editor.scans_scope);
    let other = open_negotiation(&config("viewer", true), &h);
    assert_eq!(other.search_base, "/data");
    assert!(!other.scans_scope);
}

#[test]
fn resume_picks_the_most_recent_temp_folder_of_the_sender() {
    let entries = vec![
        FolderEntry { name: ".tmp_ana_pop_100".to_string(), is_dir: true, modified: Some(10) },
        FolderEntry { name: ".tmp_ana_pop_200".to_string(), is_dir: true, modified: Some(30) },
        FolderEntry { name: ".tmp_ana_pop_300".to_string(), is_dir: true, modified: Some(30) },
        FolderEntry { name: ".tmp_ion_400".to_string(), is_dir: true, modified: Some(99) },
        FolderEntry { name: ".tmp_ana_pop_500".to_string(), is_dir: false, modified: Some(99) },
        FolderEntry { name: "01 - Ana".to_string(), is_dir: true, modified: Some(99) },
    ];
    let found = resume_folder("/data/DAY 1", &entries, "Ana Pop").unwrap();
    assert_eq!(found.name, ".tmp_ana_pop_200");
    assert_eq!(found.path, "/data/DAY 1/.tmp_ana_pop_200");
    assert_eq!(resume_folder("/data/DAY 1", &entries, "Maria"), None);
}

#[test]
fn empty_decision_plans_nothing() {
    let h = header(vec![meta("a.jpg", 100)]);
    let plan = plan_reception(&h, &Vec::new(), "/data", &None, 1_700_000_000_000, false);
    assert!(matches!(plan, Ok(None)));
}

#[test]
fn decision_subset_receives_only_the_subset() {
    let h = header(vec![meta("a.jpg", 100), meta("b.jpg", 200), meta("c.jpg", 400)]);
    let decision = vec!["c.jpg".to_string(), "a.jpg".to_string()];
    let chosen = choose_files(&h.files, &decision);
    assert_eq!(chosen, vec![meta("a.jpg", 100), meta("c.jpg", 400)]);
    let plan = plan_reception(&h, &decision, "/data", &None, 7, false).unwrap().unwrap();
    assert_eq!(plan.reception.files(), &vec![meta("a.jpg", 100), meta("c.jpg", 400)]);
    assert_eq!(plan.reception.total_bytes(), 500);
    let p = progress_of(&plan.reception, &plan.transfer_id, "Ana Pop").unwrap();
    assert_eq!(p.total_bytes, 500);
    assert_eq!(p.total_files, 2);
    assert_eq!(p.file_name, "a.jpg");
}

#[test]
fn legacy_sender_is_matched_by_file_name() {
    let legacy = FileMetadata { name: "a.jpg".to_string(), relative_path: String::new(), size: 1 };
    let chosen = choose_files(&vec![legacy.clone()], &vec!["a.jpg".to_string()]);
    assert_eq!(chosen, vec![legacy]);
}

#[test]
fn new_transfer_gets_a_temp_folder_named_after_sender_and_time() {
    let h = header(vec![meta("a.jpg", 100)]);
    let plan = plan_reception(&h, &vec!["a.jpg".to_string()], "/data/DAY 1", &None, 1234, false)
        .unwrap()
        .unwrap();
    assert_eq!(plan.temp_name, ".tmp_ana_pop_1234");
    assert_eq!(plan.temp_path, "/data/DAY 1/.tmp_ana_pop_1234");
    assert_eq!(plan.transfer_id, "ana_pop_1234");
    assert!(!plan.resumed);
    assert_eq!(plan.first_step, Step::Open { index: 0 });
}

#[test]
fn resumed_transfer_reuses_the_temp_folder() {
    let h = header(vec![meta("a.jpg", 100)]);
    let resume = Some(ResumeFolder {
        name: ".tmp_ana_pop_9".to_string(),
        path: "/data/.tmp_ana_pop_9".to_string(),
    });
    let plan =
        plan_reception(&h, &vec!["a.jpg".to_string()], "/data", &resume, 1234, false).unwrap().unwrap();
    assert_eq!(plan.temp_path, "/data/.tmp_ana_pop_9");
    assert_eq!(plan.temp_name, ".tmp_ana_pop_9");
    assert!(plan.resumed);
}

#[test]
fn sizes_beyond_u64_are_refused() {
    let h = header(vec![meta("a.jpg", u64::MAX), meta("b.jpg", 1)]);
    let decision = vec!["a.jpg".to_string(), "b.jpg".to_string()];
    let plan = plan_reception(&h, &decision, "/data", &None, 1, false);
    assert!(matches!(plan, Err(ProtocolError::SizeOverflow)));
    let only_a = plan_reception(&h, &vec!["a.jpg".to_string()], "/data", &None, 1, false);
    assert!(matches!(only_a, Ok(Some(_))));
}

#[test]
fn round_trip_of_two_files() {
    let mut cfg = config("tagger", true);
    let h = header(vec![meta("a.jpg", 100), meta("b.jpg", 200)]);
    let negotiation = open_negotiation(&cfg, &h);
    let resume = resume_folder(&negotiation.search_base, &Vec::new(), &h.photographer);
    assert_eq!(resume, None);
    let ack = answer_header(&resume, &None, &Vec::new(), negotiation.scans_scope, &h.files);
    assert_eq!(ack.status, "ready");
    assert!(ack.duplicates.is_empty());
    assert_eq!(ack.folder, None);

    let decision = vec!["a.jpg".to_string(), "b.jpg".to_string()];
    let plan = plan_reception(&h, &decision, &negotiation.search_base, &resume, 42, false)
        .unwrap()
        .unwrap();
    assert_eq!(plan.temp_path, "/data/DAY 1/.tmp_ana_pop_42");
    let mut reception = plan.reception;
    assert_eq!(plan.first_step, Step::Open { index: 0 });
    assert_eq!(reception.advance(Event::Opened, false), Step::Read { index: 0, max_bytes: 100 });
    assert_eq!(reception.advance(Event::Stored(60), false), Step::Read { index: 0, max_bytes: 40 });
    assert_eq!(reception.advance(Event::Stored(40), false), Step::Confirm { index: 0 });
    assert_eq!(reception.advance(Event::Confirmed, false), Step::Open { index: 1 });
    assert_eq!(reception.advance(Event::Opened, false), Step::Read { index: 1, max_bytes: 200 });
    assert_eq!(reception.advance(Event::Stored(200), false), Step::Confirm { index: 1 });
    assert_eq!(reception.advance(Event::Confirmed, false), Step::Finish);
    assert_eq!(reception.phase(), Phase::Finished);
    assert_eq!(reception.total_received(), 300);
    assert_eq!(reception.files_completed(), 2);
    assert_eq!(reception.advance(Event::Confirmed, false), Step::Closed);

    let existing = vec![plan.temp_name.clone()];
    let name =
        final_folder_name(&mut cfg, &h, "2024-05-01", "09-30", &existing, &plan.temp_name).unwrap();
    assert_eq!(name, "01 - Ana Pop");
    assert_eq!(cfg.get_day_counter("DAY 1"), 2);
    let final_path = final_folder_path(&cfg, &negotiation.source_category, &name);
    assert_eq!(final_path, "/data/DAY 1/01 - Ana Pop");

    let totals = counted_or_received(None, &reception);
    assert_eq!(totals, FolderTotals { file_count: 2, total_size: 300 });
    let record = transfer_record(
        &plan.transfer_id,
        1_000,
        &h,
        totals,
        &final_path,
        &cfg,
        TransferStatus::Complete,
    );
    let mut history: Vec<TransferRecord> = Vec::new();
    record_completion(&mut history, &plan.temp_path, record);
    assert_eq!(history.len(), 1);
    assert_eq!(history[0].file_count, 2);
    assert_eq!(history[0].total_size, 300);
    assert_eq!(history[0].status, TransferStatus::Complete);
    assert_eq!(history[0].folder, "/data/DAY 1/01 - Ana Pop");
    assert_eq!(history[0].day, Some("DAY 1".to_string()));
}

#[test]
fn duplicate_probe_reports_matches_and_plans_nothing() {
    let cfg = config("tagger", true);
    let h = header(vec![meta("a.jpg", 100), meta("b.jpg", 200), meta("c.jpg", 5)]);
    let negotiation = open_negotiation(&cfg, &h);
    let scope = vec![
        FolderSnapshot {
            path: "/data/DAY 1/01 - Ion".to_string(),
            is_dir: true,
            files: vec![
                ExistingFile { name: "a.jpg".to_string(), size: 100 },
                ExistingFile { name: "b.jpg".to_string(), size: 7 },
            ],
        },
        FolderSnapshot {
            path: "/data/DAY 1/notes.txt".to_string(),
            is_dir: false,
            files: vec![ExistingFile { name: "c.jpg".to_string(), size: 5 }],
        },
    ];
    let ack = answer_header(&None, &None, &scope, negotiation.scans_scope, &h.files);
    assert_eq!(ack.status, "ready");
    assert_eq!(ack.duplicates.len(), 2);
    assert_eq!(ack.duplicates[0].file_name, "a.jpg");
    assert!(ack.duplicates[0].sizes_equal);
    assert_eq!(ack.duplicates[0].existing_path, "/data/DAY 1/01 - Ion");
    assert_eq!(ack.duplicates[1].file_name, "b.jpg");
    assert!(!ack.duplicates[1].sizes_equal);
    assert_eq!(ack.duplicates[1].existing_size, 7);
    assert_eq!(ack.duplicates[1].new_size, 200);
    let plan = plan_reception(&h, &Vec::new(), &negotiation.search_base, &None, 42, false);
    assert!(matches!(plan, Ok(None)));
}

#[test]
fn a_match_of_name_and_size_is_reported_once() {
    let cfg = config("editor", false);
    let h = header(vec![meta("a.jpg", 100), meta("b.jpg", 200)]);
    let negotiation = open_negotiation(&cfg, &h);
    let resume = Some(ResumeFolder {
        name: ".tmp_ana_pop_9".to_string(),
        path: "/data/Fotograf/.tmp_ana_pop_9".to_string(),
    });
    let resumed = Some(FolderSnapshot {
        path: "/data/Fotograf/.tmp_ana_pop_9".to_string(),
        is_dir: true,
        files: vec![ExistingFile { name: "b.jpg".to_string(), size: 200 }],
    });
    let scope = vec![
        FolderSnapshot {
            path: "/data/Fotograf/01".to_string(),
            is_dir: true,
            files: vec![ExistingFile { name: "a.jpg".to_string(), size: 100 }],
        },
        FolderSnapshot {
            path: "/data/Fotograf/02".to_string(),
            is_dir: true,
            files: vec![
                ExistingFile { name: "a.jpg".to_string(), size: 100 },
                ExistingFile { name: "b.jpg".to_string(), size: 200 },
            ],
        },
    ];
    let ack = answer_header(&resume, &resumed, &scope, negotiation.scans_scope, &h.files);
    assert_eq!(ack.status, "ready");
    assert_eq!(ack.folder, Some("/data/Fotograf/.tmp_ana_pop_9".to_string()));
    assert_eq!(ack.resume_folder, ack.folder);
    let seen: Vec<(&str, &str, u64, u64, bool)> = ack
        .duplicates
        .iter()
        .map(|d| (d.file_name.as_str(), d.existing_path.as_str(), d.existing_size, d.new_size, d.sizes_equal))
        .collect();
    assert_eq!(
        seen,
        vec![
            ("b.jpg", "/data/Fotograf/.tmp_ana_pop_9", 200, 200, true),
            ("a.jpg", "/data/Fotograf/01", 100, 100, true),
        ]
    );
}

#[test]
fn cancel_mid_file_records_one_partial_and_never_finishes() {
    let cfg = config("tagger", false);
    let h = header(vec![meta("a.jpg", 100), meta("b.jpg", 200)]);
    let decision = vec!["a.jpg".to_string(), "b.jpg".to_string()];
    let plan = plan_reception(&h, &decision, "/data", &None, 42, false).unwrap().unwrap();
    let mut reception = plan.reception;
    reception.advance(Event::Opened, false);
    let step = reception.advance(Event::Stored(10), true);
    assert_eq!(step, Step::Abort { cause: AbortCause::Cancelled });
    assert_eq!(AbortCause::Cancelled.status(), TransferStatus::Partial);
    assert_eq!(AbortCause::Cancelled.notices(), vec![Notice::Cancelled]);
    assert_eq!(reception.phase(), Phase::Aborted);
    assert_eq!(reception.total_received(), 10);
    assert_eq!(reception.advance(Event::Stored(90), false), Step::Closed);
    assert_eq!(reception.advance(Event::Confirmed, false), Step::Closed);

    let mut history: Vec<TransferRecord> = Vec::new();
    let totals = FolderTotals { file_count: 1, total_size: 10 };
    let record = transfer_record(
        &plan.transfer_id,
        5,
        &h,
        totals,
        &plan.temp_path,
        &cfg,
        step_status(step),
    );
    save_to_history(&mut history, record.clone());
    save_to_history(&mut history, record);
    assert_eq!(history.len(), 1);
    assert_eq!(history[0].status, TransferStatus::Partial);
    assert_eq!(history[0].folder, plan.temp_path);
    assert_eq!(history[0].day, None);
}

fn step_status(step: Step) -> TransferStatus {
    match step {
        Step::Abort { cause } => cause.status(),
        _ => TransferStatus::Complete,
    }
}

#[test]
fn cancel_before_a_file_aborts() {
    let files = vec![meta("a.jpg", 1), meta("b.jpg", 1)];
    let (mut reception, first) = Reception::begin(files.clone(), false).unwrap();
    assert_eq!(first, Step::Open { index: 0 });
    reception.advance(Event::Opened, false);
    reception.advance(Event::Stored(1), false);
    assert_eq!(
        reception.advance(Event::Confirmed, true),
        Step::Abort { cause: AbortCause::Cancelled }
    );
    let (_, first) = Reception::begin(files, true).unwrap();
    assert_eq!(first, Step::Abort { cause: AbortCause::Cancelled });
}

#[test]
fn failures_map_to_status_and_notices() {
    let cases = [
        (Event::SubfolderFailed, AbortCause::SubfolderFailed, TransferStatus::Error),
        (Event::FileFailed, AbortCause::FileFailed, TransferStatus::Error),
        (Event::Stored(1), AbortCause::Unexpected, TransferStatus::Error),
    ];
    for (event, cause, status) in cases {
        let (mut reception, _) = Reception::begin(vec![meta("a.jpg", 10)], false).unwrap();
        assert_eq!(reception.advance(event, false), Step::Abort { cause });
        assert_eq!(cause.status(), status);
    }
    let reading = [
        (Event::PeerClosed, AbortCause::PeerClosed, TransferStatus::Partial),
        (Event::ReadFailed, AbortCause::ReadFailed, TransferStatus::Error),
        (Event::WriteFailed, AbortCause::WriteFailed, TransferStatus::Error),
        (Event::Stored(0), AbortCause::Unexpected, TransferStatus::Error),
        (Event::Stored(11), AbortCause::Unexpected, TransferStatus::Error),
    ];
    for (event, cause, status) in reading {
        let (mut reception, _) = Reception::begin(vec![meta("a.jpg", 10)], false).unwrap();
        reception.advance(Event::Opened, false);
        assert_eq!(reception.advance(event, false), Step::Abort { cause });
        assert_eq!(cause.status(), status);
    }
    let (mut reception, _) = Reception::begin(vec![meta("a.jpg", 10)], false).unwrap();
    reception.advance(Event::Opened, false);
    reception.advance(Event::Stored(10), false);
    assert_eq!(
        reception.advance(Event::ConfirmFailed, false),
        Step::Abort { cause: AbortCause::ConfirmFailed }
    );
    assert_eq!(AbortCause::FileFailed.notices(), vec![Notice::Error, Notice::Partial]);
    assert_eq!(AbortCause::PeerClosed.notices(), vec![Notice::Partial]);
}

#[test]
fn reads_are_capped_at_the_chunk_size() {
    let size = CHUNK_SIZE as u64 + 5;
    let (mut reception, _) = Reception::begin(vec![meta("a.raw", size)], false).unwrap();
    assert_eq!(
        reception.advance(Event::Opened, false),
        Step::Read { index: 0, max_bytes: CHUNK_SIZE }
    );
    assert_eq!(
        reception.advance(Event::Stored(CHUNK_SIZE), false),
        Step::Read { index: 0, max_bytes: 5 }
    );
    assert_eq!(reception.advance(Event::Stored(5), false), Step::Confirm { index: 0 });
}

#[test]
fn empty_file_is_confirmed_without_a_read() {
    let (mut reception, _) = Reception::begin(vec![meta("empty", 0)], false).unwrap();
    assert_eq!(reception.advance(Event::Opened, false), Step::Confirm { index: 0 });
    assert_eq!(reception.advance(Event::Confirmed, false), Step::Finish);
}

#[test]
fn no_chosen_file_finishes_at_once() {
    let h = header(vec![meta("a.jpg", 100)]);
    let plan = plan_reception(&h, &vec!["zzz".to_string()], "/data", &None, 1, false)
        .unwrap()
        .unwrap();
    assert_eq!(plan.first_step, Step::Finish);
    assert!(progress_of(&plan.reception, "id", "Ana").is_none());
}

#[test]
fn resume_with_full_decision_receives_every_file_again() {
    let h = header(vec![meta("a.jpg", 100), meta("b.jpg", 200), meta("c.jpg", 300)]);
    let resume = Some(ResumeFolder {
        name: ".tmp_ana_pop_9".to_string(),
        path: "/data/.tmp_ana_pop_9".to_string(),
    });
    let resumed = Some(FolderSnapshot {
        path: "/data/.tmp_ana_pop_9".to_string(),
        is_dir: true,
        files: vec![ExistingFile { name: "a.jpg".to_string(), size: 100 }],
    });
    let ack = answer_header(&resume, &resumed, &Vec::new(), true, &h.files);
    assert_eq!(ack.resume_folder, Some("/data/.tmp_ana_pop_9".to_string()));
    assert_eq!(ack.duplicates.len(), 1);
    let decision = vec!["a.jpg".to_string(), "b.jpg".to_string(), "c.jpg".to_string()];
    let plan = plan_reception(&h, &decision, "/data", &resume, 10, false).unwrap().unwrap();
    assert_eq!(plan.reception.files().len(), 3);
    assert_eq!(plan.reception.total_bytes(), 600);
}

#[test]
fn resume_folder_is_not_scanned_as_a_sibling() {
    let h = header(vec![meta("a.jpg", 100)]);
    let resume = Some(ResumeFolder {
        name: ".tmp_ana_pop_9".to_string(),
        path: "/data/.tmp_ana_pop_9".to_string(),
    });
    let snapshot = FolderSnapshot {
        path: "/data/.tmp_ana_pop_9".to_string(),
        is_dir: true,
        files: vec![ExistingFile { name: "a.jpg".to_string(), size: 100 }],
    };
    let other = FolderSnapshot {
        path: "/data/02".to_string(),
        is_dir: true,
        files: vec![ExistingFile { name: "a.jpg".to_string(), size: 1 }],
    };
    let ack = answer_header(
        &resume,
        &Some(snapshot.clone()),
        &vec![snapshot, other],
        true,
        &h.files,
    );
    assert_eq!(ack.duplicates.len(), 1);
    assert_eq!(ack.duplicates[0].existing_path, "/data/.tmp_ana_pop_9");
}

#[test]
fn relayed_folder_keeps_its_name_or_gets_a_suffix() {
    let existing = vec!["Nunta".to_string(), "Nunta_2".to_string(), ".tmp_x_1".to_string()];
    assert_eq!(relay_folder_name("Nunta", &existing, ".tmp_x_1"), Some("Nunta_3".to_string()));
    assert_eq!(relay_folder_name("Botez", &existing, ".tmp_x_1"), Some("Botez".to_string()));
    assert_eq!(relay_folder_name(".tmp_x_1", &existing, ".tmp_x_1"), Some(".tmp_x_1".to_string()));
}

#[test]
fn relayed_folder_leaves_the_numbering_alone() {
    let mut cfg = config("editor", false);
    let mut h = header(vec![meta("a.jpg", 1)]);
    h.is_folder_transfer = true;
    h.folder_name = Some("Nunta".to_string());
    h.sender_role = Some("tagger".to_string());
    let name = final_folder_name(&mut cfg, &h, "d", "t", &vec!["Nunta".to_string()], ".tmp_a_1");
    assert_eq!(name, Some("Nunta_2".to_string()));
    assert_eq!(cfg.folder_counter, 5);
    assert_eq!(final_folder_path(&cfg, "Tagger", "Nunta_2"), "/data/Tagger/Nunta_2");
}

#[test]
fn photographer_transfer_takes_the_next_free_number() {
    let mut cfg = config("editor", false);
    let h = header(vec![meta("a.jpg", 1)]);
    let existing = vec!["05 - Ana Pop".to_string()];
    let name = final_folder_name(&mut cfg, &h, "d", "t", &existing, ".tmp_a_1");
    assert_eq!(name, Some("06 - Ana Pop".to_string()));
    assert_eq!(cfg.folder_counter, 7);
}

#[test]
fn counted_totals_win_over_received() {
    let (reception, _) = Reception::begin(vec![meta("a.jpg", 10)], false).unwrap();
    let counted = Some(FolderTotals { file_count: 9, total_size: 99 });
    assert_eq!(counted_or_received(counted, &reception), FolderTotals { file_count: 9, total_size: 99 });
    assert_eq!(
        counted_or_received(None, &reception),
        FolderTotals { file_count: 0, total_size: 10 }
    );
}

#[test]
fn registration_names_type_instance_and_host() {
    let cfg = config("tagger", true);
    let r = registration_for(&cfg, 45678, "abc", "mac", "10.0.0.2");
    assert_eq!(r.service_type, "_phototransfer._tcp.local.");
    assert_eq!(r.instance_name, "porn-receiver-abc");
    assert_eq!(r.host_name, "mac.local.");
    assert_eq!(r.ip, "10.0.0.2");
    assert_eq!(r.port, 45678);
    assert_eq!(r.role, "tagger");
    assert_eq!(r.name, "Desk");
}

#[test]
fn registration_on_this_machine_ends_in_local() {
    let cfg = config("editor", false);
    let r = service_registration(&cfg, 5000, "tag", "0.0.0.0");
    assert!(r.host_name.ends_with(".local."));
    assert_eq!(r.instance_name, "porn-receiver-tag");
    assert_eq!(r.port, 5000);
    assert_eq!(r.role, "editor");
}

#[test]
fn files_are_written_under_their_key() {
    let nested = FileMetadata {
        name: "a.jpg".to_string(),
        relative_path: "web/a.jpg".to_string(),
        size: 1,
    };
    assert_eq!(target_path("/data/.tmp_a_1", &nested), "/data/.tmp_a_1/web/a.jpg");
    let legacy = FileMetadata { name: "a.jpg".to_string(), relative_path: String::new(), size: 1 };
    assert_eq!(target_path("/data/.tmp_a_1", &legacy), "/data/.tmp_a_1/a.jpg");
}

#[test]
fn listening_loop_decisions() {
    assert_eq!(listen_step(false, AcceptOutcome::Connected), ListenStep::Stop);
    assert_eq!(listen_step(false, AcceptOutcome::NoneWaiting), ListenStep::Stop);
    assert_eq!(listen_step(true, AcceptOutcome::Connected), ListenStep::Serve);
    assert_eq!(listen_step(true, AcceptOutcome::NoneWaiting), ListenStep::Pause { millis: 100 });
    assert_eq!(listen_step(true, AcceptOutcome::Failed), ListenStep::Retry);
}

#[test]
fn cancelling_one_transfer_leaves_the_others() {
    let mut board = CancellationBoard::new();
    board.register("a_1");
    board.register("b_2");
    assert!(!board.is_cancelled("a_1"));
    assert!(board.cancel("a_1"));
    assert!(board.is_cancelled("a_1"));
    assert!(!board.is_cancelled("b_2"));
    assert!(!board.cancel("c_3"));
    assert!(!board.is_cancelled("c_3"));
    board.release("a_1");
    assert!(!board.is_cancelled("a_1"));
    board.register("a_1");
    assert!(!board.is_cancelled("a_1"));
    board.cancel_all();
    assert!(board.is_cancelled("a_1"));
    assert!(board.is_cancelled("b_2"));
    board.register("b_2");
    assert!(!board.is_cancelled("b_2"));
}

#[test]
fn only_temp_folders_may_be_deleted() {
    assert!(is_deletable_temp_folder(".tmp_ana_1", true));
    assert!(!is_deletable_temp_folder(".tmp_ana_1", false));
    assert!(!is_deletable_temp_folder("01 - Ana", true));
}

#[test]
fn connection_goes_through_its_phases() {
    let (phase, first) = session_start();
    assert_eq!(phase, SessionPhase::AwaitHeaderLength);
    assert_eq!(first, Directive::ReadLength);
    let (phase, d) = session_step(phase, SessionEvent::LengthRead(120));
    assert_eq!((phase, d), (SessionPhase::AwaitHeader { length: 120 }, Directive::ReadPayload { length: 120 }));
    let (phase, d) = session_step(phase, SessionEvent::HeaderRead { well_formed: true });
    assert_eq!((phase, d), (SessionPhase::NegotiateTransfer, Directive::Negotiate));
    let (phase, d) = session_step(phase, SessionEvent::AckSent);
    assert_eq!((phase, d), (SessionPhase::AwaitDecisionLength, Directive::ReadLength));
    let (phase, d) = session_step(phase, SessionEvent::LengthRead(17));
    assert_eq!((phase, d), (SessionPhase::AwaitDecision { length: 17 }, Directive::ReadPayload { length: 17 }));
    let (phase, d) = session_step(phase, SessionEvent::DecisionRead { well_formed: true, names: 2 });
    assert_eq!((phase, d), (SessionPhase::Receiving, Directive::BeginTransfer));
    let (phase, d) = session_step(phase, SessionEvent::TransferOver);
    assert_eq!((phase, d), (SessionPhase::Closed, Directive::Close { end: SessionEnd::TransferEnded }));
    let (phase, d) = session_step(phase, SessionEvent::LengthRead(1));
    assert_eq!((phase, d), (SessionPhase::Closed, Directive::Close { end: SessionEnd::ProtocolViolated }));
}

#[test]
fn zero_length_header_is_answered_and_closed() {
    let (phase, d) = session_step(SessionPhase::AwaitHeaderLength, SessionEvent::LengthRead(0));
    assert_eq!((phase, d), (SessionPhase::InfoOnly, Directive::AnswerProbe));
    let (phase, d) = session_step(phase, SessionEvent::ReplySent);
    assert_eq!((phase, d), (SessionPhase::Closed, Directive::Close { end: SessionEnd::ProbeAnswered }));
}

#[test]
fn empty_decision_closes_without_a_transfer() {
    let waiting = SessionPhase::AwaitDecision { length: 2 };
    let (phase, d) = session_step(waiting, SessionEvent::DecisionRead { well_formed: true, names: 0 });
    assert_eq!((phase, d), (SessionPhase::Closed, Directive::Close { end: SessionEnd::DuplicatesChecked }));
    let (phase, d) = session_step(waiting, SessionEvent::DecisionRead { well_formed: false, names: 3 });
    assert_eq!((phase, d), (SessionPhase::Closed, Directive::Close { end: SessionEnd::ProtocolViolated }));
}

#[test]
fn failures_and_events_out_of_turn_close_the_connection() {
    let lost = Directive::Close { end: SessionEnd::ConnectionLost };
    let violated = Directive::Close { end: SessionEnd::ProtocolViolated };
    for phase in [
        SessionPhase::AwaitHeaderLength,
        SessionPhase::AwaitHeader { length: 1 },
        SessionPhase::InfoOnly,
        SessionPhase::NegotiateTransfer,
        SessionPhase::AwaitDecisionLength,
        SessionPhase::AwaitDecision { length: 1 },
        SessionPhase::Receiving,
    ] {
        assert_eq!(session_step(phase, SessionEvent::Failed), (SessionPhase::Closed, lost));
    }
    assert_eq!(session_step(SessionPhase::AwaitHeaderLength, SessionEvent::AckSent), (SessionPhase::Closed, violated));
    assert_eq!(
        session_step(SessionPhase::AwaitHeader { length: 5 }, SessionEvent::HeaderRead { well_formed: false }),
        (SessionPhase::Closed, violated)
    );
    assert_eq!(
        session_step(SessionPhase::NegotiateTransfer, SessionEvent::DecisionRead { well_formed: true, names: 1 }),
        (SessionPhase::Closed, violated)
    );
    assert_eq!(session_step(SessionPhase::Receiving, SessionEvent::LengthRead(4)), (SessionPhase::Closed, violated));
    assert_eq!(session_step(SessionPhase::Closed, SessionEvent::Failed), (SessionPhase::Closed, violated));
}
