use photo_transfer::config::{
    stored_path_in, DayCounter, ReceiverConfig, StoredFile, DEFAULT_PORT,
};
use photo_transfer::duplicates::{
    check_duplicate, check_duplicates_in_folder, find_duplicates_in_day, merge_duplicates,
    ExistingFile, FolderSnapshot,
};
use photo_transfer::history::{
    add_send_record, add_sent_record, clear_history, history_to_save, record_completion,
    save_to_history, send_status_of, sync_history_from_disk, FolderState, SendRecord, SendStatus,
    SentRecord, TransferRecord, TransferStatus, HISTORY_CAP,
};
use photo_transfer::temp::{
    describe_temp_folder, find_temp_folder, folder_totals, generate_temp_folder_name,
    is_day_folder_name, is_temp_folder_name, photographer_of_temp_folder, temp_folder_name_at,
    transfer_id_at, DiskEntry, FolderEntry, FolderTotals,
};
use photo_transfer::wire::{DuplicateInfo, FileMetadata};

fn meta(name: &str, size: u64) -> FileMetadata {
    FileMetadata { name: name.to_string(), relative_path: name.to_string(), size }
}

fn folder(path: &str, files: &[(&str, u64)]) -> FolderSnapshot {
    FolderSnapshot {
        path: path.to_string(),
        is_dir: true,
        files: files
            .iter()
            .map(|(n, s)| ExistingFile { name: n.to_string(), size: *s })
            .collect(),
    }
}

fn record(folder: &str, status: TransferStatus, day: Option<&str>) -> TransferRecord {
    TransferRecord {
        transfer_id: format!("id-{}", folder),
        timestamp: 1,
        photographer: "Ana".to_string(),
        file_count: 1,
        total_size: 10,
        folder: folder.to_string(),
        day: day.map(|d| d.to_string()),
        status,
        source_role: None,
    }
}

#[test]
fn duplicate_is_found_by_name_and_compared_by_size() {
    let f = folder("/d/01", &[("a.jpg", 100), ("b.jpg", 1)]);
    let same = check_duplicate(&f, &meta("a.jpg", 100)).unwrap();
    assert_eq!(
        same,
        DuplicateInfo {
            file_name: "a.jpg".to_string(),
            existing_path: "/d/01".to_string(),
            existing_size: 100,
            new_size: 100,
            sizes_equal: true,
        }
    );
    let differs = check_duplicate(&f, &meta("b.jpg", 2)).unwrap();
    assert!(!differs.sizes_equal);
    assert_eq!(check_duplicate(&f, &meta("c.jpg", 2)), None);
}

#[test]
fn folder_duplicates_follow_the_order_of_the_offer() {
    let f = folder("/d/01", &[("b.jpg", 1), ("a.jpg", 1)]);
    let found =
        check_duplicates_in_folder(&f, &vec![meta("a.jpg", 1), meta("x.jpg", 1), meta("b.jpg", 1)]);
    let names: Vec<&str> = found.iter().map(|d| d.file_name.as_str()).collect();
    assert_eq!(names, vec!["a.jpg", "b.jpg"]);
}

#[test]
fn scope_scan_goes_folder_by_folder_and_skips_the_excluded_one() {
    let folders = vec![
        folder("/d/01", &[("a.jpg", 1)]),
        folder("/d/.tmp_ana_1", &[("a.jpg", 1)]),
        folder("/d/02", &[("a.jpg", 2), ("b.jpg", 2)]),
    ];
    let files = vec![meta("a.jpg", 1), meta("b.jpg", 2)];
    let found = find_duplicates_in_day(&folders, &files, &Some("/d/.tmp_ana_1".to_string()));
    let seen: Vec<(&str, &str)> =
        found.iter().map(|d| (d.existing_path.as_str(), d.file_name.as_str())).collect();
    assert_eq!(seen, vec![("/d/01", "a.jpg"), ("/d/02", "a.jpg"), ("/d/02", "b.jpg")]);
    let all = find_duplicates_in_day(&folders, &files, &None);
    assert_eq!(all.len(), 4);
}

#[test]
fn merge_names_each_file_once() {
    let first = check_duplicates_in_folder(&folder("/d/tmp", &[("a.jpg", 1)]), &vec![meta("a.jpg", 1)]);
    let more = find_duplicates_in_day(
        &vec![folder("/d/01", &[("a.jpg", 5), ("b.jpg", 5)]), folder("/d/02", &[("b.jpg", 6)])],
        &vec![meta("a.jpg", 1), meta("b.jpg", 5)],
        &None,
    );
    let all = merge_duplicates(first, &more);
    let seen: Vec<(&str, &str)> =
        all.iter().map(|d| (d.existing_path.as_str(), d.file_name.as_str())).collect();
    assert_eq!(seen, vec![("/d/tmp", "a.jpg"), ("/d/01", "b.jpg")]);
}

#[test]
fn temp_names_are_sanitized() {
    assert_eq!(temp_folder_name_at("Ana Maria POP", 17), ".tmp_ana_maria_pop_17");
    assert_eq!(transfer_id_at("Ana Maria POP", 0), "ana_maria_pop_0");
    let now = generate_temp_folder_name("Ion");
    assert!(now.starts_with(".tmp_ion_"));
    assert!(now[".tmp_ion_".len()..].chars().all(|c| c.is_ascii_digit()));
    assert!(!now[".tmp_ion_".len()..].is_empty());
}

#[test]
fn temp_folder_search_ignores_case_of_the_entry() {
    let entries = vec![
        FolderEntry { name: ".TMP_Ana_5".to_string(), is_dir: true, modified: None },
        FolderEntry { name: ".tmp_anabel_5".to_string(), is_dir: true, modified: Some(7) },
    ];
    assert_eq!(find_temp_folder(&entries, "ANA"), Some(0));
    assert_eq!(find_temp_folder(&entries, "anabel"), Some(1));
    assert_eq!(find_temp_folder(&entries, "an"), None);
    assert_eq!(find_temp_folder(&Vec::new(), "ana"), None);
}

#[test]
fn entry_with_a_time_beats_one_without() {
    let entries = vec![
        FolderEntry { name: ".tmp_ana_1".to_string(), is_dir: true, modified: None },
        FolderEntry { name: ".tmp_ana_2".to_string(), is_dir: true, modified: Some(0) },
    ];
    assert_eq!(find_temp_folder(&entries, "ana"), Some(1));
}

#[test]
fn sender_is_read_back_from_a_temp_name() {
    assert_eq!(photographer_of_temp_folder(".tmp_ana_maria_17"), "ana maria");
    assert_eq!(photographer_of_temp_folder(".tmp_ana_"), "ana");
    assert_eq!(photographer_of_temp_folder(".tmp_ana"), "Unknown");
    assert_eq!(photographer_of_temp_folder(".tmp_.tmp_x_1"), "x");
    assert_eq!(photographer_of_temp_folder(".tmp_"), "Unknown");
    assert!(is_temp_folder_name(".tmp_a_1"));
    assert!(!is_temp_folder_name("tmp_a_1"));
    assert!(is_day_folder_name("DAY 12"));
    assert!(!is_day_folder_name("DAY12"));
}

#[test]
fn folder_totals_count_files_only() {
    let entries = vec![
        DiskEntry { is_file: true, size: 10 },
        DiskEntry { is_file: false, size: 4096 },
        DiskEntry { is_file: true, size: 5 },
    ];
    assert_eq!(folder_totals(&entries), Some(FolderTotals { file_count: 2, total_size: 15 }));
    assert_eq!(folder_totals(&Vec::new()), Some(FolderTotals { file_count: 0, total_size: 0 }));
    let huge = vec![DiskEntry { is_file: true, size: u64::MAX }, DiskEntry { is_file: true, size: 1 }];
    assert_eq!(folder_totals(&huge), None);
}

#[test]
fn temp_folder_is_described() {
    let info = describe_temp_folder(
        "/d/DAY 1/.tmp_ana_pop_1",
        ".tmp_ana_pop_1",
        FolderTotals { file_count: 3, total_size: 30 },
        &Some("DAY 1".to_string()),
    );
    assert_eq!(info.path, "/d/DAY 1/.tmp_ana_pop_1");
    assert_eq!(info.photographer, "ana pop");
    assert_eq!(info.file_count, 3);
    assert_eq!(info.total_size, 30);
    assert_eq!(info.day, Some("DAY 1".to_string()));
}

#[test]
fn saving_updates_the_record_of_the_folder_in_place() {
    let mut history = vec![record("/d/a", TransferStatus::Partial, None), record("/d/b", TransferStatus::Complete, None)];
    let mut newer = record("/d/a", TransferStatus::Error, Some("DAY 9"));
    newer.timestamp = 99;
    newer.file_count = 7;
    newer.total_size = 70;
    newer.transfer_id = "other".to_string();
    save_to_history(&mut history, newer);
    assert_eq!(history.len(), 2);
    assert_eq!(history[0].status, TransferStatus::Error);
    assert_eq!(history[0].timestamp, 99);
    assert_eq!(history[0].file_count, 7);
    assert_eq!(history[0].total_size, 70);
    assert_eq!(history[0].transfer_id, "id-/d/a");
    assert_eq!(history[0].day, None);
    save_to_history(&mut history, record("/d/c", TransferStatus::Partial, None));
    assert_eq!(history.len(), 3);
    assert_eq!(history[2].folder, "/d/c");
}

#[test]
fn completion_replaces_the_temp_record() {
    let mut history = vec![
        record("/d/.tmp_ana_1", TransferStatus::Partial, None),
        record("/d/b", TransferStatus::Complete, None),
        record("/d/.tmp_ana_1", TransferStatus::Partial, None),
    ];
    record_completion(&mut history, "/d/.tmp_ana_1", record("/d/01 - Ana", TransferStatus::Complete, None));
    let folders: Vec<&str> = history.iter().map(|r| r.folder.as_str()).collect();
    assert_eq!(folders, vec!["/d/b", "/d/01 - Ana"]);
}

#[test]
fn stored_history_is_newest_first_and_capped() {
    let history: Vec<u32> = (0..600).collect();
    let stored = history_to_save(history);
    assert_eq!(stored.len(), HISTORY_CAP);
    assert_eq!(stored[0], 599);
    assert_eq!(stored[499], 100);
    assert_eq!(history_to_save(vec![1, 2, 3]), vec![3, 2, 1]);
    assert_eq!(history_to_save(Vec::<u8>::new()), Vec::<u8>::new());
}

#[test]
fn added_records_are_the_newest() {
    let sent = SentRecord {
        timestamp: 2,
        target_name: "Ed".to_string(),
        file_count: 1,
        total_size: 1,
        folder_name: None,
    };
    let mut older = sent.clone();
    older.timestamp = 1;
    let stored = add_sent_record(vec![older.clone()], sent.clone());
    assert_eq!(stored, vec![sent, older]);
    let send = SendRecord {
        timestamp: 2,
        target_name: "Ed".to_string(),
        target_role: "editor".to_string(),
        file_count: 1,
        total_size: 1,
        status: SendStatus::Cancelled,
        error_message: None,
    };
    assert_eq!(add_send_record(Vec::new(), send.clone()), vec![send]);
}

#[test]
fn status_words() {
    assert_eq!(send_status_of("success"), SendStatus::Success);
    assert_eq!(send_status_of("error"), SendStatus::Error);
    assert_eq!(send_status_of("cancelled"), SendStatus::Cancelled);
    assert_eq!(send_status_of("whatever"), SendStatus::Success);
    assert_eq!(SendStatus::default(), SendStatus::Success);
    assert_eq!(TransferStatus::default(), TransferStatus::Complete);
}

fn config() -> ReceiverConfig {
    let mut cfg = ReceiverConfig::with_home(&Some("/home/ana".to_string()));
    cfg.day_counters = vec![
        DayCounter { day: "DAY 1".to_string(), next: 4 },
        DayCounter { day: "DAY 2".to_string(), next: 9 },
    ];
    cfg.folder_counter = 3;
    cfg
}

#[test]
fn clearing_a_day_resets_its_counter_only() {
    let mut cfg = config();
    let mut history = vec![
        record("/d/a", TransferStatus::Complete, Some("DAY 1")),
        record("/d/b", TransferStatus::Complete, Some("DAY 2")),
        record("/d/c", TransferStatus::Complete, None),
    ];
    clear_history(&mut history, &mut cfg, &Some("DAY 1".to_string()));
    let folders: Vec<&str> = history.iter().map(|r| r.folder.as_str()).collect();
    assert_eq!(folders, vec!["/d/b", "/d/c"]);
    assert_eq!(cfg.get_day_counter("DAY 1"), 1);
    assert_eq!(cfg.get_day_counter("DAY 2"), 9);
    assert_eq!(cfg.folder_counter, 3);
    assert_eq!(cfg.day_counters, vec![DayCounter { day: "DAY 2".to_string(), next: 9 }]);
}

#[test]
fn clearing_everything_resets_every_counter() {
    let mut cfg = config();
    let mut history = vec![record("/d/a", TransferStatus::Complete, Some("DAY 1"))];
    clear_history(&mut history, &mut cfg, &None);
    assert!(history.is_empty());
    assert_eq!(cfg.get_day_counter("DAY 2"), 1);
    assert_eq!(cfg.folder_counter, 1);
    assert!(cfg.day_counters.is_empty());
}

#[test]
fn sync_follows_the_disk() {
    let mut history = vec![
        record("/d/gone", TransferStatus::Complete, None),
        record("/d/partial", TransferStatus::Partial, None),
        record("/d/locked", TransferStatus::Error, None),
        record("/d/empty", TransferStatus::Partial, None),
        record("/d/unknown", TransferStatus::Partial, None),
    ];
    let states = vec![
        FolderState::Missing,
        FolderState::Holds(FolderTotals { file_count: 4, total_size: 40 }),
        FolderState::Unreadable,
        FolderState::Holds(FolderTotals { file_count: 0, total_size: 0 }),
    ];
    sync_history_from_disk(&mut history, &states);
    let seen: Vec<(&str, usize, u64, TransferStatus)> =
        history.iter().map(|r| (r.folder.as_str(), r.file_count, r.total_size, r.status)).collect();
    assert_eq!(
        seen,
        vec![
            ("/d/partial", 4, 40, TransferStatus::Complete),
            ("/d/locked", 1, 10, TransferStatus::Error),
            ("/d/unknown", 1, 10, TransferStatus::Partial),
        ]
    );
}

#[test]
fn default_configuration() {
    let cfg = ReceiverConfig::with_home(&Some("/home/ana".to_string()));
    assert_eq!(cfg.role, "tagger");
    assert_eq!(cfg.name, "");
    assert_eq!(cfg.base_path, "/home/ana/PornTransfer");
    assert_eq!(cfg.folder_template, "{num:02d} - {name}");
    assert_eq!(cfg.folder_counter, 1);
    assert!(cfg.use_day_folders);
    assert_eq!(cfg.current_day, "DAY 1");
    assert!(cfg.reset_numbering_daily);
    assert!(cfg.day_counters.is_empty());
    assert_eq!(cfg.port, DEFAULT_PORT);
    assert_eq!(ReceiverConfig::with_home(&None).base_path, "~/PornTransfer");
    let here = ReceiverConfig::default();
    assert_eq!(here.role, "tagger");
    assert!(here.base_path.ends_with("PornTransfer"));
}

#[test]
fn stored_files_lie_in_the_home_directory() {
    let home = Some("/home/ana".to_string());
    assert_eq!(stored_path_in(&home, StoredFile::ReceiverConfig), "/home/ana/.porn_transfer_receiver.json");
    assert_eq!(stored_path_in(&home, StoredFile::History), "/home/ana/.porn_transfer_history.json");
    assert_eq!(stored_path_in(&home, StoredFile::SentHistory), "/home/ana/.porn_transfer_sent_history.json");
    assert_eq!(stored_path_in(&home, StoredFile::SendHistory), "/home/ana/.photo_transfer_send_history.json");
    assert_eq!(stored_path_in(&home, StoredFile::SenderConfig), "/home/ana/.photo_transfer_sender_tauri.json");
    assert_eq!(stored_path_in(&None, StoredFile::History), "./.porn_transfer_history.json");
    assert!(ReceiverConfig::config_path().ends_with(".porn_transfer_receiver.json"));
}

#[test]
fn edited_settings_keep_the_counters() {
    let mut cfg = config();
    let mut edited = ReceiverConfig::with_home(&None);
    edited.role = "editor".to_string();
    edited.port = 5000;
    edited.folder_counter = 100;
    cfg.adopt_settings(edited);
    assert_eq!(cfg.role, "editor");
    assert_eq!(cfg.port, 5000);
    assert_eq!(cfg.base_path, "~/PornTransfer");
    assert_eq!(cfg.folder_counter, 3);
    assert_eq!(cfg.get_day_counter("DAY 2"), 9);
    assert_eq!(cfg.duplicate(), cfg);
}
