use photo_transfer::config::{
    default_port, render_folder_name, CounterError, DayCounter, ReceiverConfig,
};

fn tagger() -> ReceiverConfig {
    ReceiverConfig {
        role: "tagger".to_string(),
        name: "Desk".to_string(),
        base_path: "/data".to_string(),
        folder_template: "{num:02d} - {name}".to_string(),
        folder_counter: 1,
        use_day_folders: true,
        current_day: "DAY 1".to_string(),
        reset_numbering_daily: true,
        day_counters: Vec::new(),
        port: 45678,
    }
}

#[test]
fn renders_every_token() {
    let name = render_folder_name(
        "{num}|{num:02d}|{num:03d}|{name}|{date}|{time}",
        "Ana",
        7,
        "2024-05-01",
        "09-30",
    );
    assert_eq!(name, "7|07|007|Ana|2024-05-01|09-30");
}

#[test]
fn padding_never_truncates() {
    assert_eq!(render_folder_name("{num:02d}", "x", 1234, "", ""), "1234");
    assert_eq!(render_folder_name("{num:03d}", "x", 0, "", ""), "000");
    assert_eq!(render_folder_name("{num}", "x", u32::MAX, "", ""), "4294967295");
    assert_eq!(render_folder_name("{num:03d}", "x", 10, "", ""), "010");
}

#[test]
fn tokens_are_replaced_everywhere_and_in_order() {
    assert_eq!(render_folder_name("{name}{name}", "ab", 1, "", ""), "abab");
    assert_eq!(render_folder_name("{name}", "{num}", 5, "", ""), "5");
    assert_eq!(render_folder_name("{{name}}", "x", 5, "", ""), "{x}");
    assert_eq!(render_folder_name("{nam", "x", 5, "", ""), "{nam");
    assert_eq!(render_folder_name("", "x", 5, "", ""), "");
    assert_eq!(render_folder_name("{num:04d}", "x", 5, "", ""), "{num:04d}");
}

#[test]
fn unique_name_skips_existing_and_keeps_counting() {
    let mut cfg = tagger();
    let existing = vec!["01 - Ana".to_string(), "02 - Ana".to_string()];
    let name = cfg.generate_unique_folder_name("Ana", "d", "t", &existing);
    assert_eq!(name, Some("03 - Ana".to_string()));
    assert_eq!(cfg.get_current_counter(), 4);
    assert_eq!(cfg.get_day_counter("DAY 1"), 4);
    assert_eq!(cfg.folder_counter, 1);
}

#[test]
fn unique_name_without_collision_uses_the_current_number() {
    let mut cfg = tagger();
    cfg.use_day_folders = false;
    cfg.folder_counter = 41;
    let name = cfg.generate_unique_folder_name("Ana", "d", "t", &Vec::new());
    assert_eq!(name, Some("41 - Ana".to_string()));
    assert_eq!(cfg.folder_counter, 42);
    assert!(cfg.day_counters.is_empty());
}

#[test]
fn unique_name_gives_up_when_numbers_run_out() {
    let mut cfg = tagger();
    cfg.use_day_folders = false;
    cfg.folder_template = "same".to_string();
    cfg.folder_counter = u32::MAX - 3;
    let name = cfg.generate_unique_folder_name("Ana", "d", "t", &vec!["same".to_string()]);
    assert_eq!(name, None);
    assert_eq!(cfg.folder_counter, u32::MAX);
}

#[test]
fn folder_name_uses_up_a_number_even_if_taken() {
    let mut cfg = tagger();
    assert_eq!(cfg.generate_folder_name("Ana", "d", "t"), "01 - Ana");
    assert_eq!(cfg.generate_folder_name("Ana", "d", "t"), "02 - Ana");
    assert_eq!(cfg.get_current_counter(), 3);
}

#[test]
fn counters_are_kept_per_day_for_taggers_only() {
    let mut cfg = tagger();
    cfg.day_counters.push(DayCounter { day: "DAY 1".to_string(), next: 8 });
    cfg.folder_counter = 20;
    assert_eq!(cfg.get_current_counter(), 8);
    cfg.increment_counter();
    assert_eq!(cfg.get_current_counter(), 9);
    assert_eq!(cfg.folder_counter, 20);
    cfg.current_day = "DAY 2".to_string();
    assert_eq!(cfg.get_current_counter(), 1);
    cfg.increment_counter();
    assert_eq!(cfg.get_day_counter("DAY 2"), 2);
    assert_eq!(cfg.get_day_counter("DAY 1"), 9);
    cfg.role = "editor".to_string();
    assert_eq!(cfg.get_current_counter(), 20);
    cfg.increment_counter();
    assert_eq!(cfg.folder_counter, 21);
    assert_eq!(cfg.get_day_counter("DAY 2"), 2);
}

#[test]
fn set_counter_rejects_zero() {
    let mut cfg = tagger();
    assert_eq!(cfg.set_day_counter("DAY 2", 0), Err(CounterError::BelowOne));
    assert_eq!(cfg.get_day_counter("DAY 2"), 1);
    assert_eq!(cfg.set_day_counter("DAY 2", 9), Ok(()));
    assert_eq!(cfg.get_day_counter("DAY 2"), 9);
    assert_eq!(cfg.set_day_counter("DAY 2", 1), Ok(()));
    assert_eq!(cfg.get_day_counter("DAY 2"), 1);
    assert_eq!(cfg.day_counters.len(), 1);
}

#[test]
fn resetting_a_day_forgets_every_entry_of_it() {
    let mut cfg = tagger();
    cfg.day_counters = vec![
        DayCounter { day: "DAY 1".to_string(), next: 8 },
        DayCounter { day: "DAY 2".to_string(), next: 3 },
        DayCounter { day: "DAY 1".to_string(), next: 5 },
    ];
    assert_eq!(cfg.get_day_counter("DAY 1"), 8);
    cfg.reset_day_counter("DAY 1");
    assert_eq!(cfg.get_day_counter("DAY 1"), 1);
    assert_eq!(cfg.get_day_counter("DAY 2"), 3);
    cfg.reset_all_counters();
    assert_eq!(cfg.get_day_counter("DAY 2"), 1);
    assert_eq!(cfg.folder_counter, 1);
}

#[test]
fn full_path_uses_day_for_tagger() {
    let cfg = tagger();
    assert_eq!(cfg.get_full_path("01 - Ana"), "/data/DAY 1/01 - Ana");
    let mut editor = tagger();
    editor.role = "editor".to_string();
    assert_eq!(editor.get_full_path("01 - Ana"), "/data/01 - Ana");
    let mut flat = tagger();
    flat.use_day_folders = false;
    assert_eq!(flat.get_full_path("01 - Ana"), "/data/01 - Ana");
}

#[test]
fn listen_port_falls_back_to_the_default() {
    let mut cfg = tagger();
    assert_eq!(cfg.listen_port(), 45678);
    cfg.port = 0;
    assert_eq!(cfg.listen_port(), default_port());
    cfg.port = 5000;
    assert_eq!(cfg.listen_port(), 5000);
    assert_eq!(default_port(), 45678);
}
