use ai_cache_cleaner::cleaner::{sort_by_size_desc, summarize, CleanSession, RemovalStep};
use ai_cache_cleaner::cli::{
    clean_all_heading, clean_items_heading, freed_label, needs_confirmation, plan, prompt_prefix, scan_label,
    worth_cleaning, Action, Cli, Commands,
};
use ai_cache_cleaner::locations::{
    get_scan_locations, join_path, resolve_home, scan_locations,
};
use ai_cache_cleaner::scanner::SubItem;

fn item(key: &str, name: &str, size: u64) -> SubItem {
    SubItem {
        key: key.to_string(),
        category: "Cat".to_string(),
        name: name.to_string(),
        path: format!("/p/{}", name).into_bytes(),
        size,
    }
}

#[test]
fn sort_largest_first_and_stable() {
    let items = vec![
        item("pip", "a", 5),
        item("pip", "b", 50),
        item("pip", "c", 5),
        item("pip", "d", 7),
        item("pip", "e", 50),
        item("pip", "f", 0),
    ];
    let sorted = sort_by_size_desc(items);
    let names: Vec<&str> = sorted.iter().map(|i| i.name.as_str()).collect();
    assert_eq!(names, vec!["b", "e", "d", "a", "c", "f"]);
    assert!(sort_by_size_desc(vec![]).is_empty());
}

#[test]
fn session_accounting() {
    let mut s = CleanSession::new(false);
    assert!(s.step() == RemovalStep::Delete);
    assert!(s.record(10, "pip"));
    assert!(!s.has_ollama);
    assert!(s.record(5, "ollama"));
    assert_eq!(s.freed_bytes, 15);
    assert!(s.has_ollama);
    assert!(!s.record(u64::MAX, "pip"));
    assert_eq!(s.freed_bytes, 15);
    let d = CleanSession::new(true);
    assert!(d.step() == RemovalStep::Simulate);
}

#[test]
fn summaries() {
    let removed = vec![item("hf", "a", 3), item("ollama", "b", 4)];
    let s = summarize(true, &removed).unwrap();
    assert_eq!(s.freed_bytes, 7);
    assert!(s.has_ollama);
    assert!(s.dry_run);
    let s = summarize(false, &vec![item("hf", "a", 3)]).unwrap();
    assert!(!s.has_ollama);
    assert!(summarize(false, &vec![item("hf", "a", u64::MAX), item("hf", "b", 1)]).is_none());
}

fn bytes(s: &str) -> Vec<u8> {
    s.as_bytes().to_vec()
}

#[test]
fn paths_join_like_pathbuf() {
    assert_eq!(join_path(b"/home/u", b".cache/pip"), bytes("/home/u/.cache/pip"));
    assert_eq!(join_path(b"/home/u/", b".cache"), bytes("/home/u/.cache"));
    assert_eq!(join_path(b"", b".cache"), bytes(".cache"));
    assert_eq!(join_path(b"/home/u", b"/etc"), bytes("/etc"));
    for (b, r) in [("/a", "b/c"), ("/a/", "b"), ("", "x"), ("a", "/y"), ("rel", "z")] {
        let expected = std::path::Path::new(b).join(r).into_os_string().into_encoded_bytes();
        assert_eq!(join_path(b.as_bytes(), r.as_bytes()), expected);
    }
    let raw_home: Vec<u8> = vec![b'/', b'h', 0xff, 0xc3];
    let mut expected = raw_home.clone();
    expected.extend_from_slice(b"/.cache/pip");
    assert_eq!(join_path(&raw_home, b".cache/pip"), expected);
}

#[test]
fn home_resolution() {
    assert_eq!(resolve_home(Some(bytes("/h")), Some(bytes("/e"))), bytes("/h"));
    assert_eq!(resolve_home(None, Some(bytes("/e"))), bytes("/e"));
    assert_eq!(resolve_home(None, None), Vec::<u8>::new());
}

#[test]
fn location_table() {
    let locs = scan_locations(b"/home/u", false);
    let keys: Vec<&str> = locs.iter().map(|l| l.key).collect();
    assert_eq!(keys, vec!["hf", "ollama", "pip", "torch", "cursor"]);
    assert_eq!(locs[0].name, "Hugging Face Cache");
    assert_eq!(locs[0].path, bytes("/home/u/.cache/huggingface/hub"));
    assert_eq!(
        locs[1].path,
        bytes("/home/u/.ollama/models/manifests/registry.ollama.ai/library")
    );
    assert_eq!(locs[2].path, bytes("/home/u/.cache/pip"));
    assert_eq!(locs[3].path, bytes("/home/u/.cache/torch/hub/checkpoints"));
    assert_eq!(locs[4].path, bytes("/home/u/.config/Cursor/logs"));
    let mac = scan_locations(b"/Users/u", true);
    assert_eq!(mac[2].path, bytes("/Users/u/Library/Caches/pip"));
    assert_eq!(mac[4].path, bytes("/Users/u/Library/Application Support/Cursor/logs"));
    let (found, system_home) = get_scan_locations(Some(bytes("/e")), false);
    let home = match system_home {
        Some(h) => h,
        None => bytes("/e"),
    };
    assert_eq!(found.len(), 5);
    assert_eq!(found[2].path, join_path(&home, b".cache/pip"));
}

#[test]
fn command_plans() {
    let locs = scan_locations(b"/h", false);
    assert!(matches!(plan(&Cli { command: None }, &locs), Action::Scan { usage_hint: true }));
    assert!(matches!(
        plan(&Cli { command: Some(Commands::Scan) }, &locs),
        Action::Scan { usage_hint: false }
    ));
    let clean = |t: Option<&str>, d: bool| Cli {
        command: Some(Commands::Clean { target: t.map(|s| s.to_string()), dry_run: d }),
    };
    assert!(matches!(plan(&clean(None, true), &locs), Action::CleanDiscovered { dry_run: true }));
    assert!(matches!(plan(&clean(Some("all"), false), &locs), Action::CleanAll { dry_run: false }));
    assert!(matches!(
        plan(&clean(Some("torch"), true), &locs),
        Action::CleanLocation { index: 3, dry_run: true }
    ));
    match plan(&clean(Some("/tmp/x"), false), &locs) {
        Action::CleanPath { path, dry_run } => {
            assert_eq!(path, "/tmp/x");
            assert!(!dry_run);
        }
        _ => panic!("expected a custom path"),
    }
}

#[test]
fn dry_run_wording() {
    assert_eq!(scan_label(true), "[DRY RUN] Scanning");
    assert_eq!(scan_label(false), "Scanning");
    assert_eq!(prompt_prefix(true), "[DRY RUN] ");
    assert_eq!(prompt_prefix(false), "");
    assert_eq!(clean_items_heading(true), "[DRY RUN] Would clean...");
    assert_eq!(clean_items_heading(false), "Cleaning...");
    assert_eq!(clean_all_heading(true), "[DRY RUN] Would clean");
    assert_eq!(clean_all_heading(false), "Cleaning");
    assert_eq!(freed_label(true), "Would free");
    assert_eq!(freed_label(false), "freed!");
    assert!(worth_cleaning(true, 1));
    assert!(!worth_cleaning(true, 0));
    assert!(!worth_cleaning(false, 5));
}

#[test]
fn sorting_twice_changes_nothing() {
    let items = vec![item("a", "x", 3), item("a", "y", 9), item("a", "z", 3), item("a", "w", 1)];
    let once = sort_by_size_desc(items);
    let names_once: Vec<String> = once.iter().map(|i| i.name.clone()).collect();
    let twice = sort_by_size_desc(once);
    let names_twice: Vec<String> = twice.iter().map(|i| i.name.clone()).collect();
    assert_eq!(names_once, vec!["y", "x", "z", "w"]);
    assert_eq!(names_once, names_twice);
}

#[test]
fn confirmation_gates_removal() {
    assert!(!needs_confirmation(&Action::Scan { usage_hint: true }));
    assert!(needs_confirmation(&Action::CleanAll { dry_run: false }));
    assert!(needs_confirmation(&Action::CleanDiscovered { dry_run: true }));
    assert!(needs_confirmation(&Action::CleanLocation { index: 0, dry_run: false }));
    assert!(needs_confirmation(&Action::CleanPath { path: "/x".to_string(), dry_run: false }));
    assert!(CleanSession::after_confirmation(false, false).is_none());
    let s = CleanSession::after_confirmation(false, true).unwrap();
    assert!(s.step() == RemovalStep::Delete);
    assert_eq!(s.freed_bytes, 0);
    let d = CleanSession::after_confirmation(true, true).unwrap();
    assert!(d.step() == RemovalStep::Simulate);
}
