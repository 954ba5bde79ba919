use ai_cache_cleaner::manifest::{manifest_size, manifest_text_size, JsonValue};
use ai_cache_cleaner::scanner::{
    discover_sub_items, hf_model_name, measure_for, scan_strategy, total_size, wants_entry,
    DirEntryInfo, ScanStrategy, SizeMeasure,
};

fn entry(name: &str, is_file: bool, size: u64) -> DirEntryInfo {
    DirEntryInfo {
        name: name.to_string(),
        path: format!("/base/{}", name).into_bytes(),
        is_file,
        size,
    }
}

#[test]
fn hf_model_names() {
    assert_eq!(hf_model_name("models--meta-llama--Llama-2-7b").as_deref(), Some("meta-llama/Llama-2-7b"));
    assert_eq!(hf_model_name("models--gpt2").as_deref(), Some("gpt2"));
    assert_eq!(hf_model_name("models--models--a--b").as_deref(), Some("a/b"));
    assert_eq!(hf_model_name("models--a---b").as_deref(), Some("a/-b"));
    assert_eq!(hf_model_name("models--").as_deref(), Some(""));
    assert_eq!(hf_model_name("datasets--x--y"), None);
    assert_eq!(hf_model_name("version.txt"), None);
    for name in ["models--a--b--c", "models--x----y", "models--é--ü"] {
        let expected = name.trim_start_matches("models--").replace("--", "/");
        assert_eq!(hf_model_name(name), Some(expected));
    }
}

#[test]
fn strategies_by_key() {
    assert!(scan_strategy("hf") == ScanStrategy::ModelDirectories);
    assert!(scan_strategy("ollama") == ScanStrategy::ManifestFiles);
    assert!(scan_strategy("torch") == ScanStrategy::TopLevelFiles);
    assert!(scan_strategy("pip") == ScanStrategy::AllChildren);
    assert!(scan_strategy("cursor") == ScanStrategy::AllChildren);
    assert!(scan_strategy("other") == ScanStrategy::Nothing);
    assert!(measure_for(ScanStrategy::ManifestFiles) == SizeMeasure::ManifestSize);
    assert!(measure_for(ScanStrategy::TopLevelFiles) == SizeMeasure::FileLength);
    assert!(measure_for(ScanStrategy::ModelDirectories) == SizeMeasure::FolderSize);
    assert!(wants_entry(ScanStrategy::ModelDirectories, "models--x", false));
    assert!(!wants_entry(ScanStrategy::ModelDirectories, "spaces--x", false));
    assert!(!wants_entry(ScanStrategy::TopLevelFiles, "dir", false));
    assert!(!wants_entry(ScanStrategy::Nothing, "f", true));
}

#[test]
fn discover_hf_items() {
    let entries = vec![
        entry("models--org--model", false, 100),
        entry("datasets--org--set", false, 50),
        entry("models--gpt2", false, 7),
    ];
    let items = discover_sub_items("hf", "Hugging Face Cache", true, &entries);
    assert_eq!(items.len(), 2);
    assert_eq!(items[0].name, "org/model");
    assert_eq!(items[0].key, "hf");
    assert_eq!(items[0].category, "Hugging Face Cache");
    assert_eq!(items[0].path, b"/base/models--org--model".to_vec());
    assert_eq!(items[0].size, 100);
    assert_eq!(items[1].name, "gpt2");
    assert_eq!(items[1].size, 7);
}

#[test]
fn discover_torch_keeps_files_only() {
    let entries = vec![entry("a.pt", true, 10), entry("sub", false, 99), entry("b.pt", true, 20)];
    let items = discover_sub_items("torch", "PyTorch Cache", true, &entries);
    let names: Vec<&str> = items.iter().map(|i| i.name.as_str()).collect();
    assert_eq!(names, vec!["a.pt", "b.pt"]);
}

#[test]
fn discover_pip_keeps_everything() {
    let entries = vec![entry("http", false, 10), entry("selfcheck.json", true, 1)];
    let items = discover_sub_items("pip", "Pip Package Cache", true, &entries);
    assert_eq!(items.len(), 2);
    assert_eq!(items[1].name, "selfcheck.json");
}

#[test]
fn discover_missing_or_unknown() {
    let entries = vec![entry("x", true, 1)];
    assert!(discover_sub_items("pip", "Pip", false, &entries).is_empty());
    assert!(discover_sub_items("nope", "Nope", true, &entries).is_empty());
}

#[test]
fn discover_keeps_raw_paths() {
    let raw: Vec<u8> = vec![b'/', b'b', 0xff, 0xfe, b'x'];
    let entries = vec![DirEntryInfo {
        name: "\u{fffd}x".to_string(),
        path: raw.clone(),
        is_file: true,
        size: 3,
    }];
    let items = discover_sub_items("torch", "PyTorch Cache", true, &entries);
    assert_eq!(items[0].path, raw);
}

#[test]
fn totals() {
    assert_eq!(total_size(&vec![]), Some(0));
    assert_eq!(total_size(&vec![1, 2, 3]), Some(6));
    assert_eq!(total_size(&vec![u64::MAX, 0]), Some(u64::MAX));
    assert_eq!(total_size(&vec![u64::MAX, 1]), None);
}

#[test]
fn manifest_sizes() {
    let text = r#"{"schemaVersion":2,"config":{"digest":"sha256:a","size":485},"layers":[{"size":1000},{"size":24},{"mediaType":"x"}]}"#;
    assert_eq!(manifest_text_size(text), Some(1509));
    assert_eq!(manifest_text_size(r#"{"layers":[{"size":5}]}"#), Some(5));
    assert_eq!(manifest_text_size(r#"{"config":{"size":-3},"layers":{"size":5}}"#), Some(0));
    assert_eq!(manifest_text_size(r#"{"config":{"size":2.5}}"#), Some(0));
    assert_eq!(manifest_text_size("not json"), Some(0));
    assert_eq!(manifest_text_size("[1, 2]"), Some(0));
    assert_eq!(
        manifest_text_size(r#"{"config":{"size":18446744073709551615},"layers":[{"size":1}]}"#),
        None
    );
}

fn sized(size: Option<u64>) -> JsonValue {
    JsonValue::Object(vec![
        ("digest".to_string(), JsonValue::Text("sha256:x".to_string())),
        ("size".to_string(), JsonValue::Number(size)),
    ])
}

#[test]
fn manifest_size_of_handwritten_document() {
    let doc = JsonValue::Object(vec![
        ("config".to_string(), sized(Some(100))),
        (
            "layers".to_string(),
            JsonValue::Array(vec![sized(Some(20)), sized(None), JsonValue::Null, sized(Some(3))]),
        ),
        ("schemaVersion".to_string(), JsonValue::Number(Some(2))),
    ]);
    assert_eq!(manifest_size(&Some(doc)), Some(123));
    assert_eq!(manifest_size(&None), Some(0));
    let not_object = JsonValue::Array(vec![sized(Some(5))]);
    assert_eq!(manifest_size(&Some(not_object)), Some(0));
    let layers_not_array = JsonValue::Object(vec![
        ("layers".to_string(), sized(Some(9))),
        ("config".to_string(), JsonValue::Bool(true)),
    ]);
    assert_eq!(manifest_size(&Some(layers_not_array)), Some(0));
    let too_big = JsonValue::Object(vec![
        ("config".to_string(), sized(Some(u64::MAX))),
        ("layers".to_string(), JsonValue::Array(vec![sized(Some(1))])),
    ]);
    assert_eq!(manifest_size(&Some(too_big)), None);
}
