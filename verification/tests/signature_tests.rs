use threat_engine::memory::{
    analyze_heap_allocations, detect_anti_debugging, detect_dll_injection,
};
use threat_engine::scanner::scan_content;
use threat_engine::signatures::SignatureStore;

#[test]
fn new_store_is_empty_and_builtins_add_two() {
    let mut store = SignatureStore::new();
    assert_eq!(store.len(), 0);
    store.load_builtin_signatures();
    assert_eq!(store.len(), 2);
    // Loading again overwrites, it does not duplicate.
    store.load_builtin_signatures();
    assert_eq!(store.len(), 2);
}

#[test]
fn update_signatures_parses_json_and_extends_store() {
    let mut store = SignatureStore::new();
    store.load_builtin_signatures();
    let ok = store.update_signatures(r#"{"evil_marker": [1, 2, 3, 4]}"#);
    assert!(ok);
    assert_eq!(store.len(), 3);
    let content = [9u8, 1, 2, 3, 4, 9];
    let r = scan_content("f.bin".to_string(), &content, &store);
    assert!(r.is_malicious);
    assert_eq!(r.confidence, 9500);
    assert_eq!(r.threat_name.as_deref(), Some("evil_marker"));
}

#[test]
fn update_signatures_overwrites_existing_name() {
    let mut store = SignatureStore::new();
    store.load_builtin_signatures();
    let ok = store.update_signatures(r#"{"trojan_example": [7, 7, 7]}"#);
    assert!(ok);
    assert_eq!(store.len(), 2);
    // The old pattern no longer matches under that name.
    let old = [0x90u8, 0x90, 0x90];
    let r = scan_content("f.bin".to_string(), &old, &store);
    assert!(!r.is_malicious);
    let new = [7u8, 7, 7];
    let r2 = scan_content("f.bin".to_string(), &new, &store);
    assert_eq!(r2.threat_name.as_deref(), Some("trojan_example"));
}

#[test]
fn malformed_update_leaves_store_unchanged() {
    let mut store = SignatureStore::new();
    store.load_builtin_signatures();
    assert!(!store.update_signatures("not json at all"));
    assert!(!store.update_signatures(r#"{"bad": "not a byte array"}"#));
    assert_eq!(store.len(), 2);
    let content = [0x90u8, 0x90, 0x90];
    let r = scan_content("f.bin".to_string(), &content, &store);
    assert!(r.is_malicious);
    assert_eq!(r.threat_name.as_deref(), Some("trojan_example"));
}

#[test]
fn memory_indicators_report_fixed_data() {
    let injected = detect_dll_injection();
    assert_eq!(injected, vec!["Potential injected library detected".to_string()]);

    let heap = analyze_heap_allocations();
    assert_eq!(heap.len(), 2);
    assert_eq!(heap[0], ("total_allocated".to_string(), 1048576));
    assert_eq!(heap[1], ("suspicious_allocations".to_string(), 0));

    let anti = detect_anti_debugging();
    assert_eq!(anti, vec!["Debugger detection pattern found".to_string()]);
}
