use threat_engine::scanner::{
    analyze_entropy, combine_scan_results, file_not_found_result, is_scannable_extension,
    perform_heuristic_analysis, scan_content, HeuristicFinding,
};
use threat_engine::signatures::SignatureStore;

fn default_store() -> SignatureStore {
    let mut store = SignatureStore::new();
    store.load_builtin_signatures();
    store
}

/// 2000 bytes cycling through 128 distinct values: high whole-file
/// entropy without any 256-byte chunk crossing the 7.5-bit chunk rule.
fn high_entropy_2000() -> Vec<u8> {
    (0..2000).map(|i| (i % 128) as u8).collect()
}

#[test]
fn nop_sled_matches_builtin_signature() {
    let store = default_store();
    let content = [0x90u8, 0x90, 0x90];
    let r = scan_content("sled.exe".to_string(), &content, &store);
    assert!(r.is_malicious);
    assert_eq!(r.confidence, 9500);
    assert_eq!(r.threat_name.as_deref(), Some("trojan_example"));
    assert_eq!(r.file_path, "sled.exe");
}

#[test]
fn high_entropy_file_is_flagged_by_entropy_stage() {
    let store = default_store();
    let content = high_entropy_2000();
    let r = scan_content("blob.bin".to_string(), &content, &store);
    assert!(r.is_malicious);
    assert_eq!(r.confidence, 9000);
    assert_eq!(r.threat_name.as_deref(), Some("HIGH_ENTROPY_SUSPICIOUS"));
}

#[test]
fn uniform_chunks_trigger_high_entropy_content_heuristic() {
    let store = default_store();
    // 2048 bytes cycling all 256 values: every chunk is at exactly 8
    // bits, so the chunk rule fires and names the finding.
    let content: Vec<u8> = (0..2048).map(|i| (i % 256) as u8).collect();
    let r = scan_content("packed.bin".to_string(), &content, &store);
    assert!(r.is_malicious);
    assert_eq!(r.confidence, 9000);
    assert_eq!(r.threat_name.as_deref(), Some("HIGH_ENTROPY_CONTENT"));
}

#[test]
fn suspicious_command_is_found() {
    let store = default_store();
    let content = b"@echo off\r\ncmd.exe /c whoami\r\n";
    let r = scan_content("script.bat".to_string(), content, &store);
    assert!(r.is_malicious);
    assert_eq!(r.confidence, 7000);
    assert_eq!(r.threat_name.as_deref(), Some("SUSPICIOUS_COMMAND_cmd.exe"));
}

#[test]
fn packer_marker_is_found() {
    let store = SignatureStore::new();
    let content = [0x00u8, 0x60, 0xE8, 0x00, 0x00, 0x00, 0x00, 0x11];
    let r = scan_content("packed.exe".to_string(), &content, &store);
    assert!(r.is_malicious);
    assert_eq!(r.confidence, 8000);
    assert_eq!(r.threat_name.as_deref(), Some("PACKER_DETECTED_0"));
}

#[test]
fn clean_content_is_clean() {
    let store = default_store();
    let content = b"hello, a perfectly ordinary file";
    let r = scan_content("notes.txt".to_string(), content, &store);
    assert!(!r.is_malicious);
    assert_eq!(r.confidence, 0);
    assert_eq!(r.threat_name, None);
}

#[test]
fn scan_is_idempotent_on_same_content() {
    let store = default_store();
    let content = high_entropy_2000();
    let a = scan_content("same.bin".to_string(), &content, &store);
    let b = scan_content("same.bin".to_string(), &content, &store);
    assert_eq!(a.is_malicious, b.is_malicious);
    assert_eq!(a.threat_name, b.threat_name);
    assert_eq!(a.confidence, b.confidence);
    assert_eq!(a.file_path, b.file_path);
}

#[test]
fn missing_file_result_carries_sentinel() {
    let r = file_not_found_result("/no/such/file".to_string());
    assert!(!r.is_malicious);
    assert_eq!(r.confidence, 0);
    assert_eq!(r.threat_name.as_deref(), Some("FILE_NOT_FOUND"));
    assert_eq!(r.file_path, "/no/such/file");
}

#[test]
fn fusion_at_exact_threshold_is_malicious() {
    let findings = vec![HeuristicFinding { label: "BORDER".to_string(), confidence: 5000 }];
    let (malicious, name, confidence) = combine_scan_results(None, findings, 0);
    assert!(malicious);
    assert_eq!(confidence, 5000);
    assert_eq!(name.as_deref(), Some("BORDER"));
}

#[test]
fn fusion_just_below_threshold_is_clean_and_nameless() {
    let findings = vec![HeuristicFinding { label: "BORDER".to_string(), confidence: 4999 }];
    let (malicious, name, confidence) = combine_scan_results(None, findings, 0);
    assert!(!malicious);
    assert_eq!(confidence, 4999);
    assert_eq!(name, None);
}

#[test]
fn fusion_raises_confidence_monotonically() {
    let findings = vec![
        HeuristicFinding { label: "LOW".to_string(), confidence: 3000 },
        HeuristicFinding { label: "HIGH".to_string(), confidence: 7000 },
    ];
    let (malicious, name, confidence) = combine_scan_results(None, findings, 0);
    assert!(malicious);
    assert_eq!(confidence, 7000);
    // The first finding that fired set the name.
    assert_eq!(name.as_deref(), Some("LOW"));
}

#[test]
fn signature_keeps_name_under_higher_heuristic() {
    let sig = Some(("sig_name".to_string(), 9500));
    let findings = vec![HeuristicFinding { label: "H".to_string(), confidence: 9999 }];
    let (malicious, name, confidence) = combine_scan_results(sig, findings, 0);
    assert!(malicious);
    assert_eq!(confidence, 9999);
    assert_eq!(name.as_deref(), Some("sig_name"));
}

#[test]
fn entropy_stage_thresholds() {
    // Under 256 bytes: always 0.
    assert_eq!(analyze_entropy(&[7u8; 200]), 0);
    // A constant buffer: entropy 0.
    assert_eq!(analyze_entropy(&[7u8; 1000]), 0);
    // A full-range uniform buffer: entropy 8 bits, normalized 1.0.
    let uniform: Vec<u8> = (0..2560).map(|i| (i % 256) as u8).collect();
    assert_eq!(analyze_entropy(&uniform), 9000);
}

#[test]
fn heuristics_report_all_hits_in_order() {
    let mut content = b"run cmd.exe then wscript later".to_vec();
    content.extend_from_slice(&[0x60, 0xE8, 0x00, 0x00, 0x00, 0x00]);
    let findings = perform_heuristic_analysis(&content);
    let labels: Vec<&str> = findings.iter().map(|f| f.label.as_str()).collect();
    assert_eq!(
        labels,
        vec![
            "SUSPICIOUS_COMMAND_cmd.exe",
            "SUSPICIOUS_COMMAND_wscript",
            "PACKER_DETECTED_0",
        ]
    );
    assert!(findings.iter().all(|f| f.confidence == 7000 || f.confidence == 8000));
}

#[test]
fn extension_allowlist_is_case_insensitive() {
    assert!(is_scannable_extension(b"exe"));
    assert!(is_scannable_extension(b"EXE"));
    assert!(is_scannable_extension(b"Jar"));
    assert!(is_scannable_extension(b"ps1"));
    assert!(!is_scannable_extension(b"txt"));
    assert!(!is_scannable_extension(b"rs"));
    assert!(!is_scannable_extension(b""));
}
