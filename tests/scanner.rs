use std::sync::Arc;
use virus_scanner::engine::{FileStep, ScanMode, ScanOptions, ScanStats, ScannerEngine};
use virus_scanner::matcher::{match_pattern, PatternType};
use virus_scanner::store::{Signature, SignatureDatabase};

fn options(mode: ScanMode, roots: Vec<String>, exclude_paths: Vec<String>, exclude_extensions: Vec<String>) -> ScanOptions {
    ScanOptions {
        scan_mode: mode,
        custom_paths: roots,
        exclude_paths,
        exclude_extensions,
        max_file_size: 1024 * 1024,
        thread_count: 1,
        quick_scan_paths: vec![],
    }
}

fn fake_malware_db() -> SignatureDatabase {
    let mut db = SignatureDatabase::new();
    let record: Vec<String> = ["FM1", "Fake", "Virus", "High", "66616b65206d616c77617265", "bytecode", "Generic"]
        .iter()
        .map(|s| s.to_string())
        .collect();
    db.load_records(&vec![record]).unwrap();
    db
}

#[test]
fn test_signature_database_creation() {
    let db = SignatureDatabase::new();
    assert_eq!(db.get_signature_count(), 0);
}

#[test]
fn test_pattern_matching() {
    let test_data = b"Hello, World! This is a test message.";
    let pattern = b"test";

    assert!(match_pattern(test_data, pattern, PatternType::ByteSequence));
}

#[test]
fn test_pattern_not_matching() {
    let test_data = b"Hello, World! This is a test message.";
    let pattern = b"notfound";

    assert!(!match_pattern(test_data, pattern, PatternType::ByteSequence));
}

#[test]
fn test_signature_creation() {
    let signature = Signature {
        id: "TestSig001".to_string(),
        name: "Test Signature".to_string(),
        threat_type: "Virus".to_string(),
        risk_level: "High".to_string(),
        pattern: vec![0x48, 0x65, 0x6c, 0x6c, 0x6f],
        pattern_type: PatternType::ByteSequence,
        target: "Generic".to_string(),
        subplatform: None,
    };

    assert_eq!(signature.id, "TestSig001");
    assert_eq!(signature.threat_type, "Virus");
    assert_eq!(signature.pattern.len(), 5);
}

#[test]
fn test_threat_type_classification() {
    let threat_types = vec![
        "Virus",
        "Trojan",
        "Worm",
        "Ransomware",
        "Rootkit",
        "Adware",
        "Spyware",
        "HackTool",
        "PUA",
        "Unknown",
    ];

    for threat in threat_types {
        assert!(!threat.is_empty());
    }
}

#[test]
fn test_scan_options_creation() {
    let options = ScanOptions {
        scan_mode: ScanMode::Quick,
        custom_paths: vec!["/tmp".to_string()],
        exclude_paths: vec!["/proc".to_string()],
        exclude_extensions: vec!["log".to_string()],
        max_file_size: 1024 * 1024,
        thread_count: 4,
        quick_scan_paths: vec!["/tmp".to_string()],
    };

    assert_eq!(options.scan_mode, ScanMode::Quick);
    assert_eq!(options.thread_count, 4);
    assert_eq!(options.max_file_size, 1024 * 1024);
}

#[test]
fn test_signature_database_memory_usage() {
    let db = SignatureDatabase::new();
    assert_eq!(db.get_memory_usage(), 0);
}

#[test]
fn test_signature_database_version() {
    let mut db = SignatureDatabase::new();
    db.set_version("1.0.0".to_string());
    assert_eq!(db.get_version(), "1.0.0");
}

#[test]
fn test_signature_database_last_update() {
    let db = SignatureDatabase::new();
    assert!(db.get_last_update().is_none());
}

#[test]
fn test_scanner_engine_creation() {
    let signature_db = Arc::new(SignatureDatabase::new());
    let options = ScanOptions {
        scan_mode: ScanMode::Full,
        custom_paths: vec![],
        exclude_paths: vec!["/proc".to_string()],
        exclude_extensions: vec![],
        max_file_size: 10 * 1024 * 1024,
        thread_count: 4,
        quick_scan_paths: vec![],
    };

    let engine = ScannerEngine::new(signature_db, options);
    let stats = engine.get_stats();

    assert_eq!(stats.get_files_scanned(), 0);
    assert_eq!(stats.get_threats_found(), 0);
}

#[test]
fn test_scan_stats_operations() {
    let stats = ScanStats::new();

    assert_eq!(stats.get_files_scanned(), 0);
    assert_eq!(stats.get_threats_found(), 0);
    assert_eq!(stats.get_bytes_scanned(), 0);
    assert_eq!(stats.speed_bytes_per_s(0), 0);
}

#[test]
fn test_empty_file_scan() {
    let root = "/tmp/scan_root".to_string();
    let test_file = format!("{}/test.txt", root);
    let content = b"This is a test file";

    let signature_db = Arc::new(SignatureDatabase::new());
    let mut engine = ScannerEngine::new(signature_db, options(ScanMode::Custom, vec![root], vec![], vec![]));

    let step = engine.begin_file(&test_file, true, content.len() as u64);
    assert_eq!(step, FileStep::NeedsContent);
    assert!(!engine.finish_file(&test_file, content.len() as u64, content));

    assert_eq!(engine.results().len(), 0);
}

#[test]
fn test_exclude_directory() {
    let root = "/tmp/scan_root".to_string();
    let excluded_dir = format!("{}/excluded", root);
    let test_file = format!("{}/malware.exe", excluded_dir);
    let content = b"fake malware";

    let signature_db = Arc::new(fake_malware_db());
    let mut engine = ScannerEngine::new(
        signature_db,
        options(ScanMode::Custom, vec![root], vec![excluded_dir], vec![]),
    );

    let step = engine.begin_file(&test_file, true, content.len() as u64);
    assert_eq!(step, FileStep::Skipped);
    assert!(!engine.finish_file(&test_file, content.len() as u64, content));

    assert_eq!(engine.results().len(), 0);
}

#[test]
fn test_exclude_file_extensions() {
    let root = "/tmp/scan_root".to_string();
    let test_file = format!("{}/test.log", root);
    let content = b"log content";

    let signature_db = Arc::new(SignatureDatabase::new());
    let mut engine = ScannerEngine::new(
        signature_db,
        options(ScanMode::Custom, vec![root], vec![], vec!["log".to_string()]),
    );

    let step = engine.begin_file(&test_file, true, content.len() as u64);
    assert_eq!(step, FileStep::Skipped);

    assert_eq!(engine.results().len(), 0);
}
