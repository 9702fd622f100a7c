use std::sync::Arc;
use virus_scanner::codec::content_fingerprint;
use virus_scanner::engine::{FileStep, RiskLevel, ScanMode, ScanOptions, ScanStats, ScannerEngine, ThreatType};
use virus_scanner::logging::{LevelFilter, Logger};
use virus_scanner::matcher::{match_exact, match_pattern, match_wildcard, PatternType};
use virus_scanner::paths::{extension, path_under, should_exclude};
use virus_scanner::quarantine::{open, seal, QuarantineError, QuarantineManager};
use virus_scanner::report::ReportFormat;
use virus_scanner::security::{AuditEvent, AuditLogger, PermissionManager, SecurityManager};
use virus_scanner::utils::timestamp_text;
use virus_scanner::store::{parse_pattern_type, parse_record, ScannerStatus, SignatureDatabase, StoreError};

fn record(fields: &[&str]) -> Vec<String> {
    fields.iter().map(|s| s.to_string()).collect()
}

fn hex_of(b: &[u8]) -> String {
    b.iter().map(|x| format!("{:02x}", x)).collect()
}

fn db_with(records: Vec<Vec<String>>) -> SignatureDatabase {
    let mut db = SignatureDatabase::new();
    db.load_records(&records).unwrap();
    db
}

fn opts(exclude_paths: Vec<String>, exclude_extensions: Vec<String>, max_file_size: u64) -> ScanOptions {
    ScanOptions {
        scan_mode: ScanMode::Custom,
        custom_paths: vec!["/data".to_string()],
        exclude_paths,
        exclude_extensions,
        max_file_size,
        thread_count: 1,
        quick_scan_paths: vec!["/bin".to_string()],
    }
}

fn malware_db() -> SignatureDatabase {
    db_with(vec![record(&["S1", "Mal", "Trojan", "Critical", &hex_of(b"MALWARE"), "bytecode", "Generic"])])
}

fn scan_one(engine: &mut ScannerEngine, path: &str, data: &[u8]) -> FileStep {
    let p = path.to_string();
    let step = engine.begin_file(&p, true, data.len() as u64);
    if step == FileStep::NeedsContent {
        engine.finish_file(&p, data.len() as u64, data);
    }
    step
}

const KEY: [u8; 32] = [7u8; 32];

#[test]
fn upsert_same_id_keeps_one_entry_with_second_pattern() {
    let mut db = SignatureDatabase::new();
    db.load_records(&vec![record(&["S1", "One", "Virus", "Low", "4142", "bytecode", "t"])]).unwrap();
    db.load_records(&vec![record(&["S1", "Two", "Virus", "Low", "43444546", "bytecode", "t"])]).unwrap();
    assert_eq!(db.get_signature_count(), 1);
    let s = db.lookup_by_id("S1").unwrap();
    assert_eq!(s.pattern, b"CDEF".to_vec());
    assert_eq!(s.name, "Two");
    assert_eq!(db.get_memory_usage(), 4);
}

#[test]
fn upsert_within_one_batch_and_type_index() {
    let mut db = SignatureDatabase::new();
    db.load_records(&vec![
        record(&["A", "a", "Worm", "Low", "00", "bytecode", "t"]),
        record(&["B", "b", "Virus", "Low", "0102", "bytecode", "t"]),
        record(&["C", "c", "Worm", "Low", "030405", "hash", "t", "linux"]),
        record(&["A", "a2", "Worm", "Low", "", "bytecode", "t"]),
    ])
    .unwrap();
    assert_eq!(db.get_signature_count(), 3);
    assert_eq!(db.get_memory_usage(), 5);
    assert_eq!(db.ids_by_threat_type("Worm"), vec!["A".to_string(), "C".to_string()]);
    let c = db.lookup_by_id("C").unwrap();
    assert_eq!(c.pattern_type, PatternType::Hash);
    assert_eq!(c.subplatform, Some("linux".to_string()));
}

#[test]
fn bad_record_is_skipped_and_reported() {
    let mut db = malware_db();
    let r = db.load_records(&vec![
        record(&["S2", "x", "Virus", "Low", "00", "bytecode", "t"]),
        record(&["S3", "y", "Virus", "Low", "zz", "bytecode", "t"]),
        record(&["S4", "z", "Virus", "Low"]),
        record(&["S5", "w", "Worm", "Low", "0102", "bytecode", "t"]),
    ]);
    assert_eq!(r, Err(StoreError::FormatError));
    assert_eq!(db.get_signature_count(), 3);
    assert!(db.lookup_by_id("S1").is_some());
    assert!(db.lookup_by_id("S2").is_some());
    assert!(db.lookup_by_id("S3").is_none());
    assert!(db.lookup_by_id("S4").is_none());
    assert!(db.lookup_by_id("S5").is_some());
    assert_eq!(db.get_memory_usage(), 10);
}

#[test]
fn parse_record_errors_and_fields() {
    assert!(matches!(parse_record(&record(&["S", "n", "Virus", "Low", "00", "bytecode"])), Err(StoreError::FormatError)));
    assert!(matches!(parse_record(&record(&["S", "n", "Virus", "Low", "abc", "bytecode", "t"])), Err(StoreError::FormatError)));
    let s = parse_record(&record(&["S", "n", "Virus", "Low", "4D5a", "extended", "t"])).unwrap();
    assert_eq!(s.pattern, vec![0x4d, 0x5a]);
    assert_eq!(s.pattern_type, PatternType::ExtendedByteSequence);
    assert_eq!(s.subplatform, None);
}

#[test]
fn pattern_type_tags() {
    assert_eq!(parse_pattern_type("bytecode"), PatternType::ByteSequence);
    assert_eq!(parse_pattern_type("extended"), PatternType::ExtendedByteSequence);
    assert_eq!(parse_pattern_type("logical"), PatternType::LogicalExpression);
    assert_eq!(parse_pattern_type("regex"), PatternType::Regex);
    assert_eq!(parse_pattern_type("pe"), PatternType::PEHeader);
    assert_eq!(parse_pattern_type("hash"), PatternType::Hash);
    assert_eq!(parse_pattern_type("other"), PatternType::ByteSequence);
}

#[test]
fn wildcard_star_matches_at_once() {
    assert!(match_wildcard(b"ZZABQQQ", b"AB*XY"));
    assert!(match_pattern(b"ZZABQQQ", b"AB*XY", PatternType::ExtendedByteSequence));
}

#[test]
fn wildcard_other_cases() {
    assert!(match_wildcard(b"xxAQC", b"A?C"));
    assert!(!match_wildcard(b"xxAQD", b"A?C"));
    assert!(!match_wildcard(b"AB", b"A*XYZ"));
    assert!(!match_wildcard(b"", b"*"));
    assert!(match_wildcard(b"", b""));
    assert!(!match_wildcard(b"xxAB", b"ABC"));
}

#[test]
fn exact_bytes_matching() {
    assert!(match_exact(b"xxMALWAREyy", b"MALWARE"));
    assert!(!match_exact(b"xxMALWAR", b"MALWARE"));
    assert!(match_exact(b"abc", b""));
    assert!(match_exact(b"", b""));
    assert!(!match_exact(b"ab", b"abc"));
}

#[test]
fn reserved_kinds_never_match() {
    assert!(!match_pattern(b"MALWARE", b"MALWARE", PatternType::LogicalExpression));
    assert!(!match_pattern(b"MALWARE", b"MALWARE", PatternType::Regex));
    assert!(!match_pattern(b"MALWARE", b"MALWARE", PatternType::PEHeader));
    assert!(!match_pattern(b"MALWARE", b"MALWARE", PatternType::Hash));
}

#[test]
fn fingerprint_is_crc32_hex() {
    assert_eq!(content_fingerprint(b"123456789"), "cbf43926");
    assert_eq!(content_fingerprint(b""), "00000000");
}

#[test]
fn content_hash_detection() {
    let db = db_with(vec![record(&["cbf43926", "h", "Rootkit", "Medium", "", "hash", "t"])]);
    assert!(db.lookup_by_content_hash("cbf43926").is_some());
    assert!(db.lookup_by_content_hash("00000000").is_none());
    assert_eq!(db.scan_bytes(b"123456789").unwrap().id, "cbf43926");
    assert!(db.scan_bytes(b"12345678").is_none());
}

#[test]
fn exclusion_by_prefix_and_extension() {
    let db = Arc::new(malware_db());
    let mut engine = ScannerEngine::new(
        db,
        opts(vec!["/data/skip".to_string()], vec!["log".to_string()], 1024),
    );
    assert_eq!(scan_one(&mut engine, "/data/skip/a.bin", b"xxMALWAREyy"), FileStep::Skipped);
    assert_eq!(scan_one(&mut engine, "/data/skip", b"xxMALWAREyy"), FileStep::Skipped);
    assert_eq!(scan_one(&mut engine, "/data/x.log", b"xxMALWAREyy"), FileStep::Skipped);
    assert!(!engine.finish_file(&"/data/skip/b.bin".to_string(), 11, b"xxMALWAREyy"));
    assert_eq!(engine.results().len(), 0);
    assert_eq!(engine.get_stats().get_files_scanned(), 0);
    assert_eq!(scan_one(&mut engine, "/data/skipped/a.bin", b"xxMALWAREyy"), FileStep::NeedsContent);
    assert_eq!(engine.results().len(), 1);
}

#[test]
fn path_helpers() {
    assert!(path_under("/a/b/c", "/a/b"));
    assert!(path_under("/a/b", "/a/b"));
    assert!(path_under("/a/b/c", "/a/"));
    assert!(!path_under("/a/bc", "/a/b"));
    assert_eq!(extension("/x/y.tar.gz"), Some("gz"));
    assert_eq!(extension("/x/.bashrc"), None);
    assert_eq!(extension("/x.d/file"), None);
    assert_eq!(extension("name."), Some(""));
    assert!(should_exclude("/p/q.LOG", &vec![], &vec!["LOG".to_string()]));
    assert!(!should_exclude("/p/q.log", &vec!["/r".to_string()], &vec!["LOG".to_string()]));
}

#[test]
fn size_boundary() {
    let db = Arc::new(malware_db());
    let mut engine = ScannerEngine::new(db, opts(vec![], vec![], 11));
    assert_eq!(scan_one(&mut engine, "/data/exact.bin", b"xxMALWAREyy"), FileStep::NeedsContent);
    assert_eq!(scan_one(&mut engine, "/data/over.bin", b"xxMALWAREyyz"), FileStep::Skipped);
    assert_eq!(engine.results().len(), 1);
    assert_eq!(engine.results()[0].file_path, "/data/exact.bin");
    assert_eq!(engine.get_stats().get_files_scanned(), 1);
    assert_eq!(engine.get_stats().get_bytes_scanned(), 11);
}

#[test]
fn not_a_file_is_skipped() {
    let db = Arc::new(malware_db());
    let mut engine = ScannerEngine::new(db, opts(vec![], vec![], 100));
    assert_eq!(engine.begin_file(&"/data/dir".to_string(), false, 0), FileStep::Skipped);
    engine.record_error();
    assert_eq!(engine.get_stats().get_errors(), 1);
}

#[test]
fn stale_cache_reports_old_verdict() {
    let db = Arc::new(malware_db());
    let mut engine = ScannerEngine::new(db, opts(vec![], vec![], 1024));
    let f = "/data/f.bin";
    assert_eq!(scan_one(&mut engine, f, b"xxMALWAREyy"), FileStep::NeedsContent);
    assert_eq!(engine.results().len(), 1);
    engine.start_new_scan();
    assert_eq!(engine.results().len(), 0);
    assert_eq!(engine.get_stats().get_files_scanned(), 0);
    assert_eq!(scan_one(&mut engine, f, b"unrelated clean content"), FileStep::Detected);
    assert_eq!(engine.results().len(), 1);
    assert_eq!(engine.results()[0].signature_id, "S1");
    assert_eq!(engine.results()[0].file_path, f);
    assert_eq!(engine.get_stats().get_threats_found(), 1);
}

#[test]
fn one_result_per_file_within_a_scan() {
    let db = Arc::new(malware_db());
    let mut engine = ScannerEngine::new(db, opts(vec![], vec![], 1024));
    let f = "/data/f.bin";
    assert_eq!(scan_one(&mut engine, f, b"xxMALWAREyy"), FileStep::NeedsContent);
    assert_eq!(scan_one(&mut engine, f, b"xxMALWAREyy"), FileStep::AlreadyReported);
    assert!(!engine.finish_file(&f.to_string(), 11, b"xxMALWAREyy"));
    assert!(engine.is_reported(f));
    assert_eq!(engine.results().len(), 1);
    assert_eq!(engine.get_stats().get_files_scanned(), 1);
    assert_eq!(engine.get_stats().get_threats_found(), 1);
}

#[test]
fn end_to_end_scan_of_two_files() {
    let db = Arc::new(malware_db());
    let mut engine = ScannerEngine::new(db, opts(vec![], vec![], 1024 * 1024));
    scan_one(&mut engine, "/data/a.bin", b"xxMALWAREyy");
    scan_one(&mut engine, "/data/b.txt", b"clean");
    let results = engine.results();
    assert_eq!(results.len(), 1);
    assert_eq!(results[0].file_path, "/data/a.bin");
    assert_eq!(results[0].signature_id, "S1");
    assert_eq!(results[0].threat_type, ThreatType::Trojan);
    assert_eq!(results[0].risk_level, RiskLevel::Critical);
    assert_eq!(results[0].file_info.size, 11);
    assert!(results.iter().all(|r| r.file_path != "/data/b.txt"));
    assert_eq!(engine.get_stats().get_files_scanned(), 2);
    assert_eq!(engine.get_stats().get_bytes_scanned(), 16);
}

#[test]
fn scan_roots_by_mode() {
    let mut o = opts(vec!["/proc".to_string()], vec![], 10);
    o.scan_mode = ScanMode::Full;
    let engine = ScannerEngine::new(Arc::new(SignatureDatabase::new()), o);
    let top = vec!["/bin".to_string(), "/proc".to_string(), "/home".to_string()];
    assert_eq!(engine.get_scan_paths(&top), vec!["/bin".to_string(), "/home".to_string()]);
    let mut q = opts(vec![], vec![], 10);
    q.scan_mode = ScanMode::Quick;
    let engine = ScannerEngine::new(Arc::new(SignatureDatabase::new()), q);
    assert_eq!(engine.get_scan_paths(&top), vec!["/bin".to_string()]);
}

#[test]
fn classification_by_name() {
    assert_eq!(ThreatType::from_name("VIRUS"), ThreatType::Virus);
    assert_eq!(ThreatType::from_name("HackTool"), ThreatType::HackTool);
    assert_eq!(ThreatType::from_name("pua"), ThreatType::PUA);
    assert_eq!(ThreatType::from_name("banana"), ThreatType::Unknown);
    assert_eq!(RiskLevel::from_name("CRITICAL"), RiskLevel::Critical);
    assert_eq!(RiskLevel::from_name("Medium"), RiskLevel::Medium);
    assert_eq!(RiskLevel::from_name("none"), RiskLevel::Low);
}

#[test]
fn seal_open_round_trip() {
    let plain = b"some file content".to_vec();
    let a = seal(&KEY, &plain).unwrap();
    assert_eq!(a.len(), plain.len() + 32);
    assert_ne!(&a[..plain.len()], &plain[..]);
    assert_eq!(open(&KEY, &a).unwrap(), plain);
    assert_eq!(seal(&[1u8; 16], &plain), Err(QuarantineError::CryptoError));
}

#[test]
fn tampered_artifact_is_refused() {
    let plain = b"some file content".to_vec();
    let a = seal(&KEY, &plain).unwrap();
    for i in [0usize, 5, plain.len(), a.len() - 1] {
        let mut t = a.clone();
        t[i] ^= 0x01;
        assert_eq!(open(&KEY, &t), Err(QuarantineError::CryptoError));
    }
    assert_eq!(open(&KEY, &a[..31]), Err(QuarantineError::CryptoError));
}

#[test]
fn quarantine_and_restore_with_key() {
    let m = QuarantineManager::new("/q".to_string(), Some(KEY.to_vec()));
    let content = b"infected bytes".to_vec();
    let (dest, artifact) = m.plan_quarantine_at("/home/u/evil.bin", "20240101_120000", &content).unwrap();
    assert_eq!(dest, "/q/20240101_120000_evil.bin");
    assert_ne!(artifact, content);
    let (name, restored) = m.plan_restore(&dest, &artifact).unwrap();
    assert_eq!(restored, content);
    assert_eq!(name, "120000_evil.bin");
}

#[test]
fn quarantine_and_restore_without_key() {
    let m = QuarantineManager::new("/q/".to_string(), None);
    let content = b"plain".to_vec();
    let (dest, artifact) = m.plan_quarantine_at("evil.bin", "T", &content).unwrap();
    assert_eq!(dest, "/q/T_evil.bin");
    assert_eq!(artifact, content);
    let (name, restored) = m.plan_restore(&dest, &artifact).unwrap();
    assert_eq!(name, "evil.bin");
    assert_eq!(restored, content);
    let (dest2, _) = m.plan_quarantine(&"/x/y.txt", &content).unwrap();
    assert!(dest2.starts_with("/q/") && dest2.ends_with("_y.txt"));
}

#[test]
fn quarantine_errors() {
    let m = QuarantineManager::new("/q".to_string(), Some(vec![1, 2, 3]));
    assert_eq!(m.plan_quarantine_at("/a/b", "T", b"x"), Err(QuarantineError::CryptoError));
    assert_eq!(m.plan_quarantine_at("/a/", "T", b"x"), Err(QuarantineError::IoError));
    assert_eq!(m.plan_quarantine_at("/a/..", "T", b"x"), Err(QuarantineError::IoError));
    let k = QuarantineManager::new("/q".to_string(), Some(KEY.to_vec()));
    assert_eq!(k.plan_restore("/q/noseparator", b"x"), Err(QuarantineError::FormatError));
    let (dest, mut artifact) = k.plan_quarantine_at("/a/f", "T", b"data").unwrap();
    artifact[0] ^= 0xff;
    assert_eq!(k.plan_restore(&dest, &artifact), Err(QuarantineError::CryptoError));
}

#[test]
fn lockout_after_threshold_within_window() {
    let mut s = SecurityManager::new("/var/log/audit".to_string(), 2, 60);
    let e = s.record_failed_attempt("bob", "1.2.3.4", 100);
    assert_eq!(e.action, "LOGIN_FAILED");
    assert_eq!(e.details, "IP: 1.2.3.4");
    assert!(!s.is_locked_out("bob", "1.2.3.4", 101));
    s.record_failed_attempt("bob", "1.2.3.4", 110);
    s.record_failed_attempt("bob", "5.6.7.8", 110);
    assert!(s.is_locked_out("bob", "1.2.3.4", 120));
    assert!(!s.is_locked_out("bob", "5.6.7.8", 120));
    assert!(!s.is_locked_out("bob", "1.2.3.4", 160));
    assert_eq!(s.failed_attempts.len(), 2);
    assert!(!s.is_locked_out("bob", "1.2.3.4", 200));
    assert_eq!(s.failed_attempts.len(), 0);
}

#[test]
fn audit_events_and_lines() {
    let s = SecurityManager::new("/log".to_string(), 3, 10);
    let ok = s.record_success("amy", "9.9.9.9");
    assert_eq!(ok.action, "LOGIN_SUCCESS");
    assert_eq!(ok.user, "amy");
    let op = s.log_operation("SCAN", "amy", "full");
    let line = s.audit_logger.entry(&op, "2024-01-01T00:00:00+00:00").unwrap();
    assert_eq!(line, "[2024-01-01T00:00:00+00:00] ACTION=SCAN USER=amy DETAILS=full\n");
    let off = AuditLogger::new("/log".to_string(), false);
    let ev = AuditEvent { action: "A".to_string(), user: "u".to_string(), details: "d".to_string() };
    assert!(off.entry(&ev, "t").is_none());
}

#[test]
fn permissions_from_uid() {
    let root = PermissionManager::from_uid(0);
    assert!(root.is_privileged());
    assert!(root.check_capabilities().is_ok());
    assert_eq!(root.required_capabilities, vec!["CAP_DAC_READ_SEARCH".to_string(), "CAP_NET_RAW".to_string()]);
    assert!(!PermissionManager::from_uid(1000).is_privileged());
}

#[test]
fn level_filters_and_report_extensions() {
    assert_eq!(Logger::get_level_filter("debug"), LevelFilter::Debug);
    assert_eq!(Logger::get_level_filter("Warn"), LevelFilter::Warn);
    assert_eq!(Logger::get_level_filter("ERROR"), LevelFilter::Error);
    assert_eq!(Logger::get_level_filter("trace"), LevelFilter::Trace);
    assert_eq!(Logger::get_level_filter("loud"), LevelFilter::Info);
    assert_eq!(ReportFormat::Json.extension(), "json");
    assert_eq!(ReportFormat::Yaml.extension(), "yaml");
    assert_eq!(ReportFormat::Html.extension(), "html");
    assert_eq!(ReportFormat::Text.extension(), "txt");
}

#[test]
fn status_and_speed() {
    let mut db = malware_db();
    db.set_version("2.1".to_string());
    db.set_last_update(42);
    assert_eq!(db.get_last_update(), Some(42));
    let st = ScannerStatus::of_database(&db, true, None);
    assert_eq!(st.signature_count, 1);
    assert_eq!(st.memory_usage_bytes, 7);
    assert_eq!(st.database_version, "2.1");
    let mut stats = ScanStats::new();
    stats.bytes_scanned = 3000;
    assert_eq!(stats.speed_bytes_per_s(2), 1500);
    assert_eq!(stats.speed_bytes_per_s(0), 0);
}

fn cvd_archive(csv_text: &str) -> Vec<u8> {
    let mut w = zip::ZipWriter::new(std::io::Cursor::new(Vec::new()));
    w.start_file("main.cvd", zip::write::FileOptions::default()).unwrap();
    std::io::Write::write_all(&mut w, csv_text.as_bytes()).unwrap();
    w.finish().unwrap().into_inner()
}

#[test]
fn load_archive_bytes() {
    let header = "id,name,threat_type,risk_level,pattern,pattern_type,target,subplatform\n";
    let body = "S1,Mal,Trojan,Critical,4d414c57415245,bytecode,Generic,linux\nS2,Ext,Virus,High,41423f,extended,Generic,win\n";
    let mut db = SignatureDatabase::new();
    db.load_from_cvd(&cvd_archive(&format!("{}{}", header, body))).unwrap();
    assert_eq!(db.get_signature_count(), 2);
    assert_eq!(db.get_memory_usage(), 10);
    let s1 = db.lookup_by_id("S1").unwrap();
    assert_eq!(s1.pattern, b"MALWARE".to_vec());
    assert_eq!(s1.subplatform, Some("linux".to_string()));
    assert_eq!(db.lookup_by_id("S2").unwrap().pattern_type, PatternType::ExtendedByteSequence);
}

#[test]
fn bad_archives_are_refused() {
    let mut db = malware_db();
    assert_eq!(db.load_from_cvd(b"not a zip"), Err(StoreError::FormatError));
    let ragged = "id,name,threat_type,risk_level,pattern,pattern_type,target,subplatform\nS9,x,Virus,Low,00,bytecode\n";
    assert_eq!(db.load_from_cvd(&cvd_archive(ragged)), Err(StoreError::FormatError));
    assert_eq!(db.get_signature_count(), 1);
    let mixed = "id,name,threat_type,risk_level,pattern,pattern_type,target,subplatform\nS9,x,Virus,Low,0g,bytecode,t,u\nS8,y,Worm,Low,41,bytecode,t,u\n";
    assert_eq!(db.load_from_cvd(&cvd_archive(mixed)), Err(StoreError::FormatError));
    assert_eq!(db.get_signature_count(), 2);
    assert!(db.lookup_by_id("S9").is_none());
    assert!(db.lookup_by_id("S8").is_some());
}

#[test]
fn quarantine_name_has_timestamp_shape() {
    assert_eq!(timestamp_text(2024, 3, 7, 9, 5, 0), "20240307_090500");
    assert_eq!(timestamp_text(987, 12, 31, 23, 59, 59), "09871231_235959");
    assert_eq!(timestamp_text(12345, 1, 1, 0, 0, 0), "+123450101_000000");
    assert_eq!(timestamp_text(-1, 1, 1, 0, 0, 0), "-00010101_000000");
    let m = QuarantineManager::new("/q".to_string(), None);
    let (dest, _) = m.plan_quarantine("/x/y.txt", b"c").unwrap();
    let name = dest.strip_prefix("/q/").unwrap();
    let stamp = &name[..15];
    assert!(stamp.chars().enumerate().all(|(i, c)| if i == 8 { c == '_' } else { c.is_ascii_digit() }));
    assert_eq!(&name[15..], "_y.txt");
}
