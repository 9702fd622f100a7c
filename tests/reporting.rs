use virus_scanner::engine::{FileInfo, RiskLevel, ScanResult, ThreatType};
use virus_scanner::monitor::{EventType, MonitorEvent};
use virus_scanner::report::ReportGenerator;
use virus_scanner::utils::{format_bytes, is_executable_mode, permissions_text};

fn result(path: &str, t: ThreatType, l: RiskLevel) -> ScanResult {
    ScanResult {
        file_path: path.to_string(),
        threat_type: t,
        risk_level: l,
        signature_id: "S".to_string(),
        file_info: FileInfo { size: 1, permissions: String::new(), created: None, modified: None, accessed: None },
    }
}

#[test]
fn format_bytes_units_and_rounding() {
    assert_eq!(format_bytes(0), "0.00 B");
    assert_eq!(format_bytes(1023), "1023.00 B");
    assert_eq!(format_bytes(1024), "1.00 KB");
    assert_eq!(format_bytes(1536), "1.50 KB");
    assert_eq!(format_bytes(1152), "1.12 KB");
    assert_eq!(format_bytes(1049000), "1.00 MB");
    assert_eq!(format_bytes(1048575), "1024.00 KB");
    assert_eq!(format_bytes(5 * 1024 * 1024 * 1024), "5.00 GB");
    assert_eq!(format_bytes(1099511627776), "1.00 TB");
    assert_eq!(format_bytes(u64::MAX), "16777216.00 TB");
}

#[test]
fn counts_by_type_and_risk() {
    let rs = vec![
        result("/a", ThreatType::Virus, RiskLevel::High),
        result("/b", ThreatType::Worm, RiskLevel::High),
        result("/c", ThreatType::Virus, RiskLevel::Critical),
    ];
    let by_type = ReportGenerator::count_threats_by_type(&rs);
    assert_eq!(by_type.len(), 2);
    assert!(by_type.contains(&(ThreatType::Virus, 2)));
    assert!(by_type.contains(&(ThreatType::Worm, 1)));
    let by_risk = ReportGenerator::count_threats_by_risk(&rs);
    assert_eq!(by_risk.len(), 2);
    assert!(by_risk.contains(&(RiskLevel::High, 2)));
    assert!(by_risk.contains(&(RiskLevel::Critical, 1)));
    assert!(ReportGenerator::count_threats_by_type(&[]).is_empty());
}

#[test]
fn detection_name_and_recommendations() {
    let g = ReportGenerator::new("/reports".to_string());
    assert_eq!(g.get_detection_name("S1"), "Malware.S1");
    let rs = vec![
        result("/a", ThreatType::Virus, RiskLevel::Critical),
        result("/b", ThreatType::Virus, RiskLevel::Low),
    ];
    let recs = g.generate_recommendations(&rs);
    assert_eq!(recs.len(), 4);
    assert_eq!(recs[0], "发现 1 个高危威胁，请立即隔离并清除受影响文件");
    assert_eq!(recs[1], "发现 2 个病毒，请使用最新病毒库进行全盘扫描");
    assert_eq!(g.generate_recommendations(&[]).len(), 2);
}

#[test]
fn monitor_event_holds_its_fields() {
    let e = MonitorEvent {
        watch_path: "/etc".to_string(),
        event_type: EventType::Modified,
        file_path: "/etc/passwd".to_string(),
        cookie: 0,
        timestamp: 5,
        process_info: None,
    };
    assert_eq!(e.event_type, EventType::Modified);
    assert!(e.process_info.is_none());
}

#[test]
fn mode_helpers() {
    assert_eq!(permissions_text(0o100644), "644");
    assert_eq!(permissions_text(0o40755), "755");
    assert_eq!(permissions_text(0), "0");
    assert!(is_executable_mode(0o100755));
    assert!(is_executable_mode(0o100001));
    assert!(!is_executable_mode(0o100644));
}

#[test]
fn inotify_masks() {
    assert_eq!(EventType::from_inotify_mask(0x100 | 0x2), EventType::Created);
    assert_eq!(EventType::from_inotify_mask(0x2), EventType::Modified);
    assert_eq!(EventType::from_inotify_mask(0x200), EventType::Deleted);
    assert_eq!(EventType::from_inotify_mask(0x40), EventType::MovedFrom);
    assert_eq!(EventType::from_inotify_mask(0x80), EventType::MovedTo);
    assert_eq!(EventType::from_inotify_mask(0x1), EventType::Accessed);
    assert_eq!(EventType::from_inotify_mask(0x8), EventType::Modified);
}
