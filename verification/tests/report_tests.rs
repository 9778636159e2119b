use triageir_cli::event_logs::{
    collect_event_logs, filter_events_by_id, filter_events_by_level, find_logon_events,
    find_process_events, get_recent_events, get_security_event_filter, get_system_event_filter,
    get_application_event_filter, EventFilter, RawEventRecord,
};
use triageir_cli::json::serialize_scan_results;
use triageir_cli::prefetch::{parse_prefetch_data, RawPrefetchFile};
use triageir_cli::scan::{run_scan, ScanInputs};
use triageir_cli::shimcache::filetime_to_string;
use triageir_cli::types::EventLogEntry;
use sha2::Digest;

fn empty_inputs() -> ScanInputs {
    ScanInputs {
        username: Some("tester".to_string()),
        domain: Some("LAB".to_string()),
        processes: vec![],
        tcp_rows: Ok(vec![]),
        udp_rows: Ok(vec![]),
        reg_keys: Ok(vec![]),
        startup_folders: Ok(vec![]),
        services: Ok(vec![]),
        tasks_csv: Ok(String::new()),
        security_events: Ok(vec![]),
        system_events: Ok(vec![]),
        application_events: Ok(vec![]),
        prefetch_files: vec![],
        shimcache_blobs: vec![],
    }
}

#[test]
fn test_get_security_event_filter() {
    let filter = get_security_event_filter();
    assert!(filter.contains_id(4624));
    assert!(filter.contains_id(4625));
    assert!(filter.contains_id(4688));
    assert!(filter.contains_id(4720));
    assert_eq!(
        filter.message_for(4624).map(|s| s.as_str()),
        Some("An account was successfully logged on")
    );
}

#[test]
fn test_get_system_event_filter() {
    let filter = get_system_event_filter();
    assert!(filter.contains_id(6005));
    assert!(filter.contains_id(6006));
    assert!(filter.contains_id(7034));
    assert!(filter.contains_id(1001));
    assert_eq!(
        filter.message_for(6005).map(|s| s.as_str()),
        Some("The Event log service was started")
    );
}

#[test]
fn test_get_application_event_filter() {
    let filter = get_application_event_filter();
    assert!(filter.contains_id(1000));
    assert!(filter.contains_id(1001));
    assert!(filter.contains_id(1002));
    assert!(filter.contains_id(1023));
    assert!(filter.contains_id(11707));
    assert_eq!(filter.message_for(1000).map(|s| s.as_str()), Some("Application Error"));
    assert_eq!(
        filter.message_for(11707).map(|s| s.as_str()),
        Some("Installation completed successfully")
    );
}

#[test]
fn test_empty_filter_empty_logs() {
    // Empty curated filters and no records: all three logs are empty and
    // the collection log holds exactly the start and completion lines.
    let empty = EventFilter::new();
    let (logs, entries) = collect_event_logs(
        Ok(vec![]),
        Ok(vec![]),
        Ok(vec![]),
        &empty,
        &empty,
        &empty,
    );
    assert!(logs.security.is_empty());
    assert!(logs.system.is_empty());
    assert!(logs.application.is_empty());
    assert_eq!(entries.len(), 2);
    assert_eq!(entries[0].message, "Starting event log collection");
    assert_eq!(entries[1].message, "Event log collection completed");
    assert_eq!(entries[0].level, "INFO");
    assert_eq!(entries[1].level, "INFO");
}

#[test]
fn test_event_records_filtered_and_sorted() {
    let filter = get_security_event_filter();
    let records = vec![
        RawEventRecord { event_id: 4624, event_type: 8, time_generated: 1700000000 },
        RawEventRecord { event_id: 9999, event_type: 4, time_generated: 1700000100 },
        RawEventRecord { event_id: 4688, event_type: 4, time_generated: 1700000200 },
    ];
    let (logs, _entries) =
        collect_event_logs(Ok(records), Ok(vec![]), Ok(vec![]), &filter, &filter, &filter);
    // The unlisted ID is dropped; newest first.
    assert_eq!(logs.security.len(), 2);
    assert_eq!(logs.security[0].event_id, 4688);
    assert_eq!(logs.security[1].event_id, 4624);
    assert_eq!(logs.security[1].level, "Audit Success");
    assert_eq!(logs.security[0].source, "Security");
    assert!(chrono::DateTime::parse_from_rfc3339(&logs.security[0].timestamp).is_ok());
}

#[test]
fn test_filter_events_by_id() {
    let events = vec![
        EventLogEntry::new(4624, "Information".to_string(), "2023-01-01T00:00:00Z".to_string(), "Logon".to_string()),
        EventLogEntry::new(4625, "Warning".to_string(), "2023-01-01T00:01:00Z".to_string(), "Failed logon".to_string()),
        EventLogEntry::new(4624, "Information".to_string(), "2023-01-01T00:02:00Z".to_string(), "Another logon".to_string()),
    ];
    let logon_events = filter_events_by_id(&events, 4624);
    assert_eq!(logon_events.len(), 2);
    let failed_logon_events = filter_events_by_id(&events, 4625);
    assert_eq!(failed_logon_events.len(), 1);
}

#[test]
fn test_filter_events_by_level() {
    let events = vec![
        EventLogEntry::new(1001, "Information".to_string(), "2023-01-01T00:00:00Z".to_string(), "Info event".to_string()),
        EventLogEntry::new(1002, "Warning".to_string(), "2023-01-01T00:01:00Z".to_string(), "Warning event".to_string()),
        EventLogEntry::new(1003, "Error".to_string(), "2023-01-01T00:02:00Z".to_string(), "Error event".to_string()),
    ];
    assert_eq!(filter_events_by_level(&events, "Information").len(), 1);
    assert_eq!(filter_events_by_level(&events, "Warning").len(), 1);
    assert_eq!(filter_events_by_level(&events, "Error").len(), 1);
}

#[test]
fn test_find_logon_events() {
    let events = vec![
        EventLogEntry::new(4624, "Information".to_string(), "2023-01-01T00:00:00Z".to_string(), "Successful logon".to_string()),
        EventLogEntry::new(4625, "Warning".to_string(), "2023-01-01T00:01:00Z".to_string(), "Failed logon".to_string()),
        EventLogEntry::new(4688, "Information".to_string(), "2023-01-01T00:02:00Z".to_string(), "Process created".to_string()),
        EventLogEntry::new(4634, "Information".to_string(), "2023-01-01T00:03:00Z".to_string(), "Logoff".to_string()),
    ];
    assert_eq!(find_logon_events(&events).len(), 3);
}

#[test]
fn test_find_process_events() {
    let events = vec![
        EventLogEntry::new(4624, "Information".to_string(), "2023-01-01T00:00:00Z".to_string(), "Logon".to_string()),
        EventLogEntry::new(4688, "Information".to_string(), "2023-01-01T00:01:00Z".to_string(), "Process created".to_string()),
        EventLogEntry::new(4689, "Information".to_string(), "2023-01-01T00:02:00Z".to_string(), "Process exited".to_string()),
    ];
    assert_eq!(find_process_events(&events).len(), 2);
}

#[test]
fn test_get_recent_events() {
    let events = vec![
        EventLogEntry::new(1001, "Information".to_string(), "2023-01-01T00:00:00Z".to_string(), "Event 1".to_string()),
        EventLogEntry::new(1002, "Information".to_string(), "2023-01-01T00:02:00Z".to_string(), "Event 2".to_string()),
        EventLogEntry::new(1003, "Information".to_string(), "2023-01-01T00:01:00Z".to_string(), "Event 3".to_string()),
    ];
    let recent = get_recent_events(&events, 2);
    assert_eq!(recent.len(), 2);
    assert_eq!(recent[0].event_id, 1002);
    assert_eq!(recent[1].event_id, 1003);
}

#[test]
fn test_prefetch_fixed_offsets() {
    // 4096 bytes, version word 0x1E at offset 0, run count 7 at offset 12.
    let mut data = vec![0u8; 4096];
    data[0] = 0x1E;
    data[12] = 0x07;
    let pf = parse_prefetch_data(&data, "NOTEPAD.EXE-1A2B3C4D.pf", None);
    assert_eq!(pf.executable_name, "NOTEPAD.EXE");
    assert_eq!(pf.version, 30);
    assert_eq!(pf.run_count, 7);
    assert_eq!(pf.file_size, 4096);
    assert_eq!(pf.hash.len(), 64);
    assert!(pf.hash.chars().all(|c| c.is_ascii_hexdigit() && !c.is_ascii_uppercase()));
    // The hash matches an independent SHA-256 of the same bytes.
    let mut hasher = sha2::Sha256::new();
    hasher.update(&data);
    assert_eq!(pf.hash, hex::encode(hasher.finalize()));
}

#[test]
fn test_filetime_rendering() {
    assert_eq!(filetime_to_string(0), "Not set");
    // 11644473600 seconds after 1601 is the Unix epoch.
    let epoch_ft = 11644473600u64 * 10_000_000;
    let rendered = filetime_to_string(epoch_ft);
    let parsed = chrono::DateTime::parse_from_rfc3339(&rendered).unwrap();
    assert_eq!(parsed.timestamp(), 0);
}

#[test]
fn test_scan_totals_and_log_shape() {
    let results = run_scan(
        "HOST".to_string(),
        "TestOS 1.0".to_string(),
        false,
        empty_inputs(),
    );
    // The artifact total matches the summed collection sizes.
    let a = &results.artifacts;
    let expected = a.running_processes.len()
        + a.network_connections.len()
        + a.persistence_mechanisms.len()
        + a.event_logs.security.len()
        + a.event_logs.system.len()
        + a.event_logs.application.len()
        + a.execution_evidence.prefetch_files.len()
        + a.execution_evidence.shimcache_entries.len();
    assert_eq!(results.scan_metadata.total_artifacts, expected as u64);
    assert!(results.validate().is_ok());
    // Every collection-log level is one of the three, every timestamp
    // parses as RFC 3339.
    for e in &results.collection_log {
        assert!(e.level == "INFO" || e.level == "WARN" || e.level == "ERROR");
        assert!(chrono::DateTime::parse_from_rfc3339(&e.timestamp).is_ok());
    }
    assert!(results.scan_metadata.collection_summary.success_rate <= 100);
}

#[test]
fn test_json_serialization() {
    // The canonical encoding parses as JSON and carries the record's
    // values back, checked with an independent parser.
    let results = run_scan(
        "JSON-HOST".to_string(),
        "TestOS 2.0".to_string(),
        false,
        empty_inputs(),
    );
    let bytes = serialize_scan_results(&results);
    let text = String::from_utf8(bytes).unwrap();
    let value: serde_json::Value = serde_json::from_str(&text).unwrap();
    assert_eq!(
        value["scan_metadata"]["hostname"].as_str().unwrap(),
        "JSON-HOST"
    );
    assert_eq!(
        value["scan_metadata"]["os_version"].as_str().unwrap(),
        "TestOS 2.0"
    );
    assert_eq!(
        value["scan_metadata"]["scan_id"].as_str().unwrap(),
        results.scan_metadata.scan_id
    );
    assert_eq!(
        value["scan_metadata"]["total_artifacts"].as_u64().unwrap(),
        results.scan_metadata.total_artifacts
    );
    let logs = value["collection_log"].as_array().unwrap();
    assert_eq!(logs.len(), results.collection_log.len());
    for (v, e) in logs.iter().zip(results.collection_log.iter()) {
        assert_eq!(v["timestamp"].as_str().unwrap(), e.timestamp);
        assert_eq!(v["level"].as_str().unwrap(), e.level);
        assert_eq!(v["message"].as_str().unwrap(), e.message);
    }
    assert!(value["artifacts"]["running_processes"].as_array().unwrap().is_empty());
    assert_eq!(
        value["artifacts"]["system_info"]["logged_on_users"]
            .as_array()
            .unwrap()
            .len(),
        1
    );
}

#[test]
fn test_json_escaping_round_trip() {
    // Strings with quotes, backslashes and control characters survive an
    // independent parse of the canonical encoding.
    let mut results = run_scan("H".to_string(), "OS".to_string(), false, empty_inputs());
    results.scan_metadata.hostname = "we\"ird\\path\nline\ttab".to_string();
    let bytes = serialize_scan_results(&results);
    let text = String::from_utf8(bytes).unwrap();
    let value: serde_json::Value = serde_json::from_str(&text).unwrap();
    assert_eq!(
        value["scan_metadata"]["hostname"].as_str().unwrap(),
        "we\"ird\\path\nline\ttab"
    );
}

#[test]
fn test_validate_accepts_uppercase_uuid() {
    // The standard hyphenated form is accepted in either case, as a UUID
    // parser would.
    let mut results = run_scan("H".to_string(), "OS".to_string(), false, empty_inputs());
    results.scan_metadata.scan_id = results.scan_metadata.scan_id.to_uppercase();
    assert!(results.validate().is_ok());
}

#[test]
fn test_filetime_past_four_digit_years() {
    // An adversarial FILETIME far in the future renders as the invalid
    // marker rather than a five-digit year.
    let year10000 = (11644473600u64 + 253402300800u64) * 10_000_000;
    assert_eq!(filetime_to_string(year10000), "Invalid timestamp");
}

#[test]
fn test_summary_covers_collection_log() {
    // The summary is computed over the final collection log, collector
    // entries included: recounting the levels reproduces it exactly.
    let mut inputs = empty_inputs();
    inputs.reg_keys = Err("access denied".to_string());
    inputs.services = Err("service manager unavailable".to_string());
    let results = run_scan(
        "HOST".to_string(),
        "TestOS 1.0".to_string(),
        false,
        inputs,
    );
    let total = results.collection_log.len() as u64;
    let errors = results
        .collection_log
        .iter()
        .filter(|e| e.level == "ERROR")
        .count() as u64;
    let warns = results
        .collection_log
        .iter()
        .filter(|e| e.level == "WARN")
        .count() as u64;
    let summary = &results.scan_metadata.collection_summary;
    assert_eq!(summary.total_logs, total);
    assert_eq!(summary.error_count, errors);
    assert_eq!(summary.warning_count, warns);
    assert!(warns >= 2, "each failed source leaves a WARN entry");
    assert_eq!(summary.success_rate, (total - errors) * 100 / total);
}

#[test]
fn test_most_executed_top_k_optimality() {
    fn pf(name: &str, runs: u32) -> triageir_cli::forensic_types::PrefetchFile {
        triageir_cli::forensic_types::PrefetchFile {
            filename: format!("{}.pf", name),
            executable_name: name.to_string(),
            run_count: runs,
            last_run_time: "Unknown".to_string(),
            creation_time: "Unknown".to_string(),
            file_size: 0,
            hash: String::new(),
            version: 30,
            referenced_files: vec![],
            volumes: vec![],
        }
    }
    let files = vec![pf("a", 1), pf("b", 9), pf("c", 5), pf("d", 9)];
    let top = triageir_cli::prefetch::get_most_executed_programs(&files, 2);
    assert_eq!(top.len(), 2);
    assert_eq!(top[0].1, 9);
    assert_eq!(top[1].1, 9);
    // Every omitted file ran no more often than the least kept one.
    assert!(files
        .iter()
        .filter(|f| f.run_count != 9)
        .all(|f| f.run_count <= top[1].1));
}

#[test]
fn test_recent_events_keep_newest() {
    fn ev(id: u32, ts: &str) -> EventLogEntry {
        EventLogEntry {
            event_id: id,
            level: "Information".to_string(),
            timestamp: ts.to_string(),
            message: String::new(),
            source: "Security".to_string(),
        }
    }
    let events = vec![
        ev(1, "2024-01-01T00:00:00+00:00"),
        ev(2, "2024-03-01T00:00:00+00:00"),
        ev(3, "2024-02-01T00:00:00+00:00"),
    ];
    let recent = get_recent_events(&events, 2);
    assert_eq!(recent.len(), 2);
    assert_eq!(recent[0].event_id, 2);
    assert_eq!(recent[1].event_id, 3);
}

#[test]
fn test_win10_entry_path_and_timestamps() {
    // A Windows-10 entry: path words at 0 and 2, file size at 8, the two
    // FILETIME fields at 16 and 24, and the UTF-16 path bytes at 32.
    let path: &[u8] = &[0x61, 0x00, 0x62, 0x00, 0x63, 0x00, 0x64, 0x00]; // "abcd"
    let mut data = vec![0u8; 32];
    data[0] = 8; // path length
    data[2] = 32; // path offset
    data[8] = 77; // file size
    // last_modified zero stays "Not set"; last_update is 2009-02-13
    // 23:31:30 UTC.
    let ft: u64 = 128790414900000000;
    data[24..32].copy_from_slice(&ft.to_le_bytes());
    data.extend_from_slice(path);
    let parsed = triageir_cli::shimcache::parse_windows10_entry(&data).unwrap();
    assert_eq!(parsed.entry.path, "abcd");
    assert_eq!(parsed.entry.file_size, 77);
    assert_eq!(parsed.entry.last_modified, "Not set");
    assert_eq!(parsed.entry.last_update, "2009-02-13T23:31:30+00:00");
    assert_eq!(parsed.size, 40);
    assert!(parsed.entry.execution_flag);
}
