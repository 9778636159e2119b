use triageir_cli::errors::{ErrorKind, ForensicError, handle_error_gracefully, retry_operation};
use triageir_cli::logger::{Logger, format_message};
use triageir_cli::types::{
    Artifacts, EventLogEntry, EventLogs, LogEntry, LogLevel, NetworkConnection,
    PersistenceMechanism, PersistenceType, Process, ProcessModule, ScanResults,
};
use triageir_cli::scan::parse_collection_filter;
use triageir_cli::system_info::collect_system_info;

#[test]
fn test_logger_basic_functionality() {
    let mut logger = Logger::new(false);
    logger.info("Test info message");
    logger.warn("Test warning message");
    logger.error("Test error message");
    let entries = logger.get_entries();
    assert_eq!(entries.len(), 3);
    assert_eq!(entries[0].level, "INFO");
    assert_eq!(entries[0].message, "Test info message");
    assert_eq!(entries[1].level, "WARN");
    assert_eq!(entries[1].message, "Test warning message");
    assert_eq!(entries[2].level, "ERROR");
    assert_eq!(entries[2].message, "Test error message");
}

#[test]
fn test_logger_summary() {
    let mut logger = Logger::new(false);
    logger.info("Info 1");
    logger.info("Info 2");
    logger.warn("Warning 1");
    logger.error("Error 1");
    let summary = logger.get_summary();
    assert_eq!(summary.total_count, 4);
    assert_eq!(summary.info_count, 2);
    assert_eq!(summary.warn_count, 1);
    assert_eq!(summary.error_count, 1);
    assert!(summary.has_errors());
    assert!(summary.has_warnings());
    assert_eq!(summary.success_rate(), 75);
}

#[test]
fn test_logger_filtering() {
    let mut logger = Logger::new(false);
    logger.info("Info message");
    logger.warn("Warning message");
    logger.error("Error message");
    let info_entries = logger.get_entries_by_level(LogLevel::Info);
    assert_eq!(info_entries.len(), 1);
    assert_eq!(info_entries[0].message, "Info message");
    let error_count = logger.get_count_by_level(LogLevel::Error);
    assert_eq!(error_count, 1);
}

#[test]
fn test_logger_memory_management_under_stress() {
    let mut logger = Logger::new(false);
    for i in 0..15000u32 {
        if i % 3 == 0 {
            logger.error(&format!("Error message {}", i));
        } else if i % 3 == 1 {
            logger.warn(&format!("Warning message {}", i));
        } else {
            logger.info(&format!("Info message {}", i));
        }
    }
    let entries = logger.get_entries();
    assert!(entries.len() <= 10000);
    // The most recent entries survive the cap.
    assert_eq!(entries.last().unwrap().message, "Info message 14999");
    let summary = logger.get_summary();
    assert!(summary.total_count <= 10000);
    assert!(summary.error_count > 0);
    assert!(summary.warn_count > 0);
    assert!(summary.info_count > 0);
    let rate = summary.success_rate();
    assert!(rate <= 100);
}

#[test]
fn test_forensic_error_creation() {
    let error = ForensicError::access_denied("Cannot access registry key");
    assert_eq!(error.kind, ErrorKind::AccessDenied);
    assert_eq!(error.message, "Cannot access registry key");
    let error_with_context =
        ForensicError::with_context(ErrorKind::SystemApiError, "API call failed", "GetProcessList");
    assert_eq!(error_with_context.context, Some("GetProcessList".to_string()));
}

#[test]
fn test_error_classification() {
    let access_error = ForensicError::access_denied("Access denied");
    assert!(!access_error.is_fatal());
    assert!(!access_error.is_retryable());
    let system_error = ForensicError::system_api_error("System API failed");
    assert!(system_error.is_fatal());
    assert!(!system_error.is_retryable());
    let network_error = ForensicError::new(ErrorKind::NetworkError, "Connection failed");
    assert!(!network_error.is_fatal());
    assert!(network_error.is_retryable());
}

#[test]
fn test_user_friendly_messages() {
    let access_error = ForensicError::access_denied("Registry access failed");
    let user_msg = access_error.user_message();
    assert!(user_msg.contains("Try running as administrator"));
    let not_found_error = ForensicError::not_found("File not found");
    let user_msg = not_found_error.user_message();
    assert!(user_msg.contains("This is normal for some systems"));
}

#[test]
fn test_error_context_preservation() {
    let error_with_context = ForensicError::with_context(
        ErrorKind::SystemApiError,
        "Failed to enumerate processes",
        "CreateToolhelp32Snapshot",
    );
    let error_string = error_with_context.display_string();
    assert!(error_string.contains("CreateToolhelp32Snapshot"));
    assert!(error_string.contains("Failed to enumerate processes"));
    assert!(error_string.contains("SYSTEM_API_ERROR"));
    let user_message = error_with_context.user_message();
    assert!(user_message.contains("System error"));
    assert!(user_message.contains("system issue"));
}

#[test]
fn test_forensic_error_classification() {
    let fatal_errors = vec![
        ForensicError::system_api_error("System API failed"),
        ForensicError::invalid_data("Invalid data format"),
    ];
    for error in &fatal_errors {
        assert!(error.is_fatal());
        assert!(!error.is_retryable());
    }
    let retryable_errors = vec![
        ForensicError::new(ErrorKind::NetworkError, "Network timeout"),
        ForensicError::new(ErrorKind::Timeout, "Operation timeout"),
    ];
    for error in &retryable_errors {
        assert!(error.is_retryable());
        assert!(!error.is_fatal());
    }
    let other_errors = vec![
        ForensicError::access_denied("Access denied"),
        ForensicError::not_found("File not found"),
    ];
    for error in &other_errors {
        assert!(!error.is_fatal());
        assert!(!error.is_retryable());
    }
}

#[test]
fn test_format_message() {
    let formatted = format_message(
        "Found {0} processes with {1} connections",
        &["42".to_string(), "TCP".to_string()],
    );
    assert_eq!(formatted, "Found 42 processes with TCP connections");
}

#[test]
fn test_retry_operation() {
    // A network error twice, then success: three attempts and Ok.
    let mut logger = Logger::new(false);
    let outcomes: Vec<Result<&str, ForensicError>> = vec![
        Err(ForensicError::new(ErrorKind::NetworkError, "Temporary failure")),
        Err(ForensicError::new(ErrorKind::NetworkError, "Temporary failure")),
        Ok("Success"),
    ];
    let (result, attempts) = retry_operation(outcomes, 3, &mut logger);
    assert!(result.is_ok());
    assert_eq!(result.unwrap(), "Success");
    assert_eq!(attempts, 3);
    // Access denied is not retryable: exactly one attempt, and Err.
    let outcomes2: Vec<Result<&str, ForensicError>> = vec![
        Err(ForensicError::access_denied("no")),
        Ok("unused"),
        Ok("unused"),
    ];
    let (result2, attempts2) = retry_operation(outcomes2, 3, &mut logger);
    assert!(result2.is_err());
    assert_eq!(attempts2, 1);
}

#[test]
fn test_handle_error_gracefully() {
    let mut logger = Logger::new(false);
    let success_result: Result<i32, ForensicError> = Ok(42);
    let handled = handle_error_gracefully(success_result, &mut logger, "test_operation");
    assert_eq!(handled, Some(42));
    let error_result: Result<i32, ForensicError> =
        Err(ForensicError::access_denied("Access denied"));
    let handled = handle_error_gracefully(error_result, &mut logger, "test_operation");
    assert_eq!(handled, None);
    let entries = logger.get_entries();
    assert!(entries
        .iter()
        .any(|e| e.level == "WARN" && e.message.contains("test_operation")));
}

#[test]
fn test_graceful_degradation_levels() {
    // A fatal error is logged at ERROR, access denied at WARN, success
    // logs nothing.
    let mut logger = Logger::new(false);
    let fatal: Result<i32, ForensicError> = Err(ForensicError::system_api_error("api down"));
    assert_eq!(handle_error_gracefully(fatal, &mut logger, "op_a"), None);
    assert_eq!(logger.get_entries().last().unwrap().level, "ERROR");
    let denied: Result<i32, ForensicError> = Err(ForensicError::access_denied("locked"));
    assert_eq!(handle_error_gracefully(denied, &mut logger, "op_b"), None);
    assert_eq!(logger.get_entries().last().unwrap().level, "WARN");
    let before = logger.get_entries().len();
    let ok: Result<i32, ForensicError> = Ok(7);
    assert_eq!(handle_error_gracefully(ok, &mut logger, "op_c"), Some(7));
    assert_eq!(logger.get_entries().len(), before);
}

#[test]
fn test_error_handling_in_collection() {
    let mut logger = Logger::new(false);
    logger.info("Simulating system info collection");
    let r1: Result<String, ForensicError> = Ok("System info collected".to_string());
    logger.warn("Simulating process enumeration with warnings");
    let r2: Result<String, ForensicError> =
        Err(ForensicError::access_denied("Some processes inaccessible"));
    logger.info("Simulating network scan");
    let r3: Result<String, ForensicError> = Ok("Network connections collected".to_string());
    let mut successful_ops = 0;
    if handle_error_gracefully(r1, &mut logger, "system_info").is_some() {
        successful_ops += 1;
    }
    if handle_error_gracefully(r2, &mut logger, "process_enum").is_some() {
        successful_ops += 1;
    }
    if handle_error_gracefully(r3, &mut logger, "network_scan").is_some() {
        successful_ops += 1;
    }
    assert!(successful_ops > 0);
    let summary = logger.get_summary();
    assert!(summary.total_count > 0);
}

#[test]
fn test_verbose_mode_behavior() {
    let mut verbose_logger = Logger::new(true);
    let mut quiet_logger = Logger::new(false);
    verbose_logger.info("Verbose test message");
    quiet_logger.info("Quiet test message");
    assert_eq!(verbose_logger.get_entries().len(), 1);
    assert_eq!(quiet_logger.get_entries().len(), 1);
}

#[test]
fn test_verbose_mode_stderr_output() {
    let mut verbose_logger = Logger::new(true);
    let mut quiet_logger = Logger::new(false);
    verbose_logger.info("Verbose test message");
    quiet_logger.info("Quiet test message");
    assert_eq!(verbose_logger.get_entries().len(), 1);
    assert_eq!(quiet_logger.get_entries().len(), 1);
}

#[test]
fn test_log_entry_creation() {
    let log = LogEntry::info("Test message");
    assert_eq!(log.level, "INFO");
    assert_eq!(log.message, "Test message");
    assert!(!log.timestamp.is_empty());
    let warn_log = LogEntry::warn("Warning message");
    assert_eq!(warn_log.level, "WARN");
    let error_log = LogEntry::error("Error message");
    assert_eq!(error_log.level, "ERROR");
}

#[test]
fn test_log_entry_timestamps_parse() {
    // Every timestamp the library stamps parses as RFC 3339.
    let log = LogEntry::info("x");
    assert!(chrono::DateTime::parse_from_rfc3339(&log.timestamp).is_ok());
}

#[test]
fn test_scan_results_creation() {
    let results = ScanResults::new("TEST-HOST".to_string(), "Windows 10".to_string());
    assert_eq!(results.scan_metadata.hostname, "TEST-HOST");
    assert_eq!(results.scan_metadata.os_version, "Windows 10");
    assert!(!results.scan_metadata.scan_id.is_empty());
    assert!(!results.scan_metadata.scan_start_utc.is_empty());
    assert_eq!(results.scan_metadata.scan_duration_ms, 0);
    // The scan id parses as a version-4 UUID, the start as RFC 3339.
    let parsed = uuid::Uuid::parse_str(&results.scan_metadata.scan_id).unwrap();
    assert_eq!(parsed.get_version_num(), 4);
    assert!(chrono::DateTime::parse_from_rfc3339(&results.scan_metadata.scan_start_utc).is_ok());
    // Two scans carry distinct ids.
    let other = ScanResults::new("TEST-HOST".to_string(), "Windows 10".to_string());
    assert_ne!(results.scan_metadata.scan_id, other.scan_metadata.scan_id);
}

#[test]
fn test_scan_results_validation() {
    let results = ScanResults::new("TEST-HOST".to_string(), "Windows 10".to_string());
    assert!(results.validate().is_ok());
    let mut invalid_results = results.clone();
    invalid_results.scan_metadata.scan_id = "invalid-uuid".to_string();
    assert!(invalid_results.validate().is_err());
}

#[test]
fn test_process_creation() {
    let process = Process::new(
        1234,
        5678,
        "test.exe".to_string(),
        "test.exe --arg".to_string(),
        "C:\\test.exe".to_string(),
    );
    assert_eq!(process.pid, 1234);
    assert_eq!(process.parent_pid, 5678);
    assert_eq!(process.name, "test.exe");
    assert!(process.has_executable_path());
    assert_eq!(process.module_count(), 0);
}

#[test]
fn test_process_module_system_detection() {
    let system_module = ProcessModule::new(
        "kernel32.dll".to_string(),
        "C:\\Windows\\System32\\kernel32.dll".to_string(),
        "0x7FF800000000".to_string(),
        1024000,
        "10.0.19041.1".to_string(),
    );
    assert!(system_module.is_system_module());
    let user_module = ProcessModule::new(
        "custom.dll".to_string(),
        "C:\\Program Files\\MyApp\\custom.dll".to_string(),
        "0x7FF900000000".to_string(),
        512000,
        "1.0.0.0".to_string(),
    );
    assert!(!user_module.is_system_module());
}

#[test]
fn test_network_connection_external_detection() {
    let external_conn = NetworkConnection::new(
        "TCP".to_string(),
        "192.168.1.100:12345".to_string(),
        "8.8.8.8:80".to_string(),
        "ESTABLISHED".to_string(),
        1234,
    );
    assert!(external_conn.is_external());
    let local_conn = NetworkConnection::new(
        "TCP".to_string(),
        "127.0.0.1:12345".to_string(),
        "127.0.0.1:80".to_string(),
        "ESTABLISHED".to_string(),
        1234,
    );
    assert!(!local_conn.is_external());
}

#[test]
fn test_persistence_mechanism_creation() {
    let mechanism = PersistenceMechanism::new(
        PersistenceType::RegistryRunKey.as_str().to_string(),
        "TestApp".to_string(),
        "C:\\test.exe".to_string(),
        "HKLM\\Software\\Microsoft\\Windows\\CurrentVersion\\Run".to_string(),
    );
    assert_eq!(mechanism.mechanism_type, "Registry Run Key");
    assert_eq!(mechanism.name, "TestApp");
}

#[test]
fn test_artifacts_count() {
    let mut artifacts = Artifacts::default();
    assert_eq!(artifacts.total_artifact_count(), 0);
    artifacts.running_processes.push(Process::new(
        1,
        0,
        "test".to_string(),
        "test".to_string(),
        "test".to_string(),
    ));
    artifacts.network_connections.push(NetworkConnection::new(
        "TCP".to_string(),
        "local".to_string(),
        "remote".to_string(),
        "ESTABLISHED".to_string(),
        1,
    ));
    assert_eq!(artifacts.total_artifact_count(), 2);
}

#[test]
fn test_event_logs_count() {
    let mut event_logs = EventLogs::default();
    assert_eq!(event_logs.total_entries(), 0);
    event_logs.security.push(EventLogEntry::new_with_source(
        4624,
        "Information".to_string(),
        "2023-01-01T00:00:00Z".to_string(),
        "Logon".to_string(),
        "Security".to_string(),
    ));
    event_logs.system.push(EventLogEntry::new_with_source(
        1001,
        "Information".to_string(),
        "2023-01-01T00:00:00Z".to_string(),
        "System".to_string(),
        "System".to_string(),
    ));
    assert_eq!(event_logs.total_entries(), 2);
}

#[test]
fn test_parse_collection_filter() {
    let filter = parse_collection_filter(&None);
    assert!(filter.is_empty());
    let filter = parse_collection_filter(&Some("processes".to_string()));
    assert_eq!(filter, vec!["processes"]);
    let filter = parse_collection_filter(&Some("processes,network,events".to_string()));
    assert_eq!(filter, vec!["processes", "network", "events"]);
    let filter = parse_collection_filter(&Some(" processes , network , events ".to_string()));
    assert_eq!(filter, vec!["processes", "network", "events"]);
    let filter = parse_collection_filter(&Some("PROCESSES,Network,EvEnTs".to_string()));
    assert_eq!(filter, vec!["processes", "network", "events"]);
}

#[test]
fn test_collect_system_info() {
    let (system_info, logs) = collect_system_info(Some("tester".to_string()), None);
    assert!(!logs.is_empty());
    assert_eq!(system_info.logged_on_users.len(), 1);
    assert_eq!(system_info.logged_on_users[0].username, "tester");
    assert_eq!(system_info.logged_on_users[0].domain, "WORKGROUP");
    assert!(logs
        .iter()
        .any(|log| log.message.contains("Starting system information")));
    assert!(logs.iter().any(|log| log.message.contains("completed")));
}

#[test]
fn test_validate_error_messages() {
    let mut r = ScanResults::new("HOST".to_string(), "OS".to_string());
    r.scan_metadata.hostname = String::new();
    assert_eq!(r.validate().unwrap_err(), "Hostname cannot be empty");
    let mut r = ScanResults::new("HOST".to_string(), "OS".to_string());
    r.scan_metadata.scan_id = "not-a-uuid".to_string();
    assert_eq!(r.validate().unwrap_err(), "Invalid UUID format for scan_id");
    let mut r = ScanResults::new("HOST".to_string(), "OS".to_string());
    r.scan_metadata.scan_id = String::new();
    assert_eq!(r.validate().unwrap_err(), "Scan ID cannot be empty");
    let mut r = ScanResults::new("HOST".to_string(), "OS".to_string());
    r.scan_metadata.scan_start_utc = "yesterday".to_string();
    assert_eq!(
        r.validate().unwrap_err(),
        "Invalid timestamp format for scan_start_utc"
    );
}

#[test]
fn test_build_process_tree_exact_pairs() {
    fn proc(pid: u32, parent: u32) -> Process {
        Process {
            pid,
            parent_pid: parent,
            name: format!("p{}", pid),
            command_line: String::new(),
            executable_path: String::new(),
            sha256_hash: "N/A".to_string(),
            user: String::new(),
            memory_usage_kb: 0,
            loaded_modules: vec![],
        }
    }
    let procs = vec![proc(1, 0), proc(2, 1), proc(3, 1), proc(4, 3)];
    let tree = triageir_cli::processes::build_process_tree(&procs);
    // One entry per process with children, in process order, no
    // duplicates and no childless keys.
    assert_eq!(tree.len(), 2);
    assert_eq!(tree[0].0, 1);
    assert_eq!(tree[0].1, vec![2, 3]);
    assert_eq!(tree[1].0, 3);
    assert_eq!(tree[1].1, vec![4]);
}
