use triageir_cli::network::{
    collect_network_connections, connection_from_tcp_row, filter_connections_by_protocol,
    filter_external_connections, format_ip_address, format_tcp_state, get_network_active_pids,
    group_connections_by_process, TcpRow, UdpRow,
};
use triageir_cli::persistence::{
    collect_persistence_mechanisms, extract_task_name, find_column_index, hive_to_string,
    is_mechanism_suspicious, is_potentially_suspicious_service, is_suspicious_task_command,
    filter_mechanisms_by_type, parse_csv_line, Hive, RegRunKey,
};
use triageir_cli::types::{NetworkConnection, PersistenceMechanism};
use triageir_cli::prefetch::{get_prefetch_statistics, parse_prefetch_data};
use triageir_cli::errors::{ErrorKind, ForensicError, retry_operation};
use triageir_cli::logger::Logger;

#[test]
fn test_format_ip_address() {
    assert_eq!(format_ip_address(0x0100007F), "127.0.0.1");
    assert_eq!(format_ip_address(0x08080808), "8.8.8.8");
}

#[test]
fn test_format_tcp_state() {
    assert_eq!(format_tcp_state(2), "LISTEN");
    assert_eq!(format_tcp_state(5), "ESTABLISHED");
    assert_eq!(format_tcp_state(11), "TIME_WAIT");
    assert_eq!(format_tcp_state(999), "UNKNOWN(999)");
}

#[test]
fn test_tcp_row_rendering() {
    // State 5 with loopback local and a public remote end.
    let row = TcpRow {
        local_addr: 0x0100007F,
        local_port: 0x901F, // 8080 in network order
        remote_addr: 0x08080808,
        remote_port: 0x5000, // 80 in network order
        state: 5,
        owning_pid: 1234,
    };
    let conn = connection_from_tcp_row(&row);
    assert_eq!(conn.protocol, "TCP");
    assert_eq!(conn.local_address, "127.0.0.1");
    assert_eq!(conn.local_port, 8080);
    assert_eq!(conn.remote_address, "8.8.8.8");
    assert_eq!(conn.remote_port, 80);
    assert_eq!(conn.state, "ESTABLISHED");
    assert!(conn.is_external());
}

#[test]
fn test_collect_network_connections() {
    let tcp = vec![TcpRow {
        local_addr: 0x0100007F,
        local_port: 0x901F,
        remote_addr: 0x08080808,
        remote_port: 0x5000,
        state: 5,
        owning_pid: 42,
    }];
    let udp = vec![UdpRow { local_addr: 0, local_port: 0x3500, owning_pid: 7 }];
    let (connections, logs) = collect_network_connections(Ok(tcp), Ok(udp));
    assert_eq!(connections.len(), 2);
    assert!(!logs.is_empty());
    assert!(logs
        .iter()
        .any(|log| log.message.contains("Starting network connection")));
    assert!(logs.iter().any(|log| log.message.contains("completed")));
    for i in 1..connections.len() {
        assert!(connections[i - 1].protocol <= connections[i].protocol);
    }
}

#[test]
fn test_get_network_active_pids() {
    let connections = vec![
        NetworkConnection::new(
            "TCP".to_string(),
            "127.0.0.1:80".to_string(),
            "127.0.0.1:12345".to_string(),
            "ESTABLISHED".to_string(),
            1234,
        ),
        NetworkConnection::new(
            "TCP".to_string(),
            "127.0.0.1:443".to_string(),
            "127.0.0.1:12346".to_string(),
            "ESTABLISHED".to_string(),
            1234,
        ),
        NetworkConnection::new(
            "UDP".to_string(),
            "0.0.0.0:53".to_string(),
            "*:*".to_string(),
            "LISTENING".to_string(),
            5678,
        ),
    ];
    let pids = get_network_active_pids(&connections);
    assert_eq!(pids.len(), 2);
    assert!(pids.contains(&1234));
    assert!(pids.contains(&5678));
}

#[test]
fn test_filter_connections_by_protocol() {
    let connections = vec![
        NetworkConnection::new(
            "TCP".to_string(),
            "127.0.0.1:80".to_string(),
            "127.0.0.1:12345".to_string(),
            "ESTABLISHED".to_string(),
            1234,
        ),
        NetworkConnection::new(
            "UDP".to_string(),
            "0.0.0.0:53".to_string(),
            "*:*".to_string(),
            "LISTENING".to_string(),
            5678,
        ),
        NetworkConnection::new(
            "TCP".to_string(),
            "127.0.0.1:443".to_string(),
            "127.0.0.1:12346".to_string(),
            "ESTABLISHED".to_string(),
            1234,
        ),
    ];
    let tcp_connections = filter_connections_by_protocol(&connections, "TCP");
    assert_eq!(tcp_connections.len(), 2);
    let udp_connections = filter_connections_by_protocol(&connections, "UDP");
    assert_eq!(udp_connections.len(), 1);
}

#[test]
fn test_filter_external_connections() {
    let connections = vec![
        NetworkConnection::new(
            "TCP".to_string(),
            "192.168.1.100:12345".to_string(),
            "8.8.8.8:80".to_string(),
            "ESTABLISHED".to_string(),
            1234,
        ),
        NetworkConnection::new(
            "TCP".to_string(),
            "127.0.0.1:80".to_string(),
            "127.0.0.1:12345".to_string(),
            "ESTABLISHED".to_string(),
            5678,
        ),
        NetworkConnection::new(
            "TCP".to_string(),
            "192.168.1.100:12346".to_string(),
            "1.1.1.1:443".to_string(),
            "ESTABLISHED".to_string(),
            1234,
        ),
    ];
    let external = filter_external_connections(&connections);
    assert_eq!(external.len(), 2);
    assert!(external.iter().all(|c| c.is_external()));
}

#[test]
fn test_group_connections_by_process() {
    let connections = vec![
        NetworkConnection::new(
            "TCP".to_string(),
            "127.0.0.1:80".to_string(),
            "127.0.0.1:12345".to_string(),
            "ESTABLISHED".to_string(),
            1234,
        ),
        NetworkConnection::new(
            "TCP".to_string(),
            "127.0.0.1:443".to_string(),
            "127.0.0.1:12346".to_string(),
            "ESTABLISHED".to_string(),
            1234,
        ),
        NetworkConnection::new(
            "UDP".to_string(),
            "0.0.0.0:53".to_string(),
            "*:*".to_string(),
            "LISTENING".to_string(),
            5678,
        ),
    ];
    let grouped = group_connections_by_process(&connections);
    assert_eq!(grouped.len(), 2);
    let g1234 = grouped.iter().find(|g| g.0 == 1234).unwrap();
    assert_eq!(g1234.1.len(), 2);
    let g5678 = grouped.iter().find(|g| g.0 == 5678).unwrap();
    assert_eq!(g5678.1.len(), 1);
}

#[test]
fn test_is_potentially_suspicious_service() {
    assert!(!is_potentially_suspicious_service(
        "wuauserv",
        "C:\\Windows\\System32\\svchost.exe"
    ));
    assert!(is_potentially_suspicious_service("malware", "C:\\Temp\\malware.exe"));
    assert!(is_potentially_suspicious_service("script", "C:\\Windows\\script.bat"));
    assert!(is_potentially_suspicious_service("custom", "C:\\CustomApp\\service.exe"));
}

#[test]
fn test_is_mechanism_suspicious() {
    let suspicious_mechanism = PersistenceMechanism::new(
        "Registry Run Key".to_string(),
        "malware".to_string(),
        "C:\\Temp\\malware.exe".to_string(),
        "HKLM\\SOFTWARE\\Microsoft\\Windows\\CurrentVersion\\Run".to_string(),
    );
    assert!(is_mechanism_suspicious(&suspicious_mechanism));
    let normal_mechanism = PersistenceMechanism::new(
        "Registry Run Key".to_string(),
        "Adobe Updater".to_string(),
        "C:\\Program Files\\Adobe\\Updater\\updater.exe".to_string(),
        "HKLM\\SOFTWARE\\Microsoft\\Windows\\CurrentVersion\\Run".to_string(),
    );
    assert!(!is_mechanism_suspicious(&normal_mechanism));
    let powershell_mechanism = PersistenceMechanism::new(
        "Registry Run Key".to_string(),
        "script".to_string(),
        "powershell.exe -ExecutionPolicy Bypass -File C:\\script.ps1".to_string(),
        "HKCU\\SOFTWARE\\Microsoft\\Windows\\CurrentVersion\\Run".to_string(),
    );
    assert!(is_mechanism_suspicious(&powershell_mechanism));
}

#[test]
fn test_filter_mechanisms_by_type() {
    let mechanisms = vec![
        PersistenceMechanism::new(
            "Registry Run Key".to_string(),
            "app1".to_string(),
            "cmd1".to_string(),
            "source1".to_string(),
        ),
        PersistenceMechanism::new(
            "Startup Folder".to_string(),
            "app2".to_string(),
            "cmd2".to_string(),
            "source2".to_string(),
        ),
        PersistenceMechanism::new(
            "Registry Run Key".to_string(),
            "app3".to_string(),
            "cmd3".to_string(),
            "source3".to_string(),
        ),
    ];
    let run_keys = filter_mechanisms_by_type(&mechanisms, "Registry Run Key");
    assert_eq!(run_keys.len(), 2);
    let startup = filter_mechanisms_by_type(&mechanisms, "Startup Folder");
    assert_eq!(startup.len(), 1);
}

#[test]
fn test_hive_to_string() {
    assert_eq!(hive_to_string(&Hive::LocalMachine), "HKLM");
    assert_eq!(hive_to_string(&Hive::CurrentUser), "HKCU");
    assert_eq!(hive_to_string(&Hive::ClassesRoot), "HKCR");
}

#[test]
fn test_is_suspicious_task_command() {
    assert!(is_suspicious_task_command("powershell.exe -ExecutionPolicy Bypass"));
    assert!(is_suspicious_task_command("cmd.exe /c malware.bat"));
    assert!(is_suspicious_task_command("C:\\Temp\\malware.exe"));
    assert!(is_suspicious_task_command("wscript.exe script.vbs"));
    assert!(!is_suspicious_task_command(
        "C:\\Program Files\\Adobe\\Updater\\updater.exe"
    ));
    assert!(!is_suspicious_task_command("C:\\Windows\\System32\\svchost.exe"));
}

#[test]
fn test_parse_csv_line() {
    let line = r#""Task Name","Status","Run As User""#;
    let fields = parse_csv_line(line);
    assert_eq!(fields.len(), 3);
    assert_eq!(fields[0], "Task Name");
    assert_eq!(fields[1], "Status");
    assert_eq!(fields[2], "Run As User");
    let line_with_commas = r#""Adobe Acrobat Update Task","Ready","NT AUTHORITY\SYSTEM""#;
    let fields = parse_csv_line(line_with_commas);
    assert_eq!(fields.len(), 3);
    assert_eq!(fields[0], "Adobe Acrobat Update Task");
    assert_eq!(fields[1], "Ready");
    assert_eq!(fields[2], "NT AUTHORITY\\SYSTEM");
}

#[test]
fn test_find_column_index() {
    let columns = vec![
        "TaskName".to_string(),
        "Status".to_string(),
        "Run As User".to_string(),
    ];
    assert_eq!(find_column_index(&columns, "TaskName"), Some(0));
    assert_eq!(find_column_index(&columns, "Status"), Some(1));
    assert_eq!(find_column_index(&columns, "Run As User"), Some(2));
    assert_eq!(find_column_index(&columns, "NonExistent"), None);
}

#[test]
fn test_extract_task_name() {
    assert_eq!(
        extract_task_name("\\Microsoft\\Windows\\UpdateOrchestrator\\Schedule Scan"),
        "Schedule Scan"
    );
    assert_eq!(extract_task_name("\\Adobe Updater Task"), "Adobe Updater Task");
    assert_eq!(extract_task_name("SimpleTask"), "SimpleTask");
}

#[test]
fn test_registry_run_key_record() {
    // A single HKCU run-key value yields one user-hive record with the
    // suspicious flag set by the temp-path heuristic.
    let keys = vec![RegRunKey {
        hive: Hive::CurrentUser,
        path: "SOFTWARE\\Microsoft\\Windows\\CurrentVersion\\Run".to_string(),
        values: vec![("Updater".to_string(), "C:\\Temp\\u.exe".to_string())],
    }];
    let (mechanisms, _logs) =
        collect_persistence_mechanisms(Ok(keys), Ok(vec![]), Ok(vec![]), Ok(String::new()));
    assert_eq!(mechanisms.len(), 1);
    assert_eq!(mechanisms[0].mechanism_type, "Registry Run Key (User)");
    assert_eq!(mechanisms[0].name, "Updater");
    assert_eq!(mechanisms[0].command, "C:\\Temp\\u.exe");
    assert!(mechanisms[0].is_suspicious);
}

#[test]
fn test_prefetch_statistics_distinct_names() {
    let a = parse_prefetch_data(&vec![0u8; 16], "A.EXE-11111111.pf", None);
    let b = parse_prefetch_data(&vec![1u8; 16], "A.EXE-22222222.pf", None);
    let c = parse_prefetch_data(&vec![2u8; 16], "B.EXE-33333333.pf", None);
    let stats = get_prefetch_statistics(&[a, b, c]);
    assert_eq!(stats.total_files, 3);
    assert_eq!(stats.unique_executables, 2);
}

#[test]
fn test_retry_logs_warn_per_retry() {
    let mut logger = Logger::new(false);
    let outcomes: Vec<Result<&str, ForensicError>> = vec![
        Err(ForensicError::new(ErrorKind::Timeout, "slow")),
        Err(ForensicError::new(ErrorKind::Timeout, "slow")),
        Ok("done"),
    ];
    let (result, attempts) = retry_operation(outcomes, 3, &mut logger);
    assert!(result.is_ok());
    assert_eq!(attempts, 3);
    let entries = logger.get_entries();
    assert_eq!(entries.len(), 3);
    assert_eq!(entries[0].level, "WARN");
    assert_eq!(entries[1].level, "WARN");
    assert_eq!(entries[2].level, "INFO");
}

#[test]
fn test_split_lines_crlf_and_final_fragment() {
    let lines = triageir_cli::persistence::split_lines("a\r\nb\nc");
    assert_eq!(lines, vec!["a".to_string(), "b".to_string(), "c".to_string()]);
    let lines = triageir_cli::persistence::split_lines("x\r\n");
    assert_eq!(lines, vec!["x".to_string()]);
    let lines = triageir_cli::persistence::split_lines("");
    assert!(lines.is_empty());
}

#[test]
fn test_scheduled_tasks_status_filtering() {
    // Ready is kept; Disabled with a benign command is dropped; Disabled
    // with a suspicious command is kept; a blank line yields nothing.
    let csv = "\"TaskName\",\"Status\",\"Run As User\",\"Task To Run\"\r\n\
\"\\Maint\\Cleanup\",\"Ready\",\"SYSTEM\",\"C:\\Windows\\cleanup.exe\"\r\n\
\"\\Vendor\\Updater\",\"Disabled\",\"SYSTEM\",\"C:\\Program Files\\u.exe\"\r\n\
\r\n\
\"EvilTask\",\"Disabled\",\"alice\",\"powershell -enc AAA\"\r\n";
    let mechs = triageir_cli::persistence::collect_scheduled_tasks(csv);
    assert_eq!(mechs.len(), 2);
    assert_eq!(mechs[0].name, "Cleanup");
    assert_eq!(mechs[0].command, "C:\\Windows\\cleanup.exe (User: SYSTEM)");
    assert_eq!(mechs[0].source, "Task Scheduler: \\Maint\\Cleanup");
    assert_eq!(mechs[0].mechanism_type, "Scheduled Task");
    assert!(!mechs[0].is_suspicious);
    // The bare name gains a leading backslash before the path is split.
    assert_eq!(mechs[1].name, "EvilTask");
    assert_eq!(mechs[1].source, "Task Scheduler: \\EvilTask");
    assert_eq!(mechs[1].command, "powershell -enc AAA (User: alice)");
    assert!(mechs[1].is_suspicious);
}

#[test]
fn test_scheduled_tasks_basic_records_per_line() {
    // The basic collector keeps every data line, Disabled included, and
    // fills the unexported fields with fixed defaults.
    let csv = "\"TaskName\",\"Status\",\"Run As User\",\"Task To Run\"\n\
\"\\Maint\\Cleanup\",\"Ready\",\"SYSTEM\",\"C:\\Windows\\cleanup.exe\"\n\
\"Plain\",\"Disabled\",\"bob\",\"C:\\t.exe\"\n";
    let (tasks, audit) = triageir_cli::scheduled_tasks::collect_scheduled_tasks(csv);
    assert_eq!(tasks.len(), 2);
    assert_eq!(tasks[0].name, "Cleanup");
    assert_eq!(tasks[0].path, "\\Maint\\Cleanup");
    assert_eq!(tasks[0].state, "Ready");
    assert_eq!(tasks[1].path, "\\Plain");
    assert_eq!(tasks[1].state, "Disabled");
    // The export carries no run times, so the defaults stand.
    assert_eq!(tasks[1].last_run_time, "Never");
    assert_eq!(tasks[1].next_run_time, "Never");
    assert_eq!(tasks[1].run_as_user, "bob");
    assert_eq!(tasks[1].command, "C:\\t.exe");
    assert_eq!(tasks[1].author, "Unknown");
    assert_eq!(tasks[1].description, "Basic task info from CSV");
    assert!(audit.len() >= 2);
}

#[test]
fn test_extract_xml_value_first_occurrence() {
    let xml = "<Command>one</Command><Command>two</Command>";
    let v = triageir_cli::scheduled_tasks::extract_xml_value(xml, "Command");
    assert_eq!(v, Some("one".to_string()));
    let v = triageir_cli::scheduled_tasks::extract_xml_value("<Command>open only", "Command");
    assert_eq!(v, None);
    let v = triageir_cli::scheduled_tasks::extract_xml_value("no tags here", "Command");
    assert_eq!(v, None);
}
