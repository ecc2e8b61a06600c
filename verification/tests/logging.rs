use snipespotter::logging::{is_service_log, prune_logs, LogFile, ZeroRetention};
use snipespotter::model::Timestamp;

fn log(name: &str, nanos: u32) -> LogFile {
    LogFile {
        modified: Timestamp { seconds: 100, nanos },
        name: name.to_owned(),
    }
}

#[test]
fn zero_retention_is_rejected() {
    assert!(prune_logs(&Vec::new(), 0).is_err());
}

#[test]
fn retention_removes_oldest_matching_logs_only() {
    let mut directory = vec![
        log("spotter-svc.log.1", 1),
        log("spotter-svc.log.2", 2),
        log("spotter-svc.log.3", 3),
        log("other.log", 4),
    ];
    let removed = prune_logs(&directory, 2).expect("two files are retained");
    directory.retain(|file| !removed.contains(file));
    let matching = directory
        .iter()
        .filter(|file| file.name.starts_with("spotter-svc.log"))
        .count();
    assert_eq!(matching, 2);
    assert!(directory.iter().any(|file| file.name == "other.log"));
    assert_eq!(removed, vec![log("spotter-svc.log.1", 1)]);
}

#[test]
fn the_names_decide_between_logs_of_one_time() {
    let logs = vec![log("spotter-svc.log.b", 1), log("spotter-svc.log.a", 1)];
    assert_eq!(prune_logs(&logs, 1), Ok(vec![log("spotter-svc.log.a", 1)]));
    assert_eq!(prune_logs(&logs, 2), Ok(Vec::new()));
    assert_eq!(prune_logs(&logs, 0), Err(ZeroRetention));
    assert_eq!(ZeroRetention.message(), "logging.max_files must be nonzero");
    assert!(is_service_log("spotter-svc.log"));
    assert!(!is_service_log("other.log"));
}
