use sysinfo::refresh_kind::RefreshKind;

#[test]
fn new_chooses_nothing() {
    let kind = RefreshKind::new();
    assert!(!kind.memory());
    assert!(!kind.cpu());
    assert!(!kind.processes());
}

#[test]
fn everything_chooses_all() {
    let kind = RefreshKind::everything();
    assert!(kind.memory());
    assert!(kind.cpu());
    assert!(kind.processes());
}

#[test]
fn builders_change_one_category() {
    let kind = RefreshKind::new().with_memory();
    assert!(kind.memory() && !kind.cpu() && !kind.processes());
    let kind = RefreshKind::new().with_cpu();
    assert!(!kind.memory() && kind.cpu() && !kind.processes());
    let kind = RefreshKind::new().with_processes();
    assert!(!kind.memory() && !kind.cpu() && kind.processes());
    let kind = RefreshKind::everything().without_memory();
    assert!(!kind.memory() && kind.cpu() && kind.processes());
    let kind = RefreshKind::everything().without_cpu();
    assert!(kind.memory() && !kind.cpu() && kind.processes());
    let kind = RefreshKind::everything().without_processes();
    assert!(kind.memory() && kind.cpu() && !kind.processes());
}

#[test]
fn builders_compose() {
    let kind = RefreshKind::new().with_memory().with_cpu().without_memory().with_processes();
    assert_eq!(kind, RefreshKind::everything().without_memory());
    assert_eq!(RefreshKind::new().with_cpu().with_cpu(), RefreshKind::new().with_cpu());
    assert_eq!(RefreshKind::new().without_cpu(), RefreshKind::new());
}
