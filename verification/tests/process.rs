use sysinfo::process::{
    compute_cpu_usage, get_handle, is_proc_running, update_proc_info, CpuTimes, ExitQuery, Process,
    ProcessInfo, STILL_ACTIVE,
};

#[test]
fn still_active_sentinel_means_running() {
    assert_eq!(STILL_ACTIVE, 259);
    assert!(is_proc_running(ExitQuery { succeeded: true, exit_code: 259 }));
}

#[test]
fn real_exit_code_means_terminated() {
    assert!(!is_proc_running(ExitQuery { succeeded: true, exit_code: 0 }));
    assert!(!is_proc_running(ExitQuery { succeeded: true, exit_code: 1 }));
    assert!(!is_proc_running(ExitQuery { succeeded: true, exit_code: 258 }));
    assert!(!is_proc_running(ExitQuery { succeeded: true, exit_code: 260 }));
    assert!(!is_proc_running(ExitQuery { succeeded: true, exit_code: u32::MAX }));
}

#[test]
fn failed_exit_query_means_terminated() {
    assert!(!is_proc_running(ExitQuery { succeeded: false, exit_code: 259 }));
    assert!(!is_proc_running(ExitQuery { succeeded: false, exit_code: 0 }));
}

#[test]
fn busy_time_is_kernel_plus_user() {
    assert_eq!(CpuTimes { kernel: 0, user: 0 }.busy(), 0);
    assert_eq!(CpuTimes { kernel: 1_500, user: 2_500 }.busy(), 4_000);
    assert_eq!(CpuTimes { kernel: u64::MAX, user: 0 }.busy(), u64::MAX);
    assert_eq!(CpuTimes { kernel: u64::MAX - 1, user: 1 }.busy(), u64::MAX);
    assert_eq!(CpuTimes { kernel: u64::MAX, user: 1 }.busy(), u64::MAX);
    assert_eq!(CpuTimes { kernel: u64::MAX, user: u64::MAX }.busy(), u64::MAX);
}

#[test]
fn new_process_has_no_usage() {
    let info = ProcessInfo {
        name: "init".to_string(),
        memory: 4_096,
        virtual_memory: 65_536,
        parent: None,
        start_time: 1_600_000_000,
    };
    let process = Process::new(1, 44, info);
    assert_eq!(process.pid(), 1);
    assert_eq!(get_handle(&process), 44);
    assert_eq!(process.name(), "init");
    assert_eq!(process.memory(), 4_096);
    assert_eq!(process.virtual_memory(), 65_536);
    assert_eq!(process.parent(), None);
    assert_eq!(process.start_time(), 1_600_000_000);
    assert_eq!(process.cpu_usage().basis_points(), 0);
}

#[test]
fn process_usage_is_spread_over_the_processors() {
    let info = ProcessInfo {
        name: "worker".to_string(),
        memory: 0,
        virtual_memory: 0,
        parent: Some(1),
        start_time: 0,
    };
    let mut process = Process::new(20, 5, info);
    compute_cpu_usage(&mut process, 4, CpuTimes { kernel: 1_000_000, user: 3_000_000 }, 50_000_000);
    assert_eq!(process.cpu_usage().basis_points(), 0);
    // two seconds of busy time in one second of wall time, on four processors
    compute_cpu_usage(&mut process, 4, CpuTimes { kernel: 6_000_000, user: 18_000_000 }, 60_000_000);
    assert_eq!(process.cpu_usage().basis_points(), 5_000);
    // more busy time than the machine has: clamped
    compute_cpu_usage(
        &mut process,
        4,
        CpuTimes { kernel: 106_000_000, user: 18_000_000 },
        70_000_000,
    );
    assert_eq!(process.cpu_usage().basis_points(), 10_000);
    // idle
    compute_cpu_usage(
        &mut process,
        4,
        CpuTimes { kernel: 106_000_000, user: 18_000_000 },
        80_000_000,
    );
    assert_eq!(process.cpu_usage().basis_points(), 0);
}

#[test]
fn update_proc_info_replaces_the_descriptive_data() {
    let info = ProcessInfo {
        name: "old".to_string(),
        memory: 1,
        virtual_memory: 2,
        parent: None,
        start_time: 3,
    };
    let mut process = Process::new(9, 90, info);
    compute_cpu_usage(&mut process, 1, CpuTimes { kernel: 0, user: 0 }, 0);
    compute_cpu_usage(&mut process, 1, CpuTimes { kernel: 10, user: 15 }, 100);
    assert_eq!(process.cpu_usage().basis_points(), 2_500);
    update_proc_info(
        &mut process,
        ProcessInfo {
            name: "new".to_string(),
            memory: 10,
            virtual_memory: 20,
            parent: Some(4),
            start_time: 30,
        },
    );
    assert_eq!(process.name(), "new");
    assert_eq!(process.memory(), 10);
    assert_eq!(process.virtual_memory(), 20);
    assert_eq!(process.parent(), Some(4));
    assert_eq!(process.start_time(), 30);
    // identity and usage are untouched
    assert_eq!(process.pid(), 9);
    assert_eq!(get_handle(&process), 90);
    assert_eq!(process.cpu_usage().basis_points(), 2_500);
}
