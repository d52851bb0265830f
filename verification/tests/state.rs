use linuxdo_accelerator::state::{
    mark_error, mark_running, mark_starting, mark_stopped, parse_pid, pid_text, refresh,
    ServiceState,
};

fn parts(state: &ServiceState) -> (bool, Option<u32>, &str, Option<&str>, u64) {
    (
        state.running,
        state.pid,
        state.status_text.as_str(),
        state.last_error.as_deref(),
        state.updated_at,
    )
}

#[test]
fn states_say_what_happened() {
    assert_eq!(parts(&ServiceState::initial(7)), (false, None, "未启动", None, 7));
    assert_eq!(parts(&mark_running(42, 8)), (true, Some(42), "加速中，PID 42", None, 8));
    assert_eq!(parts(&mark_starting(9)), (false, None, "正在启动加速服务...", None, 9));
    assert_eq!(parts(&mark_stopped("bye", 10)), (false, None, "bye", None, 10));
    assert_eq!(parts(&mark_error("why", 11)), (false, None, "启动失败", Some("why"), 11));
    assert_eq!(parts(&mark_error("why", 11).clone()), (false, None, "启动失败", Some("why"), 11));
}

#[test]
fn running_process_is_taken_up() {
    let refreshed = refresh(ServiceState::initial(1), Some(5), 2);
    assert_eq!(parts(&refreshed.state), (true, Some(5), "加速中，PID 5", None, 2));
    assert!(refreshed.write);
    assert!(!refreshed.clear_pid);
}

#[test]
fn error_stays_beside_a_running_process() {
    let refreshed = refresh(mark_error("why", 1), Some(5), 2);
    assert_eq!(parts(&refreshed.state), (true, Some(5), "启动失败", Some("why"), 2));
    assert!(refreshed.write);
}

#[test]
fn process_that_is_gone_is_forgotten() {
    let refreshed = refresh(mark_running(5, 1), None, 2);
    assert_eq!(parts(&refreshed.state), (false, None, "已停止", None, 2));
    assert!(refreshed.write);
    assert!(refreshed.clear_pid);
}

#[test]
fn refreshing_settles() {
    let again = refresh(mark_running(5, 1), Some(5), 2);
    assert_eq!(again.state.updated_at, 1);
    assert!(!again.write);
    assert!(!again.clear_pid);
    let idle = refresh(mark_stopped("bye", 1), None, 2);
    assert_eq!(parts(&idle.state), (false, None, "bye", None, 1));
    assert!(!idle.write);
    assert!(!idle.clear_pid);
    let first = refresh(mark_running(5, 1), Some(6), 2);
    assert!(first.write);
    assert!(!refresh(first.state, Some(6), 3).write);
}

#[test]
fn processes_are_recorded_in_decimal() {
    for pid in [0, 1, 9, 10, 4321, u32::MAX] {
        assert_eq!(pid_text(pid), pid.to_string());
        assert_eq!(parse_pid(&pid_text(pid)), Some(pid));
    }
    assert_eq!(parse_pid(" 12\n"), Some(12));
    assert_eq!(parse_pid("+12"), Some(12));
    assert_eq!(parse_pid("4294967296"), None);
    assert_eq!(parse_pid("-1"), None);
    assert_eq!(parse_pid("1 2"), None);
    assert_eq!(parse_pid(""), None);
    assert_eq!(parse_pid("+"), None);
}
