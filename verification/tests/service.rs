use linuxdo_accelerator::platform::Os;
use linuxdo_accelerator::service::{
    advance, apply_hosts_only, before_start, clean_hosts, cleanup, cli_binary_name,
    confirm_running, current_cli_binary, daemon_args, helper_start, helper_stop, init_config,
    prepare_certificate, process_to_end, recorded_failure, run_foreground, setup, status, uninstall_certificate,
    wait_until_running, wait_until_stopped, Action, CliBinary, Failure, Next, Notice, Operation,
    Reply, StopWait, Wait, Wording,
};
use linuxdo_accelerator::state::{mark_error, mark_running, mark_stopped};

fn actions(operation: &Operation) -> Vec<Action> {
    operation.steps.iter().map(|s| s.action).collect()
}

/// Goes through an operation in which the steps in `failing` fail.
fn trace(operation: &Operation, failing: &[Action]) -> (Vec<Action>, Result<(), String>) {
    let mut seen = Vec::new();
    let mut replies = Vec::new();
    let mut undone = 0;
    loop {
        match advance(operation, &replies, undone) {
            Next::Perform(action) => {
                seen.push(action);
                replies.push(if failing.contains(&action) {
                    Reply::Failed(Failure {
                        message: format!("{action:?}"),
                        chain: format!("{action:?}: why"),
                    })
                } else {
                    Reply::Done
                });
            }
            Next::Undo(action, _) => {
                seen.push(action);
                undone += 1;
            }
            Next::Finished => return (seen, Ok(())),
            Next::GivenUp(failure) => return (seen, Err(failure.message)),
        }
    }
}

#[test]
fn operations_have_their_steps() {
    assert_eq!(actions(&init_config()), vec![Action::PreparePaths, Action::LoadConfig]);
    assert_eq!(
        actions(&setup()),
        vec![
            Action::PreparePaths,
            Action::LoadConfig,
            Action::CheckRights(true),
            Action::AddLoopback,
            Action::RenewCertificates,
            Action::InstallCa,
            Action::ApplyHosts,
            Action::MarkStopped(Notice::SetupDone),
        ]
    );
    assert_eq!(
        actions(&prepare_certificate()),
        vec![
            Action::PreparePaths,
            Action::LoadConfig,
            Action::RenewCertificates,
            Action::InstallCa,
        ]
    );
    assert_eq!(
        actions(&clean_hosts())[3..],
        [
            Action::RemoveHosts,
            Action::RemoveLoopback,
            Action::MarkStopped(Notice::HostsCleaned),
        ]
    );
    assert_eq!(actions(&apply_hosts_only())[3..], [Action::AddLoopback, Action::ApplyHosts]);
    assert_eq!(
        actions(&uninstall_certificate())[3..],
        [Action::UninstallCa, Action::MarkStopped(Notice::CertificateRemoved)]
    );
    assert_eq!(actions(&status()), vec![Action::PreparePaths, Action::RefreshState]);
    assert_eq!(
        actions(&helper_stop())[3..],
        [
            Action::EndProcess,
            Action::RemoveHosts,
            Action::RemoveLoopback,
            Action::ClearPid,
            Action::MarkStopped(Notice::ServiceStopped),
        ]
    );
}

#[test]
fn required_step_ends_its_operation() {
    let (seen, result) = trace(&setup(), &[Action::InstallCa]);
    assert_eq!(seen.last(), Some(&Action::InstallCa));
    assert_eq!(result, Err("InstallCa".to_string()));
    let (seen, result) = trace(&setup(), &[]);
    assert_eq!(seen.len(), 8);
    assert_eq!(result, Ok(()));
}

#[test]
fn cleaning_up_goes_on_without_stopping() {
    let (seen, result) = trace(&cleanup(), &[Action::StopService]);
    assert_eq!(
        seen[3..],
        [
            Action::StopService,
            Action::UninstallCa,
            Action::MarkStopped(Notice::CleanedUp),
        ]
    );
    assert_eq!(result, Ok(()));
}

#[test]
fn failed_start_is_undone() {
    for failing in [Action::LoadConfig, Action::CheckRights(true), Action::ConfirmRunning] {
        let (seen, result) = trace(&helper_start(Os::Linux), &[failing]);
        assert_eq!(
            seen[seen.len() - 4..],
            [failing, Action::RemoveHosts, Action::ClearPid, Action::MarkFailed(Wording::Chain)]
        );
        assert_eq!(result, Err(format!("{failing:?}")));
    }
    let (seen, result) = trace(&helper_start(Os::Linux), &[Action::PreparePaths]);
    assert_eq!(seen, vec![Action::PreparePaths]);
    assert!(result.is_err());
}

#[test]
fn start_installs_the_certificate_but_on_macos() {
    assert!(actions(&helper_start(Os::Linux)).contains(&Action::InstallCa));
    assert!(actions(&helper_start(Os::Windows)).contains(&Action::InstallCa));
    assert!(!actions(&helper_start(Os::MacOs)).contains(&Action::InstallCa));
}

#[test]
fn start_ends_where_the_service_runs() {
    let operation = helper_start(Os::Linux);
    let replies = vec![Reply::Done, Reply::Done, Reply::Done, Reply::Done, Reply::Enough];
    assert!(matches!(advance(&operation, &replies, 0), Next::Finished));
}

#[test]
fn serving_ends_with_a_note() {
    let (seen, result) = trace(&run_foreground(true), &[]);
    assert_eq!(
        seen,
        vec![
            Action::PreparePaths,
            Action::LoadConfig,
            Action::CheckRights(true),
            Action::AddLoopback,
            Action::RenewCertificates,
            Action::InstallCa,
            Action::ApplyHosts,
            Action::RecordOwnPid,
            Action::MarkRunning,
            Action::RunProxy,
            Action::ClearPid,
            Action::MarkStopped(Notice::ProxyEnded),
        ]
    );
    assert_eq!(result, Ok(()));
    let (seen, result) = trace(&run_foreground(false), &[Action::RunProxy]);
    assert_eq!(
        seen[4..],
        [
            Action::LoadCertificates,
            Action::RecordOwnPid,
            Action::MarkRunning,
            Action::RunProxy,
            Action::ClearPid,
            Action::MarkFailed(Wording::Message),
        ]
    );
    assert_eq!(result, Err("RunProxy".to_string()));
    let (seen, _) = trace(&run_foreground(false), &[Action::MarkRunning]);
    assert_eq!(seen.last(), Some(&Action::MarkRunning));
}

#[test]
fn notices_are_put_into_words() {
    assert_eq!(Notice::SetupDone.text(), "系统加速环境已准备");
    assert_eq!(Notice::ProxyEnded.text(), "加速服务已退出");
    assert_eq!(Notice::ServiceStopped.text(), "加速已停止");
    assert_eq!(Notice::CleanedUp.text(), "已清理证书和 hosts");
    assert_eq!(Notice::HostsCleaned.text(), "hosts 已清理");
    assert_eq!(Notice::CertificateRemoved.text(), "根证书已卸载");
}

#[test]
fn states_are_judged() {
    assert!(matches!(before_start(&mark_running(1, 1)), Reply::Enough));
    assert!(matches!(before_start(&mark_stopped("x", 1)), Reply::Done));
    assert!(matches!(confirm_running(&mark_running(1, 1)), Reply::Done));
    match confirm_running(&mark_error("port taken", 1)) {
        Reply::Failed(failure) => assert_eq!(failure.chain, "port taken"),
        other => panic!("{other:?}"),
    }
    match confirm_running(&mark_stopped("x", 1)) {
        Reply::Failed(failure) => assert_eq!(failure.message, "accelerator daemon exited unexpectedly"),
        other => panic!("{other:?}"),
    }
}

#[test]
fn waiting_ends() {
    assert!(matches!(wait_until_running(9999, &None), Wait::Look));
    assert!(matches!(wait_until_running(9999, &Some(mark_stopped("x", 1))), Wait::Again(250)));
    assert!(matches!(
        wait_until_running(10_000, &Some(mark_running(1, 1))),
        Wait::Over(Reply::Done)
    ));
    match wait_until_running(0, &Some(mark_error("why", 1))) {
        Wait::Over(Reply::Failed(failure)) => assert_eq!(failure.chain, "why"),
        other => panic!("{other:?}"),
    }
    match wait_until_running(10_000, &None) {
        Wait::Over(Reply::Failed(failure)) => assert_eq!(failure.message, "daemon start timed out"),
        other => panic!("{other:?}"),
    }
    assert_eq!(wait_until_stopped(4999, None), StopWait::Look);
    assert_eq!(wait_until_stopped(5000, None), StopWait::Over);
    assert_eq!(wait_until_stopped(0, Some(true)), StopWait::Again(200));
    assert_eq!(wait_until_stopped(0, Some(false)), StopWait::Over);
    assert_eq!(process_to_end(Some(3), true), Some(3));
    assert_eq!(process_to_end(Some(3), false), None);
    assert_eq!(process_to_end(None, true), None);
}

#[test]
fn program_is_found() {
    let name = |s: &str| Some(s.to_string());
    assert_eq!(cli_binary_name(Os::Linux), "linuxdo-accelerator");
    assert_eq!(cli_binary_name(Os::Windows), "linuxdo-accelerator.exe");
    assert_eq!(current_cli_binary(Os::Linux, true, true, &None), CliBinary::Sibling);
    assert_eq!(
        current_cli_binary(Os::Linux, true, false, &name("linuxdo-accelerator")),
        CliBinary::Own
    );
    assert_eq!(current_cli_binary(Os::Linux, true, false, &name("other")), CliBinary::Missing);
    assert_eq!(current_cli_binary(Os::Linux, false, true, &None), CliBinary::Missing);
    assert_eq!(daemon_args("/c.toml"), vec!["--config", "/c.toml", "daemon"]);
}

/// What the state says after the operation failed at `failing`.
fn recorded_text(operation: &Operation, failing: Action) -> Option<String> {
    let mut replies = Vec::new();
    let mut undone = 0;
    let mut text = None;
    loop {
        match advance(operation, &replies, undone) {
            Next::Perform(action) => replies.push(if action == failing {
                Reply::Failed(Failure {
                    message: "outer".to_string(),
                    chain: "outer: inner".to_string(),
                })
            } else {
                Reply::Done
            }),
            Next::Undo(action, failure) => {
                if let Some(words) = recorded_failure(action, &failure) {
                    text = Some(words);
                }
                undone += 1;
            }
            Next::Finished | Next::GivenUp(_) => return text,
        }
    }
}

#[test]
fn a_failed_proxy_is_recorded_without_causes() {
    let operation = run_foreground(true);
    assert_eq!(recorded_text(&operation, Action::RunProxy), Some("outer".to_string()));
    assert_eq!(recorded_text(&operation, Action::InstallCa), None);
}

#[test]
fn a_failed_start_is_recorded_with_causes() {
    let operation = helper_start(Os::Linux);
    assert_eq!(
        recorded_text(&operation, Action::InstallCa),
        Some("outer: inner".to_string())
    );
    assert_eq!(recorded_text(&operation, Action::PreparePaths), None);
}

#[test]
fn a_started_process_is_recorded_before_it_is_waited_for() {
    for os in [Os::Linux, Os::MacOs, Os::Windows] {
        let steps = actions(&helper_start(os));
        assert_eq!(
            steps[steps.len() - 5..],
            [
                Action::SpawnDaemon,
                Action::RecordDaemonPid,
                Action::AwaitRunning,
                Action::Pause(800),
                Action::ConfirmRunning,
            ]
        );
    }
}
