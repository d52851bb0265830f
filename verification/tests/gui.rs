use linuxdo_accelerator::config::AppConfig;
use linuxdo_accelerator::dns_hosts::DnsHosts;
use linuxdo_accelerator::gui::{
    action_binary_name, click_command, execute_action, format_error_chain, judge_failed_request,
    judge_progress, load_system_ui_font, locate_current_or_sibling_binary, menu_command,
    preferred_system_font_families, program_args, render_config_content, render_scope_panel,
    service_state_changed, shortcut_stamp, shortcuts_outdated, tray_shell_command, ActionKnown,
    ActionOutcome, ActionStep, Expectation, GuiAction, GuiState, Headline, IconCommand, Located,
    LogLevel, Progress, RequestReply, Rgb, TrayCommand, TrayReply, UiPage, WindowCommand,
};
use linuxdo_accelerator::platform::Os;
use linuxdo_accelerator::state::{mark_error, mark_running, mark_stopped, ServiceState};

const NOW: u64 = 100_000;

fn window(status: ServiceState) -> GuiState {
    GuiState::new(status, Vec::new(), NOW)
}

fn texts(values: &[&str]) -> Vec<String> {
    values.iter().map(|v| v.to_string()).collect()
}

#[test]
fn actions_have_their_texts() {
    assert_eq!(GuiAction::Start.pending_message(), "正在申请权限并启动加速...");
    assert_eq!(GuiAction::Stop.pending_message(), "正在停止加速并恢复 hosts...");
    assert_eq!(GuiAction::Start.subcommand(), "helper-start");
    assert_eq!(GuiAction::Stop.subcommand(), "helper-stop");
    assert_eq!(GuiAction::Stop.confirm_title(), "确认操作");
    assert_eq!(GuiAction::Stop.confirm_button(), "确认");
    assert_eq!(GuiAction::Start.error_context(), "elevation or command execution failed");
    assert_eq!(GuiAction::Stop.error_context(), "failed to stop acceleration from GUI");
    assert_eq!(program_args("/c", "gui"), texts(&["--config", "/c", "gui"]));
}

#[test]
fn one_action_runs_at_a_time() {
    let mut gui = window(mark_stopped("x", 1));
    assert_eq!(gui.last_refresh, NOW - 2000);
    assert!(gui.trigger_action(GuiAction::Start));
    assert!(gui.busy);
    assert!(gui.waiting);
    assert_eq!(gui.feedback, "正在申请权限并启动加速...");
    assert!(!gui.trigger_action(GuiAction::Stop));
    assert_eq!(gui.pending_action, Some(GuiAction::Start));
}

#[test]
fn start_that_succeeds_is_believed_for_a_while() {
    let mut gui = window(mark_error("old", 1));
    gui.trigger_action(GuiAction::Start);
    gui.poll_action(ActionOutcome::Running, NOW);
    assert!(gui.busy);
    gui.poll_action(ActionOutcome::Succeeded("ok".to_string()), NOW);
    assert!(!gui.busy);
    assert!(gui.status.running);
    assert_eq!(gui.status.status_text, "加速中");
    assert_eq!(gui.status.last_error, None);
    assert_eq!(
        gui.optimistic_running,
        Some(Expectation { running: true, deadline: NOW + 4000 })
    );
    gui.apply_optimistic_state(mark_stopped("not yet", 2), NOW + 3999);
    assert!(gui.status.running);
    assert_eq!(gui.status.status_text, "加速中");
    gui.apply_optimistic_state(mark_error("bad", 2), NOW + 3999);
    assert!(!gui.status.running);
    gui.apply_optimistic_state(mark_stopped("not yet", 2), NOW + 4000);
    assert!(!gui.status.running);
    assert_eq!(gui.optimistic_running, None);
}

#[test]
fn stop_that_succeeds_is_believed_for_a_while() {
    let mut gui = window(mark_running(5, 1));
    gui.trigger_action(GuiAction::Stop);
    gui.poll_action(ActionOutcome::Succeeded("done".to_string()), NOW);
    assert_eq!(gui.feedback, "done");
    assert!(!gui.status.running);
    assert_eq!(gui.status.status_text, "已停止");
    gui.apply_optimistic_state(mark_running(5, 2), NOW + 1);
    assert!(!gui.status.running);
    assert_eq!(gui.status.pid, None);
    assert_eq!(gui.status.status_text, "已停止");
}

#[test]
fn failures_are_shown() {
    let mut gui = window(mark_running(5, 1));
    gui.trigger_action(GuiAction::Start);
    gui.poll_action(ActionOutcome::Failed("no".to_string(), None), NOW);
    assert_eq!(gui.feedback, "操作失败: no");
    assert!(!gui.status.running);
    assert_eq!(gui.status.status_text, "启动失败");
    assert_eq!(gui.status.last_error, Some("no".to_string()));
    gui.trigger_action(GuiAction::Stop);
    gui.poll_action(
        ActionOutcome::Failed("no".to_string(), Some(mark_running(9, 2))),
        NOW,
    );
    assert_eq!(gui.status.pid, Some(9));
    assert_eq!(gui.status.last_error, Some("no".to_string()));
    gui.trigger_action(GuiAction::Stop);
    gui.poll_action(ActionOutcome::Lost, NOW);
    assert_eq!(gui.feedback, "后台任务意外中断");
    assert!(!gui.busy);
    gui.poll_action(ActionOutcome::Succeeded("late".to_string()), NOW);
    assert_eq!(gui.feedback, "后台任务意外中断");
}

#[test]
fn states_are_told_apart() {
    assert!(!service_state_changed(&mark_running(1, 1), &mark_running(1, 1)));
    assert!(service_state_changed(&mark_running(1, 1), &mark_running(1, 2)));
    assert!(service_state_changed(&mark_running(1, 1), &mark_running(2, 1)));
    assert!(service_state_changed(&mark_error("a", 1), &mark_error("b", 1)));
    assert!(service_state_changed(&mark_stopped("a", 1), &mark_stopped("b", 1)));
}

#[test]
fn failed_requests_are_judged() {
    let before = mark_running(1, 1);
    let told = judge_failed_request(GuiAction::Start, &before, &Some(mark_error("e", 2)), "r");
    assert_eq!(told.level, LogLevel::Error);
    assert_eq!(told.log, "GUI 操作失败：e");
    assert_eq!(told.error, "e");
    let changed =
        judge_failed_request(GuiAction::Stop, &before, &Some(mark_stopped("s", 2)), "r");
    assert_eq!(changed.level, LogLevel::Warn);
    assert_eq!(changed.log, "GUI 检测到状态已变化：s");
    assert_eq!(changed.error, "s");
    let same = judge_failed_request(GuiAction::Stop, &before, &Some(mark_running(1, 1)), "r");
    assert_eq!(same.log, "GUI 提权执行失败：r");
    let start = judge_failed_request(GuiAction::Start, &before, &Some(mark_stopped("s", 2)), "r");
    assert_eq!(start.error, "r");
    assert_eq!(judge_failed_request(GuiAction::Stop, &before, &None, "r").error, "r");
}

#[test]
fn progress_is_judged() {
    match judge_progress(GuiAction::Start, &mark_running(1, 1), 12_000) {
        Progress::Done(text) => assert_eq!(text, "加速已启动，可以直接最小化窗口"),
        other => panic!("{other:?}"),
    }
    match judge_progress(GuiAction::Stop, &mark_stopped("加速已停止", 1), 0) {
        Progress::Done(text) => assert_eq!(text, "加速已停止"),
        other => panic!("{other:?}"),
    }
    match judge_progress(GuiAction::Start, &mark_error("e", 1), 0) {
        Progress::Failed(text) => assert_eq!(text, "e"),
        other => panic!("{other:?}"),
    }
    assert!(matches!(
        judge_progress(GuiAction::Start, &mark_stopped("x", 1), 11_999),
        Progress::Again
    ));
    match judge_progress(GuiAction::Start, &mark_stopped("x", 1), 12_000) {
        Progress::Failed(text) => {
            assert_eq!(text, "service state did not update in time (status: x)")
        }
        other => panic!("{other:?}"),
    }
}

fn nothing_known() -> ActionKnown {
    ActionKnown {
        prepared: None,
        before: None,
        request: None,
        after: None,
        latest: None,
        waited: 0,
    }
}

#[test]
fn actions_take_their_course() {
    let mut known = nothing_known();
    assert!(matches!(
        execute_action(Os::MacOs, GuiAction::Start, &known),
        ActionStep::PrepareCertificate
    ));
    assert!(matches!(
        execute_action(Os::MacOs, GuiAction::Stop, &known),
        ActionStep::ReadBefore
    ));
    known.before = Some(mark_stopped("x", 1));
    match execute_action(Os::Linux, GuiAction::Start, &known) {
        ActionStep::Request((level, text), command) => {
            assert_eq!(level.text(), "INFO");
            assert_eq!(text, "GUI 已发起管理员操作请求");
            assert_eq!(command, "helper-start");
        }
        other => panic!("{other:?}"),
    }
    known.request = Some(RequestReply::Granted);
    assert!(matches!(
        execute_action(Os::Linux, GuiAction::Start, &known),
        ActionStep::ReadLatest(0)
    ));
    known.latest = Some(Ok(mark_stopped("x", 1)));
    known.waited = 11_999;
    assert!(matches!(
        execute_action(Os::Linux, GuiAction::Start, &known),
        ActionStep::ReadLatest(200)
    ));
    known.waited = 12_000;
    assert!(matches!(
        execute_action(Os::Linux, GuiAction::Start, &known),
        ActionStep::Fail(_, None)
    ));
    known.latest = Some(Ok(mark_running(1, 1)));
    assert!(matches!(execute_action(Os::Linux, GuiAction::Start, &known), ActionStep::Done(_)));
    known.latest = Some(Err(texts(&["a", "b"])));
    match execute_action(Os::Linux, GuiAction::Start, &known) {
        ActionStep::Fail(messages, None) => assert_eq!(messages, texts(&["a", "b"])),
        other => panic!("{other:?}"),
    }
}

#[test]
fn actions_fail_with_a_reason() {
    let mut known = nothing_known();
    known.prepared = Some(Err(texts(&["keychain"])));
    match execute_action(Os::MacOs, GuiAction::Start, &known) {
        ActionStep::Fail(messages, None) => assert_eq!(
            messages,
            texts(&["macOS certificate preparation failed", "keychain"])
        ),
        other => panic!("{other:?}"),
    }
    known.before = Some(mark_running(1, 1));
    known.request = Some(RequestReply::NotLocated(texts(&["nowhere"])));
    match execute_action(Os::Linux, GuiAction::Stop, &known) {
        ActionStep::Fail(messages, None) => assert_eq!(messages, texts(&["nowhere"])),
        other => panic!("{other:?}"),
    }
    known.request = Some(RequestReply::Refused(texts(&["no", "why"])));
    assert!(matches!(
        execute_action(Os::Linux, GuiAction::Stop, &known),
        ActionStep::ReadAfter
    ));
    known.after = Some(None);
    match execute_action(Os::Linux, GuiAction::Stop, &known) {
        ActionStep::Fail(messages, Some((level, log))) => {
            assert_eq!(
                messages,
                texts(&["failed to stop acceleration from GUI", "no", "why"])
            );
            assert_eq!(level, LogLevel::Error);
            assert_eq!(log, "GUI 提权执行失败：no");
        }
        other => panic!("{other:?}"),
    }
    known.after = Some(Some(mark_error("e", 2)));
    match execute_action(Os::Linux, GuiAction::Stop, &known) {
        ActionStep::Fail(messages, Some((_, log))) => {
            assert_eq!(messages, texts(&["failed to stop acceleration from GUI", "e"]));
            assert_eq!(log, "GUI 操作失败：e");
        }
        other => panic!("{other:?}"),
    }
}

#[test]
fn error_chains_are_joined() {
    assert_eq!(format_error_chain(&texts(&["a", "a", "b", "a"])), "a\ncaused by: b\ncaused by: a");
    assert_eq!(format_error_chain(&Vec::new()), "");
}

#[test]
fn programs_are_located() {
    let name = |s: &str| Some(s.to_string());
    assert_eq!(action_binary_name(Os::Windows), "linuxdo-accelerator.exe");
    assert_eq!(locate_current_or_sibling_binary("x", &name("x"), true), Located::Own);
    assert_eq!(locate_current_or_sibling_binary("x", &name("y"), true), Located::Sibling);
    assert_eq!(locate_current_or_sibling_binary("x", &None, false), Located::Missing);
}

#[test]
fn tray_commands_are_read() {
    assert_eq!(menu_command("tray-show"), Some(TrayCommand::Restore));
    assert_eq!(menu_command("tray-quit"), Some(TrayCommand::Quit));
    assert_eq!(menu_command("other"), None);
    assert_eq!(click_command(true, false, true), Some(TrayCommand::Restore));
    assert_eq!(click_command(true, true, false), Some(TrayCommand::Restore));
    assert_eq!(click_command(true, false, false), None);
    assert_eq!(click_command(false, true, true), None);
    assert!(tray_shell_command(TrayCommand::Restore));
    assert!(!tray_shell_command(TrayCommand::Quit));
}

#[test]
fn window_goes_into_the_tray_and_comes_back() {
    let mut gui = window(mark_stopped("x", 1));
    assert!(gui.sync_minimize_to_tray(true));
    assert_eq!(
        gui.minimize_to_tray(Os::Linux, TrayReply::Shown),
        vec![WindowCommand::Minimize, WindowCommand::Repaint]
    );
    gui.note_minimized(true);
    assert!(gui.hidden_to_tray);
    assert!(!gui.sync_minimize_to_tray(true));
    assert_eq!(
        gui.poll_tray_events(TrayCommand::Restore),
        (
            IconCommand::Hide,
            vec![WindowCommand::Restore, WindowCommand::Focus, WindowCommand::Repaint]
        )
    );
    assert!(!gui.hidden_to_tray);
    assert!(!gui.sync_minimize_to_tray(true));
    gui.note_minimized(false);
    assert!(gui.sync_minimize_to_tray(true));
    assert_eq!(
        gui.poll_tray_events(TrayCommand::Quit),
        (IconCommand::Quit, vec![WindowCommand::Close])
    );
}

#[test]
fn window_is_minimized_without_a_tray() {
    let mut gui = window(mark_stopped("x", 1));
    assert_eq!(
        gui.minimize_to_tray(Os::Windows, TrayReply::Unavailable),
        vec![WindowCommand::Minimize, WindowCommand::Repaint]
    );
    assert_eq!(gui.feedback, "托盘不可用，已退回系统最小化");
    assert!(!gui.hidden_to_tray);
    assert!(gui.last_minimized);
    gui.minimize_to_tray(Os::MacOs, TrayReply::Failed("e".to_string()));
    assert_eq!(gui.feedback, "托盘最小化失败，已退回系统最小化: e");
    assert_eq!(
        gui.minimize_to_tray(Os::MacOs, TrayReply::Shown),
        vec![WindowCommand::Close]
    );
    let mut other = window(mark_stopped("x", 1));
    assert_eq!(
        other.minimize_to_tray(Os::Other, TrayReply::Shown),
        vec![WindowCommand::Minimize]
    );
    assert!(!other.hidden_to_tray);
}

#[test]
fn window_is_drawn_as_often_as_needed() {
    let mut gui = window(mark_stopped("x", 1));
    assert_eq!(gui.repaint_interval(), 5000);
    assert!(!gui.refresh_due(NOW));
    assert!(gui.refresh_due(NOW + 3000));
    assert_eq!(gui.last_refresh, NOW + 3000);
    gui.hidden_to_tray = true;
    assert_eq!(gui.repaint_interval(), 15000);
    gui.confirm_action = Some(GuiAction::Stop);
    assert_eq!(gui.repaint_interval(), 100);
}

#[test]
fn pages_have_their_size() {
    let mut gui = window(mark_stopped("x", 1));
    let details = gui.navigate_to(UiPage::Details);
    assert_eq!(gui.current_page, UiPage::Details);
    assert_eq!((details.width, details.height), (760, 520));
    assert_eq!((details.min_width, details.max_width), (720, 1200));
    assert!(details.resizable);
    let launcher = gui.navigate_to(UiPage::Launcher);
    assert_eq!((launcher.width, launcher.height, launcher.max_height), (720, 260, 260));
    assert!(!launcher.resizable);
}

#[test]
fn questions_are_answered() {
    let mut gui = window(mark_stopped("x", 1));
    gui.confirm_action = Some(GuiAction::Stop);
    assert_eq!(gui.show_confirm_action_dialog(false, false, true), None);
    assert_eq!(gui.confirm_action, Some(GuiAction::Stop));
    assert_eq!(gui.show_confirm_action_dialog(true, false, true), Some(GuiAction::Stop));
    assert_eq!(gui.confirm_action, None);
    assert!(gui.busy && gui.waiting);
    assert_eq!(gui.pending_action, Some(GuiAction::Stop));
    assert_eq!(gui.feedback, GuiAction::Stop.pending_message());
    gui.confirm_action = Some(GuiAction::Start);
    assert_eq!(gui.show_confirm_action_dialog(true, false, true), None);
    assert_eq!(gui.confirm_action, None);
    assert_eq!(gui.pending_action, Some(GuiAction::Stop));
    gui.confirm_action = Some(GuiAction::Start);
    assert_eq!(gui.show_confirm_action_dialog(false, true, true), None);
    assert_eq!(gui.confirm_action, None);
    gui.confirm_action = Some(GuiAction::Start);
    assert_eq!(gui.show_confirm_action_dialog(false, false, false), None);
    assert_eq!(gui.confirm_action, None);
}

#[test]
fn headlines_say_how_things_are() {
    let mut gui = window(mark_error("e", 1));
    assert_eq!(gui.headline_status(), Headline::Failed);
    gui.status.running = true;
    assert_eq!(gui.headline_status(), Headline::Running);
    gui.busy = true;
    assert_eq!(gui.headline_status(), Headline::Busy);
    assert_eq!(window(mark_stopped("x", 1)).headline_status(), Headline::Waiting);
    assert_eq!(Headline::Busy.label(), "处理中");
    assert_eq!(Headline::Running.label(), "已接管");
    assert_eq!(Headline::Failed.label(), "异常");
    assert_eq!(Headline::Waiting.label(), "待启动");
    assert_eq!(Headline::Busy.launcher_label(), "正在处理");
    assert_eq!(Headline::Running.launcher_label(), "正在加速");
    assert_eq!(Headline::Failed.launcher_label(), "加速异常");
    assert_eq!(Headline::Waiting.launcher_label(), "等待启动");
    assert_eq!(Headline::Failed.colour(), Rgb { red: 255, green: 120, blue: 100 });
    assert_eq!(Headline::Busy.colour(), Rgb { red: 250, green: 196, blue: 92 });
    assert_eq!(Headline::Running.colour(), Rgb { red: 106, green: 220, blue: 155 });
    assert_eq!(Headline::Waiting.colour(), Rgb { red: 162, green: 173, blue: 184 });
}

#[test]
fn panels_say_what_is_known() {
    let mut gui = window(mark_error("e", 1));
    assert_eq!(gui.status_message(), "启动失败");
    gui.feedback = "hello".to_string();
    assert_eq!(gui.status_message(), "hello");
    let panel = gui.render_status_panel();
    assert_eq!(panel.status_text, "启动失败");
    assert_eq!(panel.error_text, "e");
    assert_eq!(panel.error_colour, Rgb { red: 235, green: 110, blue: 90 });
    assert_eq!(
        panel.logs,
        texts(&["暂无运行日志。执行开始、停止、恢复等操作后会在这里显示。"])
    );
    gui.recent_logs = texts(&["one", "two"]);
    assert_eq!(gui.recent_logs_or_placeholder(), texts(&["one", "two"]));
    let calm = window(mark_stopped("x", 1)).render_status_panel();
    assert_eq!(calm.error_text, "当前没有错误。运行异常时会直接显示真实原因。");
    let button = gui.render_action_panel();
    assert_eq!(button.action, GuiAction::Start);
    assert_eq!(button.label(), "开始加速");
    assert!(button.enabled);
    gui.status.running = true;
    gui.busy = true;
    let button = gui.render_action_panel();
    assert_eq!(button.label(), "停止加速");
    assert_eq!(button.fill, Rgb { red: 186, green: 63, blue: 21 });
    assert!(!button.enabled);
}

#[test]
fn configuration_is_described() {
    let mut config = AppConfig {
        listen_host: String::new(),
        hosts_ip: String::new(),
        http_port: 80,
        https_port: 443,
        upstream: "https://linux.do".to_string(),
        fake_sni: None,
        doh_endpoints: Vec::new(),
        dns_hosts: DnsHosts::new(),
        proxy_domains: texts(&["a", "b", "c"]),
        hosts_domains: texts(&["a"]),
        certificate_domains: texts(&["a", "b"]),
        ca_common_name: String::new(),
        server_common_name: String::new(),
    };
    let scope = render_scope_panel(&config);
    assert_eq!(scope.domains, "1");
    assert_eq!(scope.endpoints, "0");
    assert_eq!(scope.certificates, "2");
    assert_eq!(scope.upstream, "https://linux.do");
    assert_eq!(scope.first_endpoint, "未配置");
    config.doh_endpoints = texts(&["https://doh", "x"]);
    let content = render_config_content(&config);
    assert_eq!(content.domains, "3");
    assert_eq!(content.endpoints, "2");
    assert_eq!(content.first_endpoint, "https://doh");
}

#[test]
fn fonts_are_picked() {
    assert_eq!(preferred_system_font_families(Os::Linux).len(), 5);
    assert_eq!(preferred_system_font_families(Os::Linux)[0], "Noto Sans CJK SC");
    assert_eq!(preferred_system_font_families(Os::MacOs), texts(&["PingFang SC", "Hiragino Sans GB"]));
    assert_eq!(preferred_system_font_families(Os::Windows)[2], "SimHei");
    assert!(preferred_system_font_families(Os::Other).is_empty());
    assert_eq!(load_system_ui_font(&vec![None, Some(11), Some(10), Some(1)], 10), Some(2));
    assert_eq!(load_system_ui_font(&vec![None, Some(11)], 10), None);
}

#[test]
fn shortcuts_are_stamped() {
    let stamp = shortcut_stamp("0.1.0", "C:\\x.exe");
    assert_eq!(stamp, "0.1.0\nC:\\x.exe");
    assert!(shortcuts_outdated(&None, &stamp));
    assert!(!shortcuts_outdated(&Some(stamp.clone()), &stamp));
    assert!(shortcuts_outdated(&Some("0.0.9\nC:\\x.exe".to_string()), &stamp));
}

#[test]
fn a_refresh_takes_up_what_could_be_read() {
    let mut gui = window(mark_stopped("x", 1));
    gui.refresh_status(Some(mark_running(7, 2)), None, 10_000);
    assert_eq!(gui.status.pid, Some(7));
    let logs = gui.recent_logs.clone();
    gui.refresh_status(None, None, 10_000);
    assert_eq!(gui.status.pid, Some(7));
    assert_eq!(gui.recent_logs, logs);
    gui.refresh_status(None, Some(texts(&["line"])), 10_000);
    assert_eq!(gui.recent_logs, texts(&["line"]));
}

#[test]
fn a_failed_start_shows_without_a_look() {
    let mut gui = window(mark_stopped("x", 1));
    assert!(gui.refreshes_on_failure());
    gui.pending_action = Some(GuiAction::Start);
    assert!(!gui.refreshes_on_failure());
    gui.pending_action = Some(GuiAction::Stop);
    assert!(gui.refreshes_on_failure());
}
