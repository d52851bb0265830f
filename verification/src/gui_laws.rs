//! What holds of the window: what it takes up, what it shows, and in which
//! order an action goes.
use crate::config::ConfigModel;
use crate::gui::{
    answered, button_of, config_panel, expectation_left, expected_status, font_families,
    granted_step, headline_of, interval, log_lines, message_of, minimized, next_action_step,
    opt_state, polled, progress_of, refreshed, refused_step, request_failure, size_of_page,
    triggered, with_status, without_repeats, ActionKnown, ActionOutcome, ActionStep,
    ActionStepModel, Expectation, GuiAction, GuiModel, GuiState, LogLevel, PageSize, RequestReply,
    TrayReply, UiPage, WindowCommand,
};
use crate::number::decimal;
use crate::platform::Os;
use crate::state::{ServiceState, StateModel};
use crate::text::texts;
use vstd::prelude::*;

verus! {

// ---------------------------------------------------------------------------
// Actions
// ---------------------------------------------------------------------------

/// Whether two windows differ in nothing but what an action and the state
/// behind it change.
pub open spec fn same_view(a: GuiModel, b: GuiModel) -> bool {
    &&& a.recent_logs == b.recent_logs
    &&& a.confirm_action == b.confirm_action
    &&& a.current_page == b.current_page
    &&& a.hidden_to_tray == b.hidden_to_tray
    &&& a.last_minimized == b.last_minimized
}

/// An action that is asked for is taken up by a window that is not busy, which
/// says so and waits for its outcome; a busy window goes on as it was.
pub proof fn law_action_is_taken_up(gui: GuiModel, action: GuiAction)
    ensures
        gui.busy ==> triggered(gui, action) == gui,
        !gui.busy ==> {
            let after = triggered(gui, action);
            &&& after.busy
            &&& after.waiting
            &&& after.pending_action == Some(action)
            &&& action == GuiAction::Start ==> after.feedback == "正在申请权限并启动加速..."@
            &&& action == GuiAction::Stop ==> after.feedback == "正在停止加速并恢复 hosts..."@
            &&& after.status == gui.status
            &&& after.optimistic_running == gui.optimistic_running
            &&& after.last_refresh == gui.last_refresh
            &&& same_view(after, gui)
        },
{
}

/// A window that waits for nothing, or whose action still runs, stays as it
/// is. No outcome changes what has nothing to do with the action.
pub proof fn law_outcomes_leave_the_rest(gui: GuiModel, outcome: ActionOutcome, now: u64)
    ensures
        !gui.waiting ==> polled(gui, outcome, now) == gui,
        outcome is Running ==> polled(gui, outcome, now) == gui,
        same_view(polled(gui, outcome, now), gui),
{
}

/// Once a start has succeeded the service is shown as running, and believed to
/// run for four seconds whatever its state says; the window is free again.
pub proof fn law_start_succeeded(gui: GuiModel, message: String, now: u64)
    requires
        gui.waiting,
        gui.pending_action == Some(GuiAction::Start),
        2000 <= now,
        now + 4000 <= u64::MAX,
    ensures
        ({
            let after = polled(gui, ActionOutcome::Succeeded(message), now);
            &&& after.status.running
            &&& after.status.status_text == "加速中"@
            &&& after.status.last_error is None
            &&& after.status.pid == gui.status.pid
            &&& after.status.updated_at == gui.status.updated_at
            &&& after.optimistic_running matches Some(e) && e.running && e.deadline == now + 4000
            &&& after.feedback == message@
            &&& !after.busy
            &&& !after.waiting
            &&& after.pending_action is None
            &&& after.last_refresh == now - 2000
        }),
{
}

/// Once a stop has succeeded the service is shown as stopped, and believed to
/// be for four seconds whatever its state says; the window is free again.
pub proof fn law_stop_succeeded(gui: GuiModel, message: String, now: u64)
    requires
        gui.waiting,
        gui.pending_action == Some(GuiAction::Stop),
        2000 <= now,
        now + 4000 <= u64::MAX,
    ensures
        ({
            let after = polled(gui, ActionOutcome::Succeeded(message), now);
            &&& !after.status.running
            &&& after.status.status_text == "已停止"@
            &&& after.status.last_error is None
            &&& after.status.pid == gui.status.pid
            &&& after.status.updated_at == gui.status.updated_at
            &&& after.optimistic_running matches Some(e) && !e.running && e.deadline == now + 4000
            &&& after.feedback == message@
            &&& !after.busy
            &&& !after.waiting
            &&& after.pending_action is None
            &&& after.last_refresh == now - 2000
        }),
{
}

/// Once an action has failed its error is shown, nothing is believed any more,
/// and the window is free again. After a start the service is shown as failed;
/// after a stop the state that was read is shown, or the one before where none
/// could be.
pub proof fn law_action_failed(
    gui: GuiModel,
    message: String,
    status: Option<ServiceState>,
    now: u64,
)
    requires
        gui.waiting,
        2000 <= now,
    ensures
        ({
            let after = polled(gui, ActionOutcome::Failed(message, status), now);
            let read = match status {
                Some(s) => s@,
                None => gui.status,
            };
            &&& after.status.last_error == Some(message@)
            &&& gui.pending_action == Some(GuiAction::Start) ==> {
                &&& !after.status.running
                &&& after.status.pid is None
                &&& after.status.status_text == "启动失败"@
                &&& after.status.updated_at == gui.status.updated_at
            }
            &&& gui.pending_action != Some(GuiAction::Start) ==> {
                &&& after.status.running == read.running
                &&& after.status.pid == read.pid
                &&& after.status.status_text == read.status_text
                &&& after.status.updated_at == read.updated_at
            }
            &&& after.optimistic_running is None
            &&& after.feedback == "操作失败: "@ + message@
            &&& !after.busy
            &&& !after.waiting
            &&& after.pending_action is None
            &&& after.last_refresh == now - 2000
        }),
{
}

/// Once an action is lost the window says so, believes nothing any more and is
/// free again; the state is shown as before.
pub proof fn law_action_lost(gui: GuiModel, now: u64)
    requires
        gui.waiting,
    ensures
        ({
            let after = polled(gui, ActionOutcome::Lost, now);
            &&& after.feedback == "后台任务意外中断"@
            &&& after.optimistic_running is None
            &&& !after.busy
            &&& !after.waiting
            &&& after.pending_action is None
            &&& after.status == gui.status
            &&& after.last_refresh == gui.last_refresh
        }),
{
}

/// What is believed is shown in the place of a state that says something else,
/// until its time is over; an error is always shown.
pub proof fn law_what_is_believed_is_shown(status: StateModel, e: Expectation, now: u64)
    ensures
        now < e.deadline && status.last_error is None && e.running && !status.running ==> {
            let shown = expected_status(status, Some(e), now);
            &&& shown.running
            &&& shown.status_text == "加速中"@
            &&& shown.pid == status.pid
            &&& shown.last_error is None
            &&& shown.updated_at == status.updated_at
        },
        now < e.deadline && status.last_error is None && !e.running && status.running ==> {
            let shown = expected_status(status, Some(e), now);
            &&& !shown.running
            &&& shown.status_text == "已停止"@
            &&& shown.pid is None
            &&& shown.last_error is None
            &&& shown.updated_at == status.updated_at
        },
        status.running == e.running ==> expected_status(status, Some(e), now) == status,
        now >= e.deadline ==> expected_status(status, Some(e), now) == status && expectation_left(
            Some(e),
            now,
        ) is None,
        now < e.deadline ==> expectation_left(Some(e), now) == Some(e),
        expected_status(status, None, now) == status,
        expectation_left(None, now) is None,
{
}

/// A look at the state and at the log takes up what could be read, and changes
/// nothing else; without either nothing changes.
pub proof fn law_refresh_takes_up_what_was_read(
    gui: GuiModel,
    status: StateModel,
    logs: Seq<Seq<char>>,
    now: u64,
)
    ensures
        refreshed(gui, None, None, now) == gui,
        refreshed(gui, None, Some(logs), now).recent_logs == logs,
        refreshed(gui, None, Some(logs), now).status == gui.status,
        refreshed(gui, Some(status), None, now).recent_logs == gui.recent_logs,
        refreshed(gui, Some(status), Some(logs), now).recent_logs == logs,
        refreshed(gui, Some(status), None, now).status == expected_status(
            status,
            gui.optimistic_running,
            now,
        ),
        refreshed(gui, Some(status), Some(logs), now).status == refreshed(
            gui,
            Some(status),
            None,
            now,
        ).status,
        ({
            let after = refreshed(gui, Some(status), Some(logs), now);
            &&& after.feedback == gui.feedback
            &&& after.busy == gui.busy
            &&& after.waiting == gui.waiting
            &&& after.pending_action == gui.pending_action
            &&& after.confirm_action == gui.confirm_action
            &&& after.last_refresh == gui.last_refresh
            &&& after.current_page == gui.current_page
            &&& after.hidden_to_tray == gui.hidden_to_tray
            &&& after.last_minimized == gui.last_minimized
            &&& with_status(gui, status, now).optimistic_running == after.optimistic_running
        }),
{
}

/// A question goes away once it is answered or closed, and only then; only an
/// action that was confirmed is taken up.
pub proof fn law_answers(
    gui: GuiModel,
    action: GuiAction,
    confirmed: bool,
    cancelled: bool,
    open: bool,
)
    ensures
        gui.confirm_action is None ==> answered(gui, confirmed, cancelled, open) == gui,
        gui.confirm_action == Some(action) ==> {
            let after = answered(gui, confirmed, cancelled, open);
            &&& confirmed || cancelled || !open <==> after.confirm_action is None
            &&& !confirmed ==> after.busy == gui.busy && after.pending_action
                == gui.pending_action && after.feedback == gui.feedback && after.waiting
                == gui.waiting
            &&& gui.busy ==> after.pending_action == gui.pending_action && after.feedback
                == gui.feedback
            &&& confirmed && !gui.busy ==> after.busy && after.waiting && after.pending_action
                == Some(action)
            &&& after.status == gui.status
            &&& after.recent_logs == gui.recent_logs
            &&& after.optimistic_running == gui.optimistic_running
            &&& after.last_refresh == gui.last_refresh
            &&& after.current_page == gui.current_page
            &&& after.hidden_to_tray == gui.hidden_to_tray
            &&& after.last_minimized == gui.last_minimized
        },
{
}

// ---------------------------------------------------------------------------
// The course of an action
// ---------------------------------------------------------------------------

/// A start on macOS, and nothing else, has the certificate prepared before
/// anything else, and fails where that does.
pub proof fn law_certificate_is_prepared_first(os: Os, action: GuiAction, known: ActionKnown)
    ensures
        os == Os::MacOs && action == GuiAction::Start && known.prepared is None
            ==> next_action_step(os, action, known) is PrepareCertificate,
        os == Os::MacOs && action == GuiAction::Start ==> (known.prepared matches Some(Err(why))
            ==> next_action_step(os, action, known) == ActionStepModel::Fail(
            seq!["macOS certificate preparation failed"@] + texts(why@),
            None,
        )),
        os != Os::MacOs || action == GuiAction::Stop ==> !(next_action_step(os, action, known)
            is PrepareCertificate),
{
}

/// Then an action goes through its stages in order: the state is read, the
/// command of the action is carried out with more rights, and the state is
/// read again, once where that was refused, and until it shows the action
/// where it was granted.
pub proof fn law_stages_of_an_action(
    os: Os,
    action: GuiAction,
    known: ActionKnown,
    before: ServiceState,
)
    requires
        os != Os::MacOs || action == GuiAction::Stop || known.prepared == Some(
            Ok::<(), Vec<String>>(()),
        ),
    ensures
        known.before is None ==> next_action_step(os, action, known) is ReadBefore,
        known.before == Some(before) && known.request is None ==> next_action_step(
            os,
            action,
            known,
        ) == ActionStepModel::Request(
            (LogLevel::Info, "GUI 已发起管理员操作请求"@),
            if action == GuiAction::Start {
                "helper-start"@
            } else {
                "helper-stop"@
            },
        ),
        known.before == Some(before) ==> match known.request {
            Some(RequestReply::NotLocated(why)) => next_action_step(os, action, known)
                == ActionStepModel::Fail(texts(why@), None),
            Some(RequestReply::Refused(why)) => match known.after {
                None => next_action_step(os, action, known) is ReadAfter,
                Some(after) => next_action_step(os, action, known) == refused_step(
                    action,
                    before@,
                    opt_state(after),
                    texts(why@),
                ),
            },
            Some(RequestReply::Granted) => next_action_step(os, action, known) == granted_step(
                action,
                known.latest,
                known.waited,
            ),
            None => true,
        },
{
}

/// Once the request was granted the state is read at once, and then every 200
/// milliseconds for up to twelve seconds, until it shows the action or an
/// error.
pub proof fn law_wait_for_an_action(
    action: GuiAction,
    status: ServiceState,
    why: Vec<String>,
    waited: u64,
)
    ensures
        granted_step(action, None, waited) == ActionStepModel::ReadLatest(0),
        granted_step(action, Some(Err(why)), waited) == ActionStepModel::Fail(texts(why@), None),
        ({
            let shown = status.running == (action == GuiAction::Start);
            let step = granted_step(action, Some(Ok(status)), waited);
            &&& shown && action == GuiAction::Start ==> step == ActionStepModel::Done(
                "加速已启动，可以直接最小化窗口"@,
            )
            &&& shown && action == GuiAction::Stop ==> step == ActionStepModel::Done(
                status.status_text@,
            )
            &&& !shown ==> (status@.last_error matches Some(e) ==> step == ActionStepModel::Fail(
                seq![e],
                None,
            ))
            &&& !shown && status@.last_error is None && waited < 12_000 ==> step
                == ActionStepModel::ReadLatest(200)
            &&& !shown && status@.last_error is None && waited >= 12_000 ==> step
                == ActionStepModel::Fail(
                seq![
                    "service state did not update in time (status: "@ + status.status_text@ + ")"@,
                ],
                None,
            )
        }),
{
}

/// A request that was refused is explained by the error in the state, where
/// there is one; a stop also by the state where that has changed; and else by
/// its own messages. What it failed at stands in front.
pub proof fn law_refused_request(
    action: GuiAction,
    before: StateModel,
    status: StateModel,
    messages: Seq<Seq<char>>,
)
    requires
        messages.len() > 0,
    ensures
        ({
            let at = if action == GuiAction::Start {
                "elevation or command execution failed"@
            } else {
                "failed to stop acceleration from GUI"@
            };
            let step = refused_step(action, before, Some(status), messages);
            &&& status.last_error matches Some(e) ==> step == ActionStepModel::Fail(
                seq![at, e],
                Some((LogLevel::Error, "GUI 操作失败："@ + e)),
            )
            &&& status.last_error is None && action == GuiAction::Stop && before != status ==> step
                == ActionStepModel::Fail(
                seq![at, status.status_text],
                Some((LogLevel::Warn, "GUI 检测到状态已变化："@ + status.status_text)),
            )
            &&& status.last_error is None && (action == GuiAction::Start || before == status)
                ==> step == ActionStepModel::Fail(
                seq![at] + messages,
                Some((LogLevel::Error, "GUI 提权执行失败："@ + messages[0])),
            )
            &&& refused_step(action, before, None, messages) == ActionStepModel::Fail(
                seq![at] + messages,
                Some((LogLevel::Error, "GUI 提权执行失败："@ + messages[0])),
            )
        }),
{
    let at = if action == GuiAction::Start {
        "elevation or command execution failed"@
    } else {
        "failed to stop acceleration from GUI"@
    };
    if let Some(e) = status.last_error {
        assert(seq![at] + seq![e] =~= seq![at, e]);
    }
    assert(seq![at] + seq![status.status_text] =~= seq![at, status.status_text]);
}

/// What is written into the log of a refused request, and what the user is
/// told.
pub proof fn law_failed_requests(
    action: GuiAction,
    before: StateModel,
    status: StateModel,
    error: Seq<char>,
)
    ensures
        request_failure(action, before, None, error) == (
            LogLevel::Error,
            "GUI 提权执行失败："@ + error,
            error,
        ),
        status.last_error matches Some(last) ==> request_failure(
            action,
            before,
            Some(status),
            error,
        ) == (LogLevel::Error, "GUI 操作失败："@ + last, last),
        status.last_error is None && action == GuiAction::Stop && before != status
            ==> request_failure(action, before, Some(status), error) == (
            LogLevel::Warn,
            "GUI 检测到状态已变化："@ + status.status_text,
            status.status_text,
        ),
        status.last_error is None && (action == GuiAction::Start || before == status)
            ==> request_failure(action, before, Some(status), error) == (
            LogLevel::Error,
            "GUI 提权执行失败："@ + error,
            error,
        ),
{
}

/// The levels of the log have these words.
pub proof fn law_levels_in_words()
    ensures
        LogLevel::Info.word() == "INFO"@,
        LogLevel::Warn.word() == "WARN"@,
        LogLevel::Error.word() == "ERROR"@,
{
}

proof fn lemma_repeats_last(messages: Seq<Seq<char>>)
    requires
        messages.len() > 0,
    ensures
        without_repeats(messages).len() > 0,
        without_repeats(messages).last() == messages.last(),
    decreases messages.len(),
{
    if messages.len() > 1 {
        lemma_repeats_last(messages.drop_last());
    }
}

/// Of messages one after another that are the same one is left, and all others
/// stay, in their order.
pub proof fn law_repeated_messages(messages: Seq<Seq<char>>, next: Seq<char>)
    ensures
        without_repeats(Seq::<Seq<char>>::empty()).len() == 0,
        without_repeats(seq![next]) == seq![next],
        messages.len() > 0 && messages.last() == next ==> without_repeats(messages.push(next))
            == without_repeats(messages),
        messages.len() > 0 && messages.last() != next ==> without_repeats(messages.push(next))
            == without_repeats(messages).push(next),
{
    let more = messages.push(next);
    assert(more.drop_last() =~= messages);
    if messages.len() > 0 {
        lemma_repeats_last(messages);
    }
    assert(seq![next].drop_last() =~= Seq::<Seq<char>>::empty());
    assert(Seq::<Seq<char>>::empty().push(next) =~= seq![next]);
}

// ---------------------------------------------------------------------------
// The tray and the pages
// ---------------------------------------------------------------------------

/// A window that goes into the tray is hidden there and minimized, or closed
/// on macOS, where a tray of its own takes over; where there is none, or it
/// fails, the window is only minimized and says why.
pub proof fn law_going_into_the_tray(gui: GuiModel, os: Os, error: String)
    requires
        os == Os::Linux || os == Os::Windows || os == Os::MacOs,
    ensures
        ({
            let (after, commands) = minimized(gui, os, TrayReply::Shown);
            &&& after.hidden_to_tray
            &&& after.last_minimized
            &&& after.feedback == gui.feedback
            &&& after.status == gui.status
            &&& os == Os::MacOs ==> commands == seq![WindowCommand::Close]
            &&& os != Os::MacOs ==> commands == seq![
                WindowCommand::Minimize,
                WindowCommand::Repaint,
            ]
        }),
        ({
            let (after, commands) = minimized(gui, os, TrayReply::Unavailable);
            &&& !after.hidden_to_tray
            &&& after.last_minimized
            &&& after.feedback == "托盘不可用，已退回系统最小化"@
            &&& after.status == gui.status
            &&& commands == seq![WindowCommand::Minimize, WindowCommand::Repaint]
        }),
        ({
            let (after, commands) = minimized(gui, os, TrayReply::Failed(error));
            &&& !after.hidden_to_tray
            &&& after.last_minimized
            &&& after.feedback == "托盘最小化失败，已退回系统最小化: "@ + error@
            &&& after.status == gui.status
            &&& commands == seq![WindowCommand::Minimize, WindowCommand::Repaint]
        }),
{
}

/// The window is drawn ten times a second while something is going on, every
/// fifteen seconds in the tray, and every five seconds otherwise.
pub proof fn law_how_often_the_window_is_drawn(gui: GuiModel)
    ensures
        gui.busy || gui.waiting || gui.confirm_action is Some ==> interval(gui) == 100,
        !(gui.busy || gui.waiting || gui.confirm_action is Some) && gui.hidden_to_tray ==> interval(
            gui,
        ) == 15000,
        !(gui.busy || gui.waiting || gui.confirm_action is Some) && !gui.hidden_to_tray
            ==> interval(gui) == 5000,
{
}

/// The first page has one size, and the others can be made larger and smaller
/// from one that they share.
pub proof fn law_sizes_of_pages(page: UiPage)
    ensures
        size_of_page(UiPage::Launcher) == (PageSize {
            width: 720,
            height: 260,
            min_width: 720,
            min_height: 260,
            max_width: 720,
            max_height: 260,
            resizable: false,
        }),
        page != UiPage::Launcher ==> size_of_page(page) == (PageSize {
            width: 760,
            height: 520,
            min_width: 720,
            min_height: 520,
            max_width: 1200,
            max_height: 900,
            resizable: true,
        }),
{
}

// ---------------------------------------------------------------------------
// What the window says
// ---------------------------------------------------------------------------

/// The headline tells of an action that runs first, then of a service that
/// runs, then of an error, in the words and the colour of each.
pub proof fn law_headlines(gui: GuiModel)
    ensures
        ({
            let h = headline_of(gui);
            let shade = h.shade();
            &&& gui.busy ==> {
                &&& h.word() == "处理中"@
                &&& h.words() == "正在处理"@
                &&& shade.red == 250 && shade.green == 196 && shade.blue == 92
            }
            &&& !gui.busy && gui.status.running ==> {
                &&& h.word() == "已接管"@
                &&& h.words() == "正在加速"@
                &&& shade.red == 106 && shade.green == 220 && shade.blue == 155
            }
            &&& !gui.busy && !gui.status.running && gui.status.last_error is Some ==> {
                &&& h.word() == "异常"@
                &&& h.words() == "加速异常"@
                &&& shade.red == 255 && shade.green == 120 && shade.blue == 100
            }
            &&& !gui.busy && !gui.status.running && gui.status.last_error is None ==> {
                &&& h.word() == "待启动"@
                &&& h.words() == "等待启动"@
                &&& shade.red == 162 && shade.green == 173 && shade.blue == 184
            }
        }),
{
}

/// The feedback to the last action is shown as long as there is any, and what
/// the state says otherwise; the log is shown as it is, or that there is none.
pub proof fn law_messages(gui: GuiModel)
    ensures
        gui.feedback.len() > 0 ==> message_of(gui) == gui.feedback,
        gui.feedback.len() == 0 ==> message_of(gui) == gui.status.status_text,
        gui.recent_logs.len() > 0 ==> log_lines(gui) == gui.recent_logs,
        gui.recent_logs.len() == 0 ==> log_lines(gui) == seq![
            "暂无运行日志。执行开始、停止、恢复等操作后会在这里显示。"@,
        ],
{
}

/// The large button stops a service that runs and starts one that does not,
/// and can be used unless an action runs.
pub proof fn law_large_button(gui: GuiModel)
    ensures
        gui.status.running ==> button_of(gui).action == GuiAction::Stop,
        !gui.status.running ==> button_of(gui).action == GuiAction::Start,
        button_of(gui).enabled <==> !gui.busy,
        ({
            let b = button_of(gui);
            &&& gui.status.running ==> {
                &&& b.fill.red == 186 && b.fill.green == 63 && b.fill.blue == 21
                &&& b.text.red == 248 && b.text.green == 245 && b.text.blue == 243
                &&& b.stroke.red == 223 && b.stroke.green == 109 && b.stroke.blue == 51
            }
            &&& !gui.status.running ==> {
                &&& b.fill.red == 229 && b.fill.green == 171 && b.fill.blue == 66
                &&& b.text.red == 29 && b.text.green == 24 && b.text.blue == 16
                &&& b.stroke.red == 214 && b.stroke.green == 158 && b.stroke.blue == 59
            }
        }),
{
}

/// The panel about the configuration counts what it is about, and shows the
/// upstream and the first endpoint.
pub proof fn law_configuration_panel(config: ConfigModel, domains: nat)
    ensures
        ({
            let panel = config_panel(config, domains);
            &&& panel.domains == decimal(domains)
            &&& panel.endpoints == decimal(config.doh_endpoints.len())
            &&& panel.certificates == decimal(config.certificate_domains.len())
            &&& panel.upstream == config.upstream
            &&& config.doh_endpoints.len() > 0 ==> panel.first_endpoint == config.doh_endpoints[0]
            &&& config.doh_endpoints.len() == 0 ==> panel.first_endpoint == "未配置"@
        }),
{
}

/// The fonts that are looked for are those that each system brings for Chinese
/// text, best first.
pub proof fn law_fonts()
    ensures
        font_families(Os::Windows) == seq![
            "Microsoft YaHei UI"@,
            "Microsoft YaHei"@,
            "SimHei"@,
        ],
        font_families(Os::MacOs) == seq!["PingFang SC"@, "Hiragino Sans GB"@],
        font_families(Os::Linux) == seq![
            "Noto Sans CJK SC"@,
            "Noto Sans SC"@,
            "WenQuanYi Micro Hei"@,
            "Source Han Sans SC"@,
            "Droid Sans Fallback"@,
        ],
        font_families(Os::Android).len() == 0,
        font_families(Os::Other).len() == 0,
{
}

/// What is said of an action, and the command that does it.
pub proof fn law_words_of_actions()
    ensures
        GuiAction::Start.pending_text() == "正在申请权限并启动加速..."@,
        GuiAction::Stop.pending_text() == "正在停止加速并恢复 hosts..."@,
        GuiAction::Start.command_name() == "helper-start"@,
        GuiAction::Stop.command_name() == "helper-stop"@,
        GuiAction::Start.error_prefix() == "elevation or command execution failed"@,
        GuiAction::Stop.error_prefix() == "failed to stop acceleration from GUI"@,
{
}

/// An action shows in a state that says that the service runs, for a start,
/// or that it does not, for a stop. Until then an error in the state ends the
/// wait, and after twelve seconds the time does.
pub proof fn law_progress(action: GuiAction, status: StateModel, waited: u64)
    ensures
        ({
            let shown = status.running == (action == GuiAction::Start);
            let progress = progress_of(action, status, waited);
            &&& shown && action == GuiAction::Start ==> progress == Ok::<
                Option<Seq<char>>,
                Seq<char>,
            >(Some("加速已启动，可以直接最小化窗口"@))
            &&& shown && action == GuiAction::Stop ==> progress == Ok::<
                Option<Seq<char>>,
                Seq<char>,
            >(Some(status.status_text))
            &&& !shown ==> (status.last_error matches Some(e) ==> progress == Err::<
                Option<Seq<char>>,
                Seq<char>,
            >(e))
            &&& !shown && status.last_error is None && waited < 12_000 ==> progress == Ok::<
                Option<Seq<char>>,
                Seq<char>,
            >(None)
            &&& !shown && status.last_error is None && waited >= 12_000 ==> progress == Err::<
                Option<Seq<char>>,
                Seq<char>,
            >("service state did not update in time (status: "@ + status.status_text + ")"@)
        }),
{
}

/// What is said of a window is what it holds.
pub proof fn law_window_as_it_is(gui: GuiState)
    ensures
        gui@.status == gui.status@,
        gui@.recent_logs == texts(gui.recent_logs@),
        gui@.feedback == gui.feedback@,
        gui@.busy == gui.busy,
        gui@.waiting == gui.waiting,
        gui@.pending_action == gui.pending_action,
        gui@.confirm_action == gui.confirm_action,
        gui@.optimistic_running == gui.optimistic_running,
        gui@.last_refresh == gui.last_refresh,
        gui@.current_page == gui.current_page,
        gui@.hidden_to_tray == gui.hidden_to_tray,
        gui@.last_minimized == gui.last_minimized,
{
}

/// What is said of a step of an action is what it is.
pub proof fn law_action_steps_as_they_are(
    level: LogLevel,
    text: String,
    command: String,
    pause: u64,
    messages: Vec<String>,
)
    ensures
        ActionStep::PrepareCertificate@ == ActionStepModel::PrepareCertificate,
        ActionStep::ReadBefore@ == ActionStepModel::ReadBefore,
        ActionStep::Request((level, text), command)@ == ActionStepModel::Request(
            (level, text@),
            command@,
        ),
        ActionStep::ReadAfter@ == ActionStepModel::ReadAfter,
        ActionStep::ReadLatest(pause)@ == ActionStepModel::ReadLatest(pause),
        ActionStep::Done(text)@ == ActionStepModel::Done(text@),
        ActionStep::Fail(messages, None)@ == ActionStepModel::Fail(texts(messages@), None),
        ActionStep::Fail(messages, Some((level, text)))@ == ActionStepModel::Fail(
            texts(messages@),
            Some((level, text@)),
        ),
{
}

/// Going into the tray changes nothing else; on a system without a tray the
/// window is minimized and stays as it is.
pub proof fn law_tray_leaves_the_rest(gui: GuiModel, os: Os, tray: TrayReply)
    ensures
        ({
            let after = minimized(gui, os, tray).0;
            &&& after.status == gui.status
            &&& after.recent_logs == gui.recent_logs
            &&& after.busy == gui.busy
            &&& after.waiting == gui.waiting
            &&& after.pending_action == gui.pending_action
            &&& after.confirm_action == gui.confirm_action
            &&& after.optimistic_running == gui.optimistic_running
            &&& after.last_refresh == gui.last_refresh
            &&& after.current_page == gui.current_page
        }),
        os == Os::Android || os == Os::Other ==> minimized(gui, os, tray) == (
            gui,
            seq![WindowCommand::Minimize],
        ),
{
}

/// An outcome without an action leaves the state as it was, and is told.
pub proof fn law_outcome_without_an_action(gui: GuiModel, message: String, now: u64)
    requires
        gui.waiting,
        gui.pending_action is None,
    ensures
        ({
            let after = polled(gui, ActionOutcome::Succeeded(message), now);
            &&& after.status == gui.status
            &&& after.optimistic_running == gui.optimistic_running
            &&& after.feedback == message@
        }),
{
}

} // verus!
