//! What the window shows and does: the state behind it, how that changes, and
//! what each panel says.
use crate::config::{managed_domains, AppConfig, ConfigModel};
use crate::lines::{join, joined};
use crate::number::{decimal, to_decimal};
use crate::platform::Os;
use crate::service::cli_name;
use crate::state::{ServiceState, StateModel, START_FAILED, STOPPED};
use crate::text::{followed_by, opt_text, same_text, texts};
use vstd::prelude::*;

verus! {

// ---------------------------------------------------------------------------
// Actions
// ---------------------------------------------------------------------------

/// What the user can have done.
#[derive(Debug, Clone, Copy, PartialEq, Eq, Structural)]
pub enum GuiAction {
    Start,
    Stop,
}

impl GuiAction {
    /// What is shown while the action runs.
    pub open spec fn pending_text(self) -> Seq<char> {
        match self {
            GuiAction::Start => "正在申请权限并启动加速..."@,
            GuiAction::Stop => "正在停止加速并恢复 hosts..."@,
        }
    }

    /// The command that does it.
    pub open spec fn command_name(self) -> Seq<char> {
        match self {
            GuiAction::Start => "helper-start"@,
            GuiAction::Stop => "helper-stop"@,
        }
    }

    /// What stands in front of an error of the action.
    pub open spec fn error_prefix(self) -> Seq<char> {
        match self {
            GuiAction::Start => "elevation or command execution failed"@,
            GuiAction::Stop => "failed to stop acceleration from GUI"@,
        }
    }

    /// What is shown while the action runs.
    pub fn pending_message(self) -> (r: &'static str)
        ensures
            r@ == self.pending_text(),
    {
        match self {
            GuiAction::Start => "正在申请权限并启动加速...",
            GuiAction::Stop => "正在停止加速并恢复 hosts...",
        }
    }

    /// The command that does it.
    pub fn subcommand(self) -> (r: &'static str)
        ensures
            r@ == self.command_name(),
    {
        match self {
            GuiAction::Start => "helper-start",
            GuiAction::Stop => "helper-stop",
        }
    }

    /// The title of the question whether to do it.
    pub fn confirm_title(self) -> (r: &'static str)
        ensures
            r@ == "确认操作"@,
    {
        "确认操作"
    }

    /// The button that says yes.
    pub fn confirm_button(self) -> (r: &'static str)
        ensures
            r@ == "确认"@,
    {
        "确认"
    }

    /// What stands in front of an error of the action.
    pub fn error_context(self) -> (r: &'static str)
        ensures
            r@ == self.error_prefix(),
    {
        match self {
            GuiAction::Start => "elevation or command execution failed",
            GuiAction::Stop => "failed to stop acceleration from GUI",
        }
    }
}

/// The arguments of this program for a command on a configuration.
pub fn program_args(config_path: &str, command: &str) -> (r: Vec<String>)
    ensures
        texts(r@) == seq!["--config"@, config_path@, command@],
{
    let args = vec!["--config".to_string(), config_path.to_string(), command.to_string()];
    assert(texts(args@) =~= seq!["--config"@, config_path@, command@]);
    args
}

// ---------------------------------------------------------------------------
// The state behind the window
// ---------------------------------------------------------------------------

/// The pages of the window.
#[derive(Debug, Clone, Copy, PartialEq, Eq, Structural)]
pub enum UiPage {
    Launcher,
    Details,
    Config,
    About,
}

/// A running action, expected to show in the state until a time.
#[derive(Debug, Clone, Copy, PartialEq, Eq, Structural)]
pub struct Expectation {
    pub running: bool,
    pub deadline: u64,
}

/// The state behind the window. Times are in milliseconds.
#[derive(Debug)]
pub struct GuiState {
    pub status: ServiceState,
    pub recent_logs: Vec<String>,
    pub feedback: String,
    pub busy: bool,
    /// Whether the outcome of an action is waited for.
    pub waiting: bool,
    pub pending_action: Option<GuiAction>,
    pub confirm_action: Option<GuiAction>,
    pub optimistic_running: Option<Expectation>,
    pub last_refresh: u64,
    pub current_page: UiPage,
    pub hidden_to_tray: bool,
    pub last_minimized: bool,
}

/// The state behind the window, as mathematical values.
#[verifier::ext_equal]
pub struct GuiModel {
    pub status: StateModel,
    pub recent_logs: Seq<Seq<char>>,
    pub feedback: Seq<char>,
    pub busy: bool,
    pub waiting: bool,
    pub pending_action: Option<GuiAction>,
    pub confirm_action: Option<GuiAction>,
    pub optimistic_running: Option<Expectation>,
    pub last_refresh: u64,
    pub current_page: UiPage,
    pub hidden_to_tray: bool,
    pub last_minimized: bool,
}

impl View for GuiState {
    type V = GuiModel;

    open spec fn view(&self) -> GuiModel {
        GuiModel {
            status: self.status@,
            recent_logs: texts(self.recent_logs@),
            feedback: self.feedback@,
            busy: self.busy,
            waiting: self.waiting,
            pending_action: self.pending_action,
            confirm_action: self.confirm_action,
            optimistic_running: self.optimistic_running,
            last_refresh: self.last_refresh,
            current_page: self.current_page,
            hidden_to_tray: self.hidden_to_tray,
            last_minimized: self.last_minimized,
        }
    }
}

/// How far back the last refresh is put, so that another one is due soon.
pub const REFRESH_BACKDATE: u64 = 2000;

/// How long the outcome of an action is believed before the state shows it.
pub const OPTIMISTIC_TIME: u64 = 4000;

/// The text for a service that is believed to run.
pub const BELIEVED_RUNNING: &'static str = "加速中";

/// What is shown where the action ended without an outcome.
pub const ACTION_LOST: &'static str = "后台任务意外中断";

/// What stands in front of the error of an action.
pub const ACTION_FAILED: &'static str = "操作失败: ";

/// What is shown where there is no tray.
pub const TRAY_MISSING: &'static str = "托盘不可用，已退回系统最小化";

/// What stands in front of the error where the tray could not be started.
pub const TRAY_FAILED: &'static str = "托盘最小化失败，已退回系统最小化: ";

impl GuiState {
    /// The state of a window that has just been opened.
    pub fn new(status: ServiceState, recent_logs: Vec<String>, now: u64) -> (r: GuiState)
        requires
            now >= 2000,
        ensures
            r@ == (GuiModel {
                status: status@,
                recent_logs: texts(recent_logs@),
                feedback: Seq::empty(),
                busy: false,
                waiting: false,
                pending_action: None,
                confirm_action: None,
                optimistic_running: None,
                last_refresh: (now - 2000) as u64,
                current_page: UiPage::Launcher,
                hidden_to_tray: false,
                last_minimized: false,
            }),
    {
        let r = GuiState {
            status,
            recent_logs,
            feedback: String::new(),
            busy: false,
            waiting: false,
            pending_action: None,
            confirm_action: None,
            optimistic_running: None,
            last_refresh: now - REFRESH_BACKDATE,
            current_page: UiPage::Launcher,
            hidden_to_tray: false,
            last_minimized: false,
        };
        assert(r.feedback@ =~= Seq::<char>::empty());
        r
    }
}

/// What is shown for a state that was read, where an action is expected to
/// show in it: the expectation counts until its time is up, unless there is
/// an error.
pub open spec fn expected_status(
    status: StateModel,
    expectation: Option<Expectation>,
    now: u64,
) -> StateModel {
    match expectation {
        Some(e) => if now >= e.deadline || status.last_error is Some || status.running
            == e.running {
            status
        } else if e.running {
            StateModel { running: true, status_text: BELIEVED_RUNNING@, ..status }
        } else {
            StateModel { running: false, pid: None, status_text: STOPPED@, ..status }
        },
        None => status,
    }
}

/// What is left of an expectation at the time `now`.
pub open spec fn expectation_left(expectation: Option<Expectation>, now: u64) -> Option<
    Expectation,
> {
    match expectation {
        Some(e) => if now >= e.deadline {
            None
        } else {
            Some(e)
        },
        None => None,
    }
}

/// The window after a state was read.
pub open spec fn with_status(gui: GuiModel, status: StateModel, now: u64) -> GuiModel {
    GuiModel {
        status: expected_status(status, gui.optimistic_running, now),
        optimistic_running: expectation_left(gui.optimistic_running, now),
        ..gui
    }
}

impl GuiState {
    /// Takes up a state that was read.
    pub fn apply_optimistic_state(&mut self, status: ServiceState, now: u64)
        ensures
            final(self)@ == with_status(old(self)@, status@, now),
    {
        let ghost read = status@;
        let mut status = status;
        if let Some(e) = self.optimistic_running {
            if now >= e.deadline {
                self.optimistic_running = None;
            } else {
                if e.running && !status.running && status.last_error.is_none() {
                    status.running = true;
                    status.status_text = BELIEVED_RUNNING.to_string();
                } else if !e.running && status.running && status.last_error.is_none() {
                    status.running = false;
                    status.pid = None;
                    status.status_text = STOPPED.to_string();
                }
            }
        }
        self.status = status;
        assert(self@ =~= with_status(old(self)@, read, now));
    }
}

/// The window after a look at the state and at the log: a state that could be
/// read is taken up, and the last lines of a log that has changed.
pub open spec fn refreshed(
    gui: GuiModel,
    status: Option<StateModel>,
    logs: Option<Seq<Seq<char>>>,
    now: u64,
) -> GuiModel {
    let told = match status {
        Some(s) => with_status(gui, s, now),
        None => gui,
    };
    match logs {
        Some(lines) => GuiModel { recent_logs: lines, ..told },
        None => told,
    }
}

impl GuiState {
    /// Takes up a state, where one could be read, and the last lines of the
    /// log, where it has changed.
    pub fn refresh_status(
        &mut self,
        status: Option<ServiceState>,
        logs: Option<Vec<String>>,
        now: u64,
    )
        ensures
            final(self)@ == refreshed(
                old(self)@,
                opt_state(status),
                match logs {
                    Some(lines) => Some(texts(lines@)),
                    None => None,
                },
                now,
            ),
    {
        if let Some(status) = status {
            self.apply_optimistic_state(status, now);
        }
        if let Some(lines) = logs {
            let ghost before = self@;
            let ghost shown = texts(lines@);
            self.recent_logs = lines;
            assert(self@ =~= (GuiModel { recent_logs: shown, ..before }));
        }
    }

    /// Whether the state is read before a failure of the action that was
    /// started is shown: a start shows as failed without it.
    pub fn refreshes_on_failure(&self) -> (r: bool)
        ensures
            r == (self@.pending_action != Some(GuiAction::Start)),
    {
        match self.pending_action {
            Some(GuiAction::Start) => false,
            _ => true,
        }
    }
}

/// The window after an action was asked for: one that is busy with another
/// stays as it is.
pub open spec fn triggered(gui: GuiModel, action: GuiAction) -> GuiModel {
    if gui.busy {
        gui
    } else {
        GuiModel {
            busy: true,
            feedback: action.pending_text(),
            waiting: true,
            pending_action: Some(action),
            ..gui
        }
    }
}

impl GuiState {
    /// Takes up an action, and says whether it is to be started.
    pub fn trigger_action(&mut self, action: GuiAction) -> (r: bool)
        ensures
            final(self)@ == triggered(old(self)@, action),
            r == !old(self).busy,
    {
        if self.busy {
            return false;
        }
        self.busy = true;
        self.feedback = action.pending_message().to_string();
        self.waiting = true;
        self.pending_action = Some(action);
        assert(self@ =~= triggered(old(self)@, action));
        true
    }
}

/// What is known of an action that was started.
#[derive(Debug)]
pub enum ActionOutcome {
    /// It still runs.
    Running,
    /// It ended without an outcome.
    Lost,
    /// It succeeded, with what to say about it.
    Succeeded(String),
    /// It failed, with the error, and the state that was read after that, if
    /// one could be.
    Failed(String, Option<ServiceState>),
}

/// The window after an action succeeded.
pub open spec fn succeeded(gui: GuiModel, message: Seq<char>, now: u64) -> GuiModel {
    let deadline = (now + OPTIMISTIC_TIME) as u64;
    let told = match gui.pending_action {
        Some(GuiAction::Start) => GuiModel {
            status: StateModel {
                running: true,
                status_text: BELIEVED_RUNNING@,
                last_error: None,
                ..gui.status
            },
            optimistic_running: Some(Expectation { running: true, deadline }),
            ..gui
        },
        Some(GuiAction::Stop) => GuiModel {
            status: StateModel {
                running: false,
                status_text: STOPPED@,
                last_error: None,
                ..gui.status
            },
            optimistic_running: Some(Expectation { running: false, deadline }),
            ..gui
        },
        None => gui,
    };
    settled(GuiModel { feedback: message, ..told }, now)
}

/// The window after an action failed: a start shows as failed, and otherwise
/// the error is shown beside the state that was read.
pub open spec fn failed(
    gui: GuiModel,
    message: Seq<char>,
    status: Option<StateModel>,
    now: u64,
) -> GuiModel {
    let shown = match gui.pending_action {
        Some(GuiAction::Start) => StateModel {
            running: false,
            pid: None,
            status_text: START_FAILED@,
            last_error: Some(message),
            ..gui.status
        },
        _ => StateModel {
            last_error: Some(message),
            ..match status {
                Some(s) => s,
                None => gui.status,
            }
        },
    };
    settled(
        GuiModel {
            status: shown,
            optimistic_running: None,
            feedback: ACTION_FAILED@ + message,
            ..gui
        },
        now,
    )
}

/// The window with no action left, and a refresh due soon.
pub open spec fn settled(gui: GuiModel, now: u64) -> GuiModel {
    GuiModel {
        busy: false,
        waiting: false,
        pending_action: None,
        last_refresh: (now - REFRESH_BACKDATE) as u64,
        ..gui
    }
}

/// The state that a failed action left behind, if one was read.
pub open spec fn opt_state(o: Option<ServiceState>) -> Option<StateModel> {
    match o {
        Some(s) => Some(s@),
        None => None,
    }
}

/// The window after it was told what is known of the action.
pub open spec fn polled(gui: GuiModel, outcome: ActionOutcome, now: u64) -> GuiModel {
    if !gui.waiting {
        gui
    } else {
        match outcome {
            ActionOutcome::Running => gui,
            ActionOutcome::Lost => GuiModel {
                busy: false,
                optimistic_running: None,
                feedback: ACTION_LOST@,
                waiting: false,
                pending_action: None,
                ..gui
            },
            ActionOutcome::Succeeded(message) => succeeded(gui, message@, now),
            ActionOutcome::Failed(message, status) => failed(gui, message@, opt_state(status), now),
        }
    }
}

impl GuiState {
    /// Takes up what is known of the action that was started.
    pub fn poll_action(&mut self, outcome: ActionOutcome, now: u64)
        requires
            2000 <= now,
            now + 4000 <= u64::MAX,
        ensures
            final(self)@ == polled(old(self)@, outcome, now),
    {
        if !self.waiting {
            return ;
        }
        match outcome {
            ActionOutcome::Running => {},
            ActionOutcome::Lost => {
                self.busy = false;
                self.optimistic_running = None;
                self.feedback = ACTION_LOST.to_string();
                self.waiting = false;
                self.pending_action = None;
                assert(self@ =~= polled(old(self)@, outcome, now));
            },
            ActionOutcome::Succeeded(message) => {
                let deadline = now + OPTIMISTIC_TIME;
                self.busy = false;
                self.feedback = message;
                match self.pending_action {
                    Some(GuiAction::Start) => {
                        self.status.running = true;
                        self.status.status_text = BELIEVED_RUNNING.to_string();
                        self.status.last_error = None;
                        self.optimistic_running = Some(Expectation { running: true, deadline });
                    },
                    Some(GuiAction::Stop) => {
                        self.status.running = false;
                        self.status.status_text = STOPPED.to_string();
                        self.status.last_error = None;
                        self.optimistic_running = Some(Expectation { running: false, deadline });
                    },
                    None => {},
                }
                self.last_refresh = now - REFRESH_BACKDATE;
                self.waiting = false;
                self.pending_action = None;
                assert(self@ =~= polled(old(self)@, outcome, now));
            },
            ActionOutcome::Failed(message, status) => {
                self.busy = false;
                self.optimistic_running = None;
                self.feedback = followed_by(ACTION_FAILED, message.as_str());
                match self.pending_action {
                    Some(GuiAction::Start) => {
                        self.status.running = false;
                        self.status.pid = None;
                        self.status.status_text = START_FAILED.to_string();
                        self.status.last_error = Some(message);
                    },
                    _ => {
                        if let Some(read) = status {
                            self.status = read;
                        }
                        self.status.last_error = Some(message);
                    },
                }
                self.last_refresh = now - REFRESH_BACKDATE;
                self.waiting = false;
                self.pending_action = None;
                assert(self@ =~= polled(old(self)@, outcome, now));
            },
        }
    }
}

/// After an action ended, however it did, the next one can be started.
pub proof fn law_every_outcome_frees_the_window(gui: GuiModel, outcome: ActionOutcome, now: u64)
    requires
        gui.waiting,
        !(outcome is Running),
    ensures
        !polled(gui, outcome, now).busy,
        !polled(gui, outcome, now).waiting,
        polled(gui, outcome, now).pending_action is None,
{
}

/// While an action runs no other one is taken up.
pub proof fn law_one_action_at_a_time(gui: GuiModel, first: GuiAction, second: GuiAction)
    requires
        !gui.busy,
    ensures
        triggered(triggered(gui, first), second) == triggered(gui, first),
{
}

/// Once an expectation has run out the state shows as it is.
pub proof fn law_expectation_runs_out(status: StateModel, expectation: Expectation, now: u64)
    requires
        now >= expectation.deadline,
    ensures
        expected_status(status, Some(expectation), now) == status,
        expectation_left(Some(expectation), now) is None,
{
}

/// An error in the state is never hidden by an expectation.
pub proof fn law_errors_are_shown(
    status: StateModel,
    expectation: Option<Expectation>,
    now: u64,
)
    requires
        status.last_error is Some,
    ensures
        expected_status(status, expectation, now) == status,
{
}

// ---------------------------------------------------------------------------
// Carrying out an action
// ---------------------------------------------------------------------------

/// Whether anything about the state differs.
pub fn service_state_changed(before: &ServiceState, after: &ServiceState) -> (r: bool)
    ensures
        r == (before@ != after@),
{
    let same_error = match (&before.last_error, &after.last_error) {
        (Some(a), Some(b)) => same_text(a.as_str(), b.as_str()),
        (None, None) => true,
        _ => false,
    };
    let same = before.running == after.running && before.pid == after.pid && same_text(
        before.status_text.as_str(),
        after.status_text.as_str(),
    ) && same_error && before.updated_at == after.updated_at;
    assert(same ==> before@ =~= after@);
    !same
}

/// How bad what is written into the log is.
#[derive(Debug, Clone, Copy, PartialEq, Eq, Structural)]
pub enum LogLevel {
    Info,
    Warn,
    Error,
}

impl LogLevel {
    /// The word for it in the log.
    pub open spec fn word(self) -> Seq<char> {
        match self {
            LogLevel::Info => "INFO"@,
            LogLevel::Warn => "WARN"@,
            LogLevel::Error => "ERROR"@,
        }
    }

    /// The word for it in the log.
    pub fn text(self) -> (r: &'static str)
        ensures
            r@ == self.word(),
    {
        match self {
            LogLevel::Info => "INFO",
            LogLevel::Warn => "WARN",
            LogLevel::Error => "ERROR",
        }
    }
}

/// What a request for more rights that failed amounts to: the error, and what
/// is written into the log.
#[derive(Debug)]
pub struct FailedRequest {
    pub level: LogLevel,
    pub log: String,
    pub error: String,
}

/// The error of a request for more rights that failed: the one in the state;
/// or, where stopping changed the state, what it says; or else the one of the
/// request.
pub open spec fn request_failure(
    action: GuiAction,
    before: StateModel,
    after: Option<StateModel>,
    error: Seq<char>,
) -> (LogLevel, Seq<char>, Seq<char>) {
    match after {
        Some(status) => match status.last_error {
            Some(last) => (LogLevel::Error, "GUI 操作失败："@ + last, last),
            None => if action != GuiAction::Start && before != status {
                (LogLevel::Warn, "GUI 检测到状态已变化："@ + status.status_text, status.status_text)
            } else {
                (LogLevel::Error, "GUI 提权执行失败："@ + error, error)
            },
        },
        None => (LogLevel::Error, "GUI 提权执行失败："@ + error, error),
    }
}

/// Judges a request for more rights that failed with `error`, given the state
/// before it and the one after it, if that could be read.
pub fn judge_failed_request(
    action: GuiAction,
    before: &ServiceState,
    after: &Option<ServiceState>,
    error: &str,
) -> (r: FailedRequest)
    ensures
        (r.level, r.log@, r.error@) == request_failure(
            action,
            before@,
            opt_state(*after),
            error@,
        ),
{
    if let Some(status) = after {
        if let Some(last) = &status.last_error {
            return FailedRequest {
                level: LogLevel::Error,
                log: followed_by("GUI 操作失败：", last.as_str()),
                error: last.clone(),
            };
        }
        if action != GuiAction::Start && service_state_changed(before, status) {
            return FailedRequest {
                level: LogLevel::Warn,
                log: followed_by("GUI 检测到状态已变化：", status.status_text.as_str()),
                error: status.status_text.clone(),
            };
        }
    }
    FailedRequest {
        level: LogLevel::Error,
        log: followed_by("GUI 提权执行失败：", error),
        error: error.to_string(),
    }
}

/// How the wait for an action to show in the state goes on.
#[derive(Debug)]
pub enum Progress {
    /// Look again after a while.
    Again,
    Done(String),
    Failed(String),
}

/// What is said once the service was started.
pub const STARTED: &'static str = "加速已启动，可以直接最小化窗口";

/// How long an action is waited for until it shows in the state, in
/// milliseconds.
pub const ACTION_TIME: u64 = 12_000;

/// How long it is waited between two looks at that state.
pub const ACTION_PAUSE: u64 = 200;

/// What is written into the log when more rights are asked for.
pub const REQUEST_MADE: &'static str = "GUI 已发起管理员操作请求";

/// How the wait for an action to show in the state goes on, where the state
/// was read after so many milliseconds.
pub open spec fn progress_of(action: GuiAction, status: StateModel, waited: u64) -> Result<
    Option<Seq<char>>,
    Seq<char>,
> {
    if action == GuiAction::Start && status.running {
        Ok(Some(STARTED@))
    } else if action == GuiAction::Stop && !status.running {
        Ok(Some(status.status_text))
    } else {
        match status.last_error {
            Some(e) => Err(e),
            None => if waited >= ACTION_TIME {
                Err(
                    "service state did not update in time (status: "@ + status.status_text + ")"@,
                )
            } else {
                Ok(None)
            },
        }
    }
}

/// Judges the state while an action is waited for.
pub fn judge_progress(action: GuiAction, status: &ServiceState, waited: u64) -> (r: Progress)
    ensures
        match r {
            Progress::Again => progress_of(action, status@, waited) == Ok::<
                Option<Seq<char>>,
                Seq<char>,
            >(None),
            Progress::Done(message) => progress_of(action, status@, waited) == Ok::<
                Option<Seq<char>>,
                Seq<char>,
            >(Some(message@)),
            Progress::Failed(e) => progress_of(action, status@, waited) == Err::<
                Option<Seq<char>>,
                Seq<char>,
            >(e@),
        },
{
    match action {
        GuiAction::Start => {
            if status.running {
                return Progress::Done(STARTED.to_string());
            }
        },
        GuiAction::Stop => {
            if !status.running {
                return Progress::Done(status.status_text.clone());
            }
        },
    }
    if let Some(e) = &status.last_error {
        return Progress::Failed(e.clone());
    }
    if waited >= ACTION_TIME {
        let mut message = followed_by(
            "service state did not update in time (status: ",
            status.status_text.as_str(),
        );
        message.append(")");
        return Progress::Failed(message);
    }
    Progress::Again
}

/// Whether the certificate is prepared before an action: on macOS before a
/// start.
pub fn prepares_certificate(os: Os, action: GuiAction) -> (r: bool)
    ensures
        r == (os == Os::MacOs && action == GuiAction::Start),
{
    os == Os::MacOs && action == GuiAction::Start
}

/// What stands in front of an error of preparing the certificate.
pub const PREPARATION_FAILED: &'static str = "macOS certificate preparation failed";

/// How the request for more rights went. An error is the messages of it and
/// of its causes.
#[derive(Debug)]
pub enum RequestReply {
    /// The command was carried out.
    Granted,
    /// The program to carry it out could not be found.
    NotLocated(Vec<String>),
    /// It was refused, or the command failed.
    Refused(Vec<String>),
}

/// What has been found out in the course of an action. `None` is what has not
/// been asked yet.
#[derive(Debug)]
pub struct ActionKnown {
    /// How preparing the certificate went.
    pub prepared: Option<Result<(), Vec<String>>>,
    /// The state before the request.
    pub before: Option<ServiceState>,
    /// How the request for more rights went.
    pub request: Option<RequestReply>,
    /// The state after the request was refused, if it could be read.
    pub after: Option<Option<ServiceState>>,
    /// The state that was read last after the request was granted.
    pub latest: Option<Result<ServiceState, Vec<String>>>,
    /// How long after the request was granted that state was read, in
    /// milliseconds.
    pub waited: u64,
}

/// What to do next in the course of an action.
#[derive(Debug)]
pub enum ActionStep {
    PrepareCertificate,
    ReadBefore,
    /// Write this into the log, then have this command carried out with more
    /// rights.
    Request((LogLevel, String), String),
    ReadAfter,
    /// Wait for so many milliseconds, then read the state.
    ReadLatest(u64),
    /// The action has succeeded, with what to say about it.
    Done(String),
    /// The action has failed, with the messages of the error and what to
    /// write into the log.
    Fail(Vec<String>, Option<(LogLevel, String)>),
}

/// What to do next in the course of an action, as mathematical values.
#[verifier::ext_equal]
pub enum ActionStepModel {
    PrepareCertificate,
    ReadBefore,
    Request((LogLevel, Seq<char>), Seq<char>),
    ReadAfter,
    ReadLatest(u64),
    Done(Seq<char>),
    Fail(Seq<Seq<char>>, Option<(LogLevel, Seq<char>)>),
}

impl View for ActionStep {
    type V = ActionStepModel;

    open spec fn view(&self) -> ActionStepModel {
        match *self {
            ActionStep::PrepareCertificate => ActionStepModel::PrepareCertificate,
            ActionStep::ReadBefore => ActionStepModel::ReadBefore,
            ActionStep::Request((level, text), command) => ActionStepModel::Request(
                (level, text@),
                command@,
            ),
            ActionStep::ReadAfter => ActionStepModel::ReadAfter,
            ActionStep::ReadLatest(pause) => ActionStepModel::ReadLatest(pause),
            ActionStep::Done(message) => ActionStepModel::Done(message@),
            ActionStep::Fail(messages, log) => ActionStepModel::Fail(
                texts(messages@),
                match log {
                    Some((level, text)) => Some((level, text@)),
                    None => None,
                },
            ),
        }
    }
}

/// The first message of an error.
pub open spec fn top_message(messages: Seq<Seq<char>>) -> Seq<char> {
    if messages.len() > 0 {
        messages[0]
    } else {
        Seq::empty()
    }
}

/// What a refused request amounts to, once the state after it was looked at.
pub open spec fn refused_step(
    action: GuiAction,
    before: StateModel,
    after: Option<StateModel>,
    messages: Seq<Seq<char>>,
) -> ActionStepModel {
    let (level, log, error) = request_failure(action, before, after, top_message(messages));
    let told_by_state = after matches Some(status) && (status.last_error is Some || (action
        != GuiAction::Start && before != status));
    ActionStepModel::Fail(
        seq![action.error_prefix()] + (if told_by_state {
            seq![error]
        } else {
            messages
        }),
        Some((level, log)),
    )
}

/// What to do next once the request was granted: look at the state until it
/// shows the action, at once and then after a pause each time.
pub open spec fn granted_step(
    action: GuiAction,
    latest: Option<Result<ServiceState, Vec<String>>>,
    waited: u64,
) -> ActionStepModel {
    match latest {
        None => ActionStepModel::ReadLatest(0),
        Some(Err(messages)) => ActionStepModel::Fail(texts(messages@), None),
        Some(Ok(status)) => match progress_of(action, status@, waited) {
            Ok(None) => ActionStepModel::ReadLatest(ACTION_PAUSE),
            Ok(Some(message)) => ActionStepModel::Done(message),
            Err(e) => ActionStepModel::Fail(seq![e], None),
        },
    }
}

/// What to do next in the course of an action: the certificate is prepared
/// where that comes first, the state is read, the command is carried out with
/// more rights, and the state is read until it shows the action.
pub open spec fn next_action_step(
    os: Os,
    action: GuiAction,
    known: ActionKnown,
) -> ActionStepModel {
    let prepares = os == Os::MacOs && action == GuiAction::Start;
    if prepares && known.prepared is None {
        ActionStepModel::PrepareCertificate
    } else if prepares && known.prepared matches Some(Err(messages)) {
        ActionStepModel::Fail(
            seq![PREPARATION_FAILED@] + texts(known.prepared->0->Err_0@),
            None,
        )
    } else {
        match known.before {
            None => ActionStepModel::ReadBefore,
            Some(before) => match known.request {
                None => ActionStepModel::Request(
                    (LogLevel::Info, REQUEST_MADE@),
                    action.command_name(),
                ),
                Some(RequestReply::NotLocated(messages)) => ActionStepModel::Fail(
                    texts(messages@),
                    None,
                ),
                Some(RequestReply::Refused(messages)) => match known.after {
                    None => ActionStepModel::ReadAfter,
                    Some(after) => refused_step(
                        action,
                        before@,
                        opt_state(after),
                        texts(messages@),
                    ),
                },
                Some(RequestReply::Granted) => granted_step(
                    action,
                    known.latest,
                    known.waited,
                ),
            },
        }
    }
}

fn with_context(context: &str, messages: &Vec<String>) -> (r: Vec<String>)
    ensures
        texts(r@) == seq![context@] + texts(messages@),
{
    let mut all: Vec<String> = Vec::new();
    all.push(context.to_string());
    assert(texts(all@) =~= seq![context@] + texts(messages@.take(0)));
    for i in 0..messages.len()
        invariant
            texts(all@) == seq![context@] + texts(messages@.take(i as int)),
    {
        let ghost before = texts(all@);
        all.push(messages[i].clone());
        assert(texts(all@) =~= before.push(messages@[i as int]@));
        assert(texts(all@) =~= seq![context@] + texts(messages@.take(i + 1)));
    }
    assert(messages@.take(messages@.len() as int) =~= messages@);
    all
}

fn copy_messages(messages: &Vec<String>) -> (r: Vec<String>)
    ensures
        texts(r@) == texts(messages@),
{
    let copy = messages.clone();
    assert(texts(copy@) =~= texts(messages@));
    copy
}

fn refused(
    action: GuiAction,
    before: &ServiceState,
    after: &Option<ServiceState>,
    messages: &Vec<String>,
) -> (r: ActionStep)
    ensures
        r@ == refused_step(action, before@, opt_state(*after), texts(messages@)),
{
    let top = if messages.len() > 0 {
        messages[0].clone()
    } else {
        String::new()
    };
    assert(top@ =~= top_message(texts(messages@)));
    let failed = judge_failed_request(action, before, after, top.as_str());
    let told_by_state = match after {
        Some(status) => status.last_error.is_some() || (action != GuiAction::Start
            && service_state_changed(before, status)),
        None => false,
    };
    let all = if told_by_state {
        let one = vec![failed.error];
        assert(texts(one@) =~= seq![failed.error@]);
        with_context(action.error_context(), &one)
    } else {
        with_context(action.error_context(), messages)
    };
    ActionStep::Fail(all, Some((failed.level, failed.log)))
}

/// Says what to do next in the course of an action.
pub fn execute_action(os: Os, action: GuiAction, known: &ActionKnown) -> (r: ActionStep)
    ensures
        r@ == next_action_step(os, action, *known),
{
    if prepares_certificate(os, action) {
        match &known.prepared {
            None => {
                return ActionStep::PrepareCertificate;
            },
            Some(Err(messages)) => {
                return ActionStep::Fail(with_context(PREPARATION_FAILED, messages), None);
            },
            Some(Ok(_)) => {},
        }
    }
    let before = match &known.before {
        None => {
            return ActionStep::ReadBefore;
        },
        Some(before) => before,
    };
    match &known.request {
        None => ActionStep::Request(
            (LogLevel::Info, REQUEST_MADE.to_string()),
            action.subcommand().to_string(),
        ),
        Some(RequestReply::NotLocated(messages)) => ActionStep::Fail(copy_messages(messages), None),
        Some(RequestReply::Refused(messages)) => match &known.after {
            None => ActionStep::ReadAfter,
            Some(after) => refused(action, before, after, messages),
        },
        Some(RequestReply::Granted) => match &known.latest {
            None => ActionStep::ReadLatest(0),
            Some(Err(messages)) => ActionStep::Fail(copy_messages(messages), None),
            Some(Ok(status)) => match judge_progress(action, status, known.waited) {
                Progress::Again => ActionStep::ReadLatest(ACTION_PAUSE),
                Progress::Done(message) => ActionStep::Done(message),
                Progress::Failed(e) => {
                    let one = vec![e];
                    assert(texts(one@) =~= seq![e@]);
                    ActionStep::Fail(one, None)
                },
            },
        },
    }
}

/// An action succeeds only where the state shows what it is for.
pub proof fn law_success_shows_in_the_state(os: Os, action: GuiAction, known: ActionKnown)
    requires
        next_action_step(os, action, known) is Done,
    ensures
        known.request == Some(RequestReply::Granted),
        known.latest matches Some(Ok(status)) && status.running == (action == GuiAction::Start),
{
}

/// The messages without those that repeat the one before.
pub open spec fn without_repeats(messages: Seq<Seq<char>>) -> Seq<Seq<char>>
    decreases messages.len(),
{
    if messages.len() == 0 {
        messages
    } else {
        let front = without_repeats(messages.drop_last());
        if front.len() > 0 && front.last() == messages.last() {
            front
        } else {
            front.push(messages.last())
        }
    }
}

/// The messages of an error and of its causes as one text.
pub fn format_error_chain(messages: &Vec<String>) -> (r: String)
    ensures
        r@ == joined(without_repeats(texts(messages@)), "\ncaused by: "@),
{
    let mut lines: Vec<String> = Vec::new();
    let ghost all = texts(messages@);
    assert(all.take(0) =~= Seq::<Seq<char>>::empty());
    assert(texts(lines@) =~= all.take(0));
    for i in 0..messages.len()
        invariant
            all == texts(messages@),
            texts(lines@) == without_repeats(all.take(i as int)),
    {
        let ghost before = texts(lines@);
        proof {
            assert(all.take(i + 1).drop_last() =~= all.take(i as int));
            assert(all.take(i + 1).last() == messages@[i as int]@);
            if lines@.len() > 0 {
                assert(before.last() == lines@[lines@.len() - 1]@);
            }
        }
        let n = lines.len();
        if !(n > 0 && same_text(lines[n - 1].as_str(), messages[i].as_str())) {
            lines.push(messages[i].clone());
            assert(texts(lines@) =~= before.push(all[i as int]));
        }
    }
    assert(all.take(all.len() as int) =~= all);
    join(&lines, "\ncaused by: ")
}

/// Which file is the program to start.
#[derive(Debug, Clone, Copy, PartialEq, Eq, Structural)]
pub enum Located {
    /// The program that runs.
    Own,
    /// The one beside it.
    Sibling,
    /// There is none.
    Missing,
}

/// Finds the program to start: the one that runs, where it has the right
/// name, or else the one of that name beside it.
pub fn locate_current_or_sibling_binary(
    binary_name: &str,
    own_name: &Option<String>,
    sibling: bool,
) -> (r: Located)
    ensures
        r == if opt_text(*own_name) == Some(binary_name@) {
            Located::Own
        } else if sibling {
            Located::Sibling
        } else {
            Located::Missing
        },
{
    if let Some(name) = own_name {
        if same_text(name.as_str(), binary_name) {
            return Located::Own;
        }
    }
    if sibling {
        Located::Sibling
    } else {
        Located::Missing
    }
}

/// The name of the program that carries out actions.
pub fn action_binary_name(os: Os) -> (r: &'static str)
    ensures
        r@ == cli_name(os),
{
    crate::service::cli_binary_name(os)
}

// ---------------------------------------------------------------------------
// The tray
// ---------------------------------------------------------------------------

/// What is asked of the window.
#[derive(Debug, Clone, Copy, PartialEq, Eq, Structural)]
pub enum WindowCommand {
    Minimize,
    Restore,
    Focus,
    Close,
    Repaint,
}

/// What is asked of the icon in the tray.
#[derive(Debug, Clone, Copy, PartialEq, Eq, Structural)]
pub enum IconCommand {
    Show,
    Hide,
    Quit,
}

/// What the user asks for in the tray.
#[derive(Debug, Clone, Copy, PartialEq, Eq, Structural)]
pub enum TrayCommand {
    Restore,
    Quit,
}

/// The identifier of the entry that opens the window.
pub const TRAY_SHOW: &'static str = "tray-show";

/// The identifier of the entry that ends the program.
pub const TRAY_QUIT: &'static str = "tray-quit";

/// What an entry of the tray's menu asks for.
pub fn menu_command(id: &str) -> (r: Option<TrayCommand>)
    ensures
        r == if id@ == "tray-show"@ {
            Some(TrayCommand::Restore)
        } else if id@ == "tray-quit"@ {
            Some(TrayCommand::Quit)
        } else {
            None
        },
{
    if same_text(id, TRAY_SHOW) {
        Some(TrayCommand::Restore)
    } else if same_text(id, TRAY_QUIT) {
        Some(TrayCommand::Quit)
    } else {
        None
    }
}

/// What a click on the icon asks for: with the left button, once it is
/// released or at once where it is a double click, the window.
pub fn click_command(left: bool, double: bool, released: bool) -> (r: Option<TrayCommand>)
    ensures
        r == if left && (double || released) {
            Some(TrayCommand::Restore)
        } else {
            None
        },
{
    if left && (double || released) {
        Some(TrayCommand::Restore)
    } else {
        None
    }
}

/// What the tray on its own does on a command: the window is opened again, if
/// that was asked for, and the tray ends. `true` where the window is opened.
pub fn tray_shell_command(command: TrayCommand) -> (r: bool)
    ensures
        r == (command == TrayCommand::Restore),
{
    command == TrayCommand::Restore
}

/// How the tray takes the window in.
#[derive(Debug)]
pub enum TrayReply {
    /// There is an icon for it.
    Shown,
    /// There is none.
    Unavailable,
    /// The tray could not be started, with the error.
    Failed(String),
}

/// The window and what is asked of it, after it was to go into the tray. On
/// macOS a tray of its own takes over and the window is closed; elsewhere the
/// window is minimized, with an icon in the tray where there is one.
pub open spec fn minimized(gui: GuiModel, os: Os, tray: TrayReply) -> (
    GuiModel,
    Seq<WindowCommand>,
) {
    if os != Os::Linux && os != Os::Windows && os != Os::MacOs {
        (gui, seq![WindowCommand::Minimize])
    } else {
        match tray {
            TrayReply::Shown => (
                GuiModel { hidden_to_tray: true, last_minimized: true, ..gui },
                if os == Os::MacOs {
                    seq![WindowCommand::Close]
                } else {
                    seq![WindowCommand::Minimize, WindowCommand::Repaint]
                },
            ),
            TrayReply::Unavailable => (
                GuiModel {
                    hidden_to_tray: false,
                    last_minimized: true,
                    feedback: TRAY_MISSING@,
                    ..gui
                },
                seq![WindowCommand::Minimize, WindowCommand::Repaint],
            ),
            TrayReply::Failed(error) => (
                GuiModel {
                    hidden_to_tray: false,
                    last_minimized: true,
                    feedback: TRAY_FAILED@ + error@,
                    ..gui
                },
                seq![WindowCommand::Minimize, WindowCommand::Repaint],
            ),
        }
    }
}

impl GuiState {
    /// Sends the window into the tray, which took it in as `tray` says.
    pub fn minimize_to_tray(&mut self, os: Os, tray: TrayReply) -> (r: Vec<WindowCommand>)
        ensures
            (final(self)@, r@) == minimized(old(self)@, os, tray),
    {
        let commands: Vec<WindowCommand>;
        if os != Os::Linux && os != Os::Windows && os != Os::MacOs {
            commands = vec![WindowCommand::Minimize];
            assert(commands@ =~= seq![WindowCommand::Minimize]);
        } else {
            self.last_minimized = true;
            let shown = matches!(tray, TrayReply::Shown);
            self.hidden_to_tray = shown;
            match tray {
                TrayReply::Shown => {},
                TrayReply::Unavailable => {
                    self.feedback = TRAY_MISSING.to_string();
                },
                TrayReply::Failed(error) => {
                    self.feedback = followed_by(TRAY_FAILED, error.as_str());
                },
            }
            if shown && os == Os::MacOs {
                commands = vec![WindowCommand::Close];
                assert(commands@ =~= seq![WindowCommand::Close]);
            } else {
                commands = vec![WindowCommand::Minimize, WindowCommand::Repaint];
                assert(commands@ =~= seq![WindowCommand::Minimize, WindowCommand::Repaint]);
            }
        }
        assert(self@ =~= minimized(old(self)@, os, tray).0);
        commands
    }

    /// Takes the window out of the tray.
    pub fn restore_from_tray(&mut self) -> (r: (IconCommand, Vec<WindowCommand>))
        ensures
            final(self)@ == (GuiModel { hidden_to_tray: false, last_minimized: true, ..old(self)@ }),
            r.0 == IconCommand::Hide,
            r.1@ == seq![WindowCommand::Restore, WindowCommand::Focus, WindowCommand::Repaint],
    {
        self.hidden_to_tray = false;
        self.last_minimized = true;
        let commands = vec![WindowCommand::Restore, WindowCommand::Focus, WindowCommand::Repaint];
        assert(commands@ =~= seq![
            WindowCommand::Restore,
            WindowCommand::Focus,
            WindowCommand::Repaint,
        ]);
        assert(self@ =~= (GuiModel { hidden_to_tray: false, last_minimized: true, ..old(self)@ }));
        (IconCommand::Hide, commands)
    }

    /// Takes up a command from the tray: what is asked of the icon and of the
    /// window.
    pub fn poll_tray_events(&mut self, command: TrayCommand) -> (r: (
        IconCommand,
        Vec<WindowCommand>,
    ))
        ensures
            match command {
                TrayCommand::Restore => {
                    &&& final(self)@ == (GuiModel {
                        hidden_to_tray: false,
                        last_minimized: true,
                        ..old(self)@
                    })
                    &&& r.0 == IconCommand::Hide
                    &&& r.1@ == seq![
                        WindowCommand::Restore,
                        WindowCommand::Focus,
                        WindowCommand::Repaint,
                    ]
                },
                TrayCommand::Quit => {
                    &&& final(self)@ == old(self)@
                    &&& r.0 == IconCommand::Quit
                    &&& r.1@ == seq![WindowCommand::Close]
                },
            },
    {
        match command {
            TrayCommand::Restore => self.restore_from_tray(),
            TrayCommand::Quit => {
                let commands = vec![WindowCommand::Close];
                assert(commands@ =~= seq![WindowCommand::Close]);
                (IconCommand::Quit, commands)
            },
        }
    }

    /// Whether the window, which is minimized or not, is now to go into the
    /// tray: where it was minimized since the last look and is not there yet.
    pub fn sync_minimize_to_tray(&self, minimized: bool) -> (r: bool)
        ensures
            r == (minimized && !self@.last_minimized && !self@.hidden_to_tray),
    {
        minimized && !self.last_minimized && !self.hidden_to_tray
    }

    /// Notes whether the window is minimized, once it has gone into the tray
    /// where it was to.
    pub fn note_minimized(&mut self, minimized: bool)
        ensures
            final(self)@ == (GuiModel {
                last_minimized: minimized && !old(self)@.hidden_to_tray,
                ..old(self)@
            }),
    {
        self.last_minimized = minimized && !self.hidden_to_tray;
        assert(self@ =~= (GuiModel {
            last_minimized: minimized && !old(self)@.hidden_to_tray,
            ..old(self)@
        }));
    }
}

/// A window that is in the tray is not sent there again, however often it is
/// looked at.
pub proof fn law_hidden_window_stays(gui: GuiModel, os: Os, is_minimized: bool)
    requires
        os == Os::Linux || os == Os::Windows,
    ensures
        ({
            let hidden = minimized(gui, os, TrayReply::Shown).0;
            !(is_minimized && !hidden.last_minimized && !hidden.hidden_to_tray)
        }),
{
}

// ---------------------------------------------------------------------------
// What the window does
// ---------------------------------------------------------------------------

/// How often the window is drawn while something is going on.
pub const ACTIVE_REPAINT_INTERVAL: u64 = 100;

/// How often the window is drawn otherwise.
pub const IDLE_REPAINT_INTERVAL: u64 = 5000;

/// How often the window is drawn while it is in the tray.
pub const TRAY_REPAINT_INTERVAL: u64 = 15000;

/// How often the window is drawn.
pub open spec fn interval(gui: GuiModel) -> u64 {
    if gui.busy || gui.waiting || gui.confirm_action is Some {
        ACTIVE_REPAINT_INTERVAL
    } else if gui.hidden_to_tray {
        TRAY_REPAINT_INTERVAL
    } else {
        IDLE_REPAINT_INTERVAL
    }
}

/// The size of a page: what it is, and the least and the most that the user
/// can make of it.
#[derive(Debug, Clone, Copy, PartialEq, Eq, Structural)]
pub struct PageSize {
    pub width: u32,
    pub height: u32,
    pub min_width: u32,
    pub min_height: u32,
    pub max_width: u32,
    pub max_height: u32,
    pub resizable: bool,
}

/// The size of a page.
pub open spec fn size_of_page(page: UiPage) -> PageSize {
    match page {
        UiPage::Launcher => PageSize {
            width: 720,
            height: 260,
            min_width: 720,
            min_height: 260,
            max_width: 720,
            max_height: 260,
            resizable: false,
        },
        _ => PageSize {
            width: 760,
            height: 520,
            min_width: 720,
            min_height: 520,
            max_width: 1200,
            max_height: 900,
            resizable: true,
        },
    }
}

impl GuiState {
    /// How often the window is drawn, in milliseconds.
    pub fn repaint_interval(&self) -> (r: u64)
        ensures
            r == interval(self@),
    {
        if self.busy || self.waiting || self.confirm_action.is_some() {
            ACTIVE_REPAINT_INTERVAL
        } else if self.hidden_to_tray {
            TRAY_REPAINT_INTERVAL
        } else {
            IDLE_REPAINT_INTERVAL
        }
    }

    /// Whether the state is to be read again, and if so notes the time.
    pub fn refresh_due(&mut self, now: u64) -> (r: bool)
        requires
            old(self).last_refresh <= now,
        ensures
            r == (now - old(self)@.last_refresh >= interval(old(self)@)),
            final(self)@ == if r {
                GuiModel { last_refresh: now, ..old(self)@ }
            } else {
                old(self)@
            },
    {
        if now - self.last_refresh >= self.repaint_interval() {
            self.last_refresh = now;
            assert(self@ =~= (GuiModel { last_refresh: now, ..old(self)@ }));
            true
        } else {
            false
        }
    }

    /// Goes to a page, and says how large the window becomes.
    pub fn navigate_to(&mut self, page: UiPage) -> (r: PageSize)
        ensures
            final(self)@ == (GuiModel { current_page: page, ..old(self)@ }),
            r == size_of_page(page),
    {
        self.current_page = page;
        assert(self@ =~= (GuiModel { current_page: page, ..old(self)@ }));
        match page {
            UiPage::Launcher => PageSize {
                width: 720,
                height: 260,
                min_width: 720,
                min_height: 260,
                max_width: 720,
                max_height: 260,
                resizable: false,
            },
            UiPage::Details | UiPage::Config | UiPage::About => PageSize {
                width: 760,
                height: 520,
                min_width: 720,
                min_height: 520,
                max_width: 1200,
                max_height: 900,
                resizable: true,
            },
        }
    }

    /// Takes up the answer to the question whether to do an action: one that
    /// was confirmed is taken up, and handed back where it is to be started.
    /// The question goes away with an answer, or where it was closed.
    pub fn show_confirm_action_dialog(&mut self, confirmed: bool, cancelled: bool, open: bool) -> (r:
        Option<GuiAction>)
        ensures
            r == if confirmed && !old(self)@.busy {
                old(self)@.confirm_action
            } else {
                None
            },
            final(self)@ == answered(old(self)@, confirmed, cancelled, open),
    {
        let action = match self.confirm_action {
            Some(action) => action,
            None => {
                return None;
            },
        };
        if confirmed || cancelled || !open {
            self.confirm_action = None;
            assert(self@ =~= (GuiModel { confirm_action: None, ..old(self)@ }));
        }
        if confirmed && self.trigger_action(action) {
            Some(action)
        } else {
            None
        }
    }
}

/// The window after the question whether to do an action was answered, or
/// closed: one that was confirmed is taken up.
pub open spec fn answered(
    gui: GuiModel,
    confirmed: bool,
    cancelled: bool,
    open: bool,
) -> GuiModel {
    let unasked = GuiModel { confirm_action: None, ..gui };
    match gui.confirm_action {
        None => gui,
        Some(action) => if confirmed {
            triggered(unasked, action)
        } else if cancelled || !open {
            unasked
        } else {
            gui
        },
    }
}

/// An action that was confirmed is taken up by a window that is not busy: the
/// window is busy with that action from then on, and asks no more.
pub proof fn law_confirmed_action_is_taken_up(
    gui: GuiModel,
    action: GuiAction,
    cancelled: bool,
    open: bool,
)
    requires
        gui.confirm_action == Some(action),
        !gui.busy,
    ensures
        ({
            let after = answered(gui, true, cancelled, open);
            &&& after.busy
            &&& after.pending_action == Some(action)
            &&& after.confirm_action is None
        }),
{
}

// ---------------------------------------------------------------------------
// What the window says
// ---------------------------------------------------------------------------

/// A colour.
#[derive(Debug, Clone, Copy, PartialEq, Eq, Structural)]
pub struct Rgb {
    pub red: u8,
    pub green: u8,
    pub blue: u8,
}

/// The short word for how things are.
#[derive(Debug, Clone, Copy, PartialEq, Eq, Structural)]
pub enum Headline {
    Busy,
    Running,
    Failed,
    Waiting,
}

/// How things are: an action that runs counts first, then the service, then
/// an error.
pub open spec fn headline_of(gui: GuiModel) -> Headline {
    if gui.busy {
        Headline::Busy
    } else if gui.status.running {
        Headline::Running
    } else if gui.status.last_error is Some {
        Headline::Failed
    } else {
        Headline::Waiting
    }
}

impl Headline {
    /// The word for it.
    pub open spec fn word(self) -> Seq<char> {
        match self {
            Headline::Busy => "处理中"@,
            Headline::Running => "已接管"@,
            Headline::Failed => "异常"@,
            Headline::Waiting => "待启动"@,
        }
    }

    /// The longer words on the first page.
    pub open spec fn words(self) -> Seq<char> {
        match self {
            Headline::Busy => "正在处理"@,
            Headline::Running => "正在加速"@,
            Headline::Failed => "加速异常"@,
            Headline::Waiting => "等待启动"@,
        }
    }

    /// Its colour.
    pub open spec fn shade(self) -> Rgb {
        match self {
            Headline::Busy => Rgb { red: 250, green: 196, blue: 92 },
            Headline::Running => Rgb { red: 106, green: 220, blue: 155 },
            Headline::Failed => Rgb { red: 255, green: 120, blue: 100 },
            Headline::Waiting => Rgb { red: 162, green: 173, blue: 184 },
        }
    }

    /// The word for it.
    pub fn label(self) -> (r: &'static str)
        ensures
            r@ == self.word(),
    {
        match self {
            Headline::Busy => "处理中",
            Headline::Running => "已接管",
            Headline::Failed => "异常",
            Headline::Waiting => "待启动",
        }
    }

    /// The longer words on the first page.
    pub fn launcher_label(self) -> (r: &'static str)
        ensures
            r@ == self.words(),
    {
        match self {
            Headline::Busy => "正在处理",
            Headline::Running => "正在加速",
            Headline::Failed => "加速异常",
            Headline::Waiting => "等待启动",
        }
    }

    /// Its colour.
    pub fn colour(self) -> (r: Rgb)
        ensures
            r == self.shade(),
    {
        match self {
            Headline::Busy => Rgb { red: 250, green: 196, blue: 92 },
            Headline::Running => Rgb { red: 106, green: 220, blue: 155 },
            Headline::Failed => Rgb { red: 255, green: 120, blue: 100 },
            Headline::Waiting => Rgb { red: 162, green: 173, blue: 184 },
        }
    }
}

/// What is shown about the state: the feedback to the last action, or else
/// what the state says.
pub open spec fn message_of(gui: GuiModel) -> Seq<char> {
    if gui.feedback.len() > 0 {
        gui.feedback
    } else {
        gui.status.status_text
    }
}

/// What is shown where there is no log.
pub const NO_LOGS: &'static str =
    "暂无运行日志。执行开始、停止、恢复等操作后会在这里显示。";

/// What is shown where there is no error.
pub const NO_ERROR: &'static str = "当前没有错误。运行异常时会直接显示真实原因。";

/// What is shown where no endpoint is configured.
pub const NOT_CONFIGURED: &'static str = "未配置";

/// The lines of the log, or what is shown where there are none.
pub open spec fn log_lines(gui: GuiModel) -> Seq<Seq<char>> {
    if gui.recent_logs.len() == 0 {
        seq![NO_LOGS@]
    } else {
        gui.recent_logs
    }
}

impl GuiState {
    /// How things are.
    pub fn headline_status(&self) -> (r: Headline)
        ensures
            r == headline_of(self@),
    {
        if self.busy {
            return Headline::Busy;
        }
        if self.status.running {
            return Headline::Running;
        }
        if self.status.last_error.is_some() {
            return Headline::Failed;
        }
        Headline::Waiting
    }

    /// What is shown about the state.
    pub fn status_message(&self) -> (r: String)
        ensures
            r@ == message_of(self@),
    {
        if !self.feedback.as_str().is_empty() {
            return self.feedback.clone();
        }
        self.status.status_text.clone()
    }

    /// The lines of the log, or what is shown where there are none.
    pub fn recent_logs_or_placeholder(&self) -> (r: Vec<String>)
        ensures
            texts(r@) == log_lines(self@),
    {
        if self.recent_logs.is_empty() {
            let lines = vec![NO_LOGS.to_string()];
            assert(texts(lines@) =~= seq![NO_LOGS@]);
            lines
        } else {
            let lines = self.recent_logs.clone();
            assert(texts(lines@) =~= texts(self.recent_logs@));
            lines
        }
    }
}

/// The large button on the first page.
#[derive(Debug, Clone, Copy, PartialEq, Eq, Structural)]
pub struct PrimaryButton {
    /// What it does.
    pub action: GuiAction,
    pub fill: Rgb,
    pub text: Rgb,
    pub stroke: Rgb,
    pub enabled: bool,
}

/// The large button: it stops what runs and starts what does not, unless an
/// action runs.
pub open spec fn button_of(gui: GuiModel) -> PrimaryButton {
    if gui.status.running {
        PrimaryButton {
            action: GuiAction::Stop,
            fill: Rgb { red: 186, green: 63, blue: 21 },
            text: Rgb { red: 248, green: 245, blue: 243 },
            stroke: Rgb { red: 223, green: 109, blue: 51 },
            enabled: !gui.busy,
        }
    } else {
        PrimaryButton {
            action: GuiAction::Start,
            fill: Rgb { red: 229, green: 171, blue: 66 },
            text: Rgb { red: 29, green: 24, blue: 16 },
            stroke: Rgb { red: 214, green: 158, blue: 59 },
            enabled: !gui.busy,
        }
    }
}

impl PrimaryButton {
    /// What stands on it.
    pub fn label(self) -> (r: &'static str)
        ensures
            r@ == match self.action {
                GuiAction::Start => "开始加速"@,
                GuiAction::Stop => "停止加速"@,
            },
    {
        match self.action {
            GuiAction::Start => "开始加速",
            GuiAction::Stop => "停止加速",
        }
    }
}

/// The panel about the state.
#[derive(Debug)]
pub struct StatusPanel {
    pub status_text: String,
    pub error_text: String,
    pub error_colour: Rgb,
    pub logs: Vec<String>,
}

impl GuiState {
    /// The large button on the first page.
    pub fn render_action_panel(&self) -> (r: PrimaryButton)
        ensures
            r == button_of(self@),
    {
        if self.status.running {
            PrimaryButton {
                action: GuiAction::Stop,
                fill: Rgb { red: 186, green: 63, blue: 21 },
                text: Rgb { red: 248, green: 245, blue: 243 },
                stroke: Rgb { red: 223, green: 109, blue: 51 },
                enabled: !self.busy,
            }
        } else {
            PrimaryButton {
                action: GuiAction::Start,
                fill: Rgb { red: 229, green: 171, blue: 66 },
                text: Rgb { red: 29, green: 24, blue: 16 },
                stroke: Rgb { red: 214, green: 158, blue: 59 },
                enabled: !self.busy,
            }
        }
    }

    /// The panel about the state: what it says, the last error, and the log.
    pub fn render_status_panel(&self) -> (r: StatusPanel)
        ensures
            r.status_text@ == self@.status.status_text,
            r.error_text@ == match self@.status.last_error {
                Some(e) => e,
                None => "当前没有错误。运行异常时会直接显示真实原因。"@,
            },
            r.error_colour == if self@.status.last_error is Some {
                (Rgb { red: 235, green: 110, blue: 90 })
            } else {
                (Rgb { red: 202, green: 208, blue: 214 })
            },
            texts(r.logs@) == log_lines(self@),
    {
        let (error_text, error_colour) = match &self.status.last_error {
            Some(e) => (e.clone(), Rgb { red: 235, green: 110, blue: 90 }),
            None => (NO_ERROR.to_string(), Rgb { red: 202, green: 208, blue: 214 }),
        };
        StatusPanel {
            status_text: self.status.status_text.clone(),
            error_text,
            error_colour,
            logs: self.recent_logs_or_placeholder(),
        }
    }
}

/// The numbers and the rows about the configuration.
#[derive(Debug)]
pub struct ConfigPanel {
    pub domains: String,
    pub endpoints: String,
    pub certificates: String,
    pub upstream: String,
    pub first_endpoint: String,
}

/// The numbers and the rows about the configuration, as sequences.
#[verifier::ext_equal]
pub struct ConfigPanelModel {
    pub domains: Seq<char>,
    pub endpoints: Seq<char>,
    pub certificates: Seq<char>,
    pub upstream: Seq<char>,
    pub first_endpoint: Seq<char>,
}

impl View for ConfigPanel {
    type V = ConfigPanelModel;

    open spec fn view(&self) -> ConfigPanelModel {
        ConfigPanelModel {
            domains: self.domains@,
            endpoints: self.endpoints@,
            certificates: self.certificates@,
            upstream: self.upstream@,
            first_endpoint: self.first_endpoint@,
        }
    }
}

/// What a panel says about the configuration, with `domains` domains.
pub open spec fn config_panel(config: ConfigModel, domains: nat) -> ConfigPanelModel {
    ConfigPanelModel {
        domains: decimal(domains),
        endpoints: decimal(config.doh_endpoints.len()),
        certificates: decimal(config.certificate_domains.len()),
        upstream: config.upstream,
        first_endpoint: if config.doh_endpoints.len() > 0 {
            config.doh_endpoints[0]
        } else {
            NOT_CONFIGURED@
        },
    }
}

fn describe_config(config: &AppConfig, domains: usize) -> (r: ConfigPanel)
    ensures
        r@ == config_panel(config@, domains as nat),
{
    let first_endpoint = if config.doh_endpoints.len() > 0 {
        config.doh_endpoints[0].clone()
    } else {
        NOT_CONFIGURED.to_string()
    };
    ConfigPanel {
        domains: to_decimal(domains as u64),
        endpoints: to_decimal(config.doh_endpoints.len() as u64),
        certificates: to_decimal(config.certificate_domains.len() as u64),
        upstream: config.upstream.clone(),
        first_endpoint,
    }
}

/// The panel about what is taken over: it counts the domains that go into the
/// hosts file.
pub fn render_scope_panel(config: &AppConfig) -> (r: ConfigPanel)
    ensures
        r@ == config_panel(config@, managed_domains(config@).len()),
{
    let domains = config.hosts_domains().len();
    describe_config(config, domains)
}

/// The page about the configuration: it counts the domains that requests are
/// taken over for.
pub fn render_config_content(config: &AppConfig) -> (r: ConfigPanel)
    ensures
        r@ == config_panel(config@, config@.proxy_domains.len()),
{
    describe_config(config, config.proxy_domains.len())
}

// ---------------------------------------------------------------------------
// Fonts and shortcuts
// ---------------------------------------------------------------------------

/// The families of fonts that are looked for, best first.
pub open spec fn font_families(os: Os) -> Seq<Seq<char>> {
    match os {
        Os::Windows => seq!["Microsoft YaHei UI"@, "Microsoft YaHei"@, "SimHei"@],
        Os::MacOs => seq!["PingFang SC"@, "Hiragino Sans GB"@],
        Os::Linux => seq![
            "Noto Sans CJK SC"@,
            "Noto Sans SC"@,
            "WenQuanYi Micro Hei"@,
            "Source Han Sans SC"@,
            "Droid Sans Fallback"@,
        ],
        _ => Seq::empty(),
    }
}

/// The families of fonts that are looked for, best first.
pub fn preferred_system_font_families(os: Os) -> (r: Vec<String>)
    ensures
        texts(r@) == font_families(os),
{
    let families = match os {
        Os::Windows => vec![
            "Microsoft YaHei UI".to_string(),
            "Microsoft YaHei".to_string(),
            "SimHei".to_string(),
        ],
        Os::MacOs => vec!["PingFang SC".to_string(), "Hiragino Sans GB".to_string()],
        Os::Linux => vec![
            "Noto Sans CJK SC".to_string(),
            "Noto Sans SC".to_string(),
            "WenQuanYi Micro Hei".to_string(),
            "Source Han Sans SC".to_string(),
            "Droid Sans Fallback".to_string(),
        ],
        _ => Vec::new(),
    };
    assert(texts(families@) =~= font_families(os));
    families
}

/// Picks a font: the first whose size, which is `None` where it was not
/// found, is within the limit.
pub fn load_system_ui_font(sizes: &Vec<Option<usize>>, limit: usize) -> (r: Option<usize>)
    ensures
        match r {
            Some(i) => {
                &&& i < sizes@.len()
                &&& sizes@[i as int] matches Some(size) && size <= limit
                &&& forall|j: int|
                    0 <= j < i ==> !(#[trigger] sizes@[j] matches Some(size) && size <= limit)
            },
            None => forall|j: int|
                0 <= j < sizes@.len() ==> !(#[trigger] sizes@[j] matches Some(size) && size
                    <= limit),
        },
{
    for i in 0..sizes.len()
        invariant
            forall|j: int|
                0 <= j < i ==> !(#[trigger] sizes@[j] matches Some(size) && size <= limit),
    {
        if let Some(size) = sizes[i] {
            if size <= limit {
                return Some(i);
            }
        }
    }
    None
}

/// What is noted once the shortcuts show the icon of a version of the
/// program.
pub fn shortcut_stamp(version: &str, executable: &str) -> (r: String)
    ensures
        r@ == version@ + "\n"@ + executable@,
{
    let mut stamp = followed_by(version, "\n");
    stamp.append(executable);
    stamp
}

/// Whether the shortcuts are to be brought up to date: not where that was
/// noted already.
pub fn shortcuts_outdated(noted: &Option<String>, stamp: &str) -> (r: bool)
    ensures
        r == (opt_text(*noted) != Some(stamp@)),
{
    match noted {
        Some(text) => !same_text(text.as_str(), stamp),
        None => true,
    }
}

} // verus!
