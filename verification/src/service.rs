//! The operations of the service: the steps of each, in order, and what
//! becomes of an operation when one of its steps fails.
use crate::platform::Os;
use crate::state::{ServiceState, StateModel};
use crate::text::{opt_text, same_text};
use vstd::prelude::*;

verus! {

/// What the state says once everything is set up.
pub const SETUP_DONE: &'static str = "系统加速环境已准备";

/// What the state says once the proxy has ended by itself.
pub const PROXY_ENDED: &'static str = "加速服务已退出";

/// What the state says once the service was stopped.
pub const SERVICE_STOPPED: &'static str = "加速已停止";

/// What the state says once everything was cleaned up.
pub const CLEANED_UP: &'static str = "已清理证书和 hosts";

/// What the state says once the hosts file was cleaned.
pub const HOSTS_CLEANED: &'static str = "hosts 已清理";

/// What the state says once the root certificate was removed.
pub const CERTIFICATE_REMOVED: &'static str = "根证书已卸载";

/// How long the service is waited for until its state says that it runs, in
/// milliseconds.
pub const START_TIME: u64 = 10_000;

/// How long it is waited between two looks at that state.
pub const START_PAUSE: u64 = 250;

/// How long it is waited before the last look at the state of a service that
/// was started.
pub const CONFIRM_PAUSE: u64 = 800;

/// How long a process is waited for until it has ended.
pub const STOP_TIME: u64 = 5000;

/// How long it is waited between two looks at that process.
pub const STOP_PAUSE: u64 = 200;

// ---------------------------------------------------------------------------
// Steps
// ---------------------------------------------------------------------------

/// What a final text of the state says.
#[derive(Debug, Clone, Copy, PartialEq, Eq, Structural)]
pub enum Notice {
    SetupDone,
    ProxyEnded,
    ServiceStopped,
    CleanedUp,
    HostsCleaned,
    CertificateRemoved,
}

impl Notice {
    /// The notice in words.
    pub open spec fn words(self) -> Seq<char> {
        match self {
            Notice::SetupDone => SETUP_DONE@,
            Notice::ProxyEnded => PROXY_ENDED@,
            Notice::ServiceStopped => SERVICE_STOPPED@,
            Notice::CleanedUp => CLEANED_UP@,
            Notice::HostsCleaned => HOSTS_CLEANED@,
            Notice::CertificateRemoved => CERTIFICATE_REMOVED@,
        }
    }

    /// The notice in words.
    pub fn text(self) -> (r: &'static str)
        ensures
            r@ == self.words(),
    {
        match self {
            Notice::SetupDone => SETUP_DONE,
            Notice::ProxyEnded => PROXY_ENDED,
            Notice::ServiceStopped => SERVICE_STOPPED,
            Notice::CleanedUp => CLEANED_UP,
            Notice::HostsCleaned => HOSTS_CLEANED,
            Notice::CertificateRemoved => CERTIFICATE_REMOVED,
        }
    }
}

/// Which words of a failure the state says.
#[derive(Debug, Clone, Copy, PartialEq, Eq, Structural)]
pub enum Wording {
    /// Its own message, without what caused it.
    Message,
    /// Its message, and all that caused it.
    Chain,
}

/// One thing to do.
#[derive(Debug, Clone, Copy, PartialEq, Eq, Structural)]
pub enum Action {
    /// Find out where the files are, and make the directories for them.
    PreparePaths,
    /// Load the configuration, or write the default one.
    LoadConfig,
    /// Refuse to go on without the rights that this needs; `true` where it
    /// always needs them.
    CheckRights(bool),
    /// Add the loopback address that is listened on.
    AddLoopback,
    /// Remove that address.
    RemoveLoopback,
    /// Make the certificates, and again where they no longer fit.
    RenewCertificates,
    /// Load the certificates, or make them.
    LoadCertificates,
    /// Make the system trust the root certificate.
    InstallCa,
    /// Make the system forget it.
    UninstallCa,
    /// Put the managed block into the hosts file.
    ApplyHosts,
    /// Take the managed block out of the hosts file.
    RemoveHosts,
    /// Record that this process is the service.
    RecordOwnPid,
    /// Say in the state that this process runs as the service.
    MarkRunning,
    /// Serve until the proxy ends.
    RunProxy,
    /// Bring the state in line with the process that runs.
    RefreshState,
    /// Bring the state in line with the process that runs; where the service
    /// runs there is nothing more to do.
    RefreshBeforeStart,
    /// Say in the state that the service is being started.
    MarkStarting,
    /// Start the service as a process of its own.
    SpawnDaemon,
    /// Record that process as the service.
    RecordDaemonPid,
    /// Wait until the state says that the service runs.
    AwaitRunning,
    /// Wait for so many milliseconds.
    Pause(u64),
    /// Look at the state once more.
    ConfirmRunning,
    /// End the recorded process, if it runs, and wait until it has ended.
    EndProcess,
    /// Do all that stopping the service takes.
    StopService,
    /// Forget the recorded process.
    ClearPid,
    /// Say in the state that nothing runs.
    MarkStopped(Notice),
    /// Say in the state what failed, in these words.
    MarkFailed(Wording),
}

/// One step of an operation: what to do, and whether the operation fails with
/// it.
#[derive(Debug, Clone, Copy, PartialEq, Eq, Structural)]
pub struct Step {
    pub action: Action,
    pub required: bool,
}

/// A step that the operation fails with.
pub open spec fn must(action: Action) -> Step {
    Step { action, required: true }
}

/// A step whose failure does not matter.
pub open spec fn may(action: Action) -> Step {
    Step { action, required: false }
}

fn required(action: Action) -> (r: Step)
    ensures
        r == must(action),
{
    Step { action, required: true }
}

fn optional(action: Action) -> (r: Step)
    ensures
        r == may(action),
{
    Step { action, required: false }
}

/// An operation: its steps, and what is done where one of them fails, from
/// the step at `guarded_from` on.
#[derive(Debug)]
pub struct Operation {
    pub steps: Vec<Step>,
    pub guarded_from: usize,
    pub on_failure: Vec<Action>,
}

/// An operation, as sequences.
#[verifier::ext_equal]
pub struct OperationModel {
    pub steps: Seq<Step>,
    pub guarded_from: int,
    pub on_failure: Seq<Action>,
}

impl View for Operation {
    type V = OperationModel;

    open spec fn view(&self) -> OperationModel {
        OperationModel {
            steps: self.steps@,
            guarded_from: self.guarded_from as int,
            on_failure: self.on_failure@,
        }
    }
}

/// An operation with nothing to do where it fails.
pub open spec fn plain(steps: Seq<Step>) -> OperationModel {
    OperationModel { steps, guarded_from: steps.len() as int, on_failure: Seq::empty() }
}

fn unguarded(steps: Vec<Step>) -> (r: Operation)
    ensures
        r@ == plain(steps@),
{
    let guarded_from: usize = steps.len();
    let r = Operation { steps, guarded_from, on_failure: Vec::new() };
    assert(r@ =~= plain(steps@));
    r
}

// ---------------------------------------------------------------------------
// The operations
// ---------------------------------------------------------------------------

/// Making sure that there is a configuration.
pub open spec fn init_config_steps() -> Seq<Step> {
    seq![must(Action::PreparePaths), must(Action::LoadConfig)]
}

/// Makes sure that there is a configuration.
pub fn init_config() -> (r: Operation)
    ensures
        r@ == plain(init_config_steps()),
{
    let steps = vec![required(Action::PreparePaths), required(Action::LoadConfig)];
    assert(steps@ =~= init_config_steps());
    unguarded(steps)
}

/// Setting everything up without starting the service.
pub open spec fn setup_steps() -> Seq<Step> {
    seq![
        must(Action::PreparePaths),
        must(Action::LoadConfig),
        must(Action::CheckRights(true)),
        must(Action::AddLoopback),
        must(Action::RenewCertificates),
        must(Action::InstallCa),
        must(Action::ApplyHosts),
        must(Action::MarkStopped(Notice::SetupDone)),
    ]
}

/// Sets everything up without starting the service.
pub fn setup() -> (r: Operation)
    ensures
        r@ == plain(setup_steps()),
{
    let steps = vec![
        required(Action::PreparePaths),
        required(Action::LoadConfig),
        required(Action::CheckRights(true)),
        required(Action::AddLoopback),
        required(Action::RenewCertificates),
        required(Action::InstallCa),
        required(Action::ApplyHosts),
        required(Action::MarkStopped(Notice::SetupDone)),
    ];
    assert(steps@ =~= setup_steps());
    unguarded(steps)
}

/// Making the system trust the root certificate.
pub open spec fn prepare_certificate_steps() -> Seq<Step> {
    seq![
        must(Action::PreparePaths),
        must(Action::LoadConfig),
        must(Action::RenewCertificates),
        must(Action::InstallCa),
    ]
}

/// Makes the system trust the root certificate.
pub fn prepare_certificate() -> (r: Operation)
    ensures
        r@ == plain(prepare_certificate_steps()),
{
    let steps = vec![
        required(Action::PreparePaths),
        required(Action::LoadConfig),
        required(Action::RenewCertificates),
        required(Action::InstallCa),
    ];
    assert(steps@ =~= prepare_certificate_steps());
    unguarded(steps)
}

/// What comes before the proxy runs in this process.
pub open spec fn foreground_start(with_setup: bool) -> Seq<Step> {
    seq![
        must(Action::PreparePaths),
        must(Action::LoadConfig),
        must(Action::CheckRights(with_setup)),
        must(Action::AddLoopback),
    ] + (if with_setup {
        seq![
            must(Action::RenewCertificates),
            must(Action::InstallCa),
            must(Action::ApplyHosts),
        ]
    } else {
        seq![must(Action::LoadCertificates)]
    }) + seq![must(Action::RecordOwnPid), must(Action::MarkRunning)]
}

/// Serving in this process: where the proxy fails the process is forgotten
/// and the failure noted, without its causes; where it ends, that.
pub open spec fn foreground(with_setup: bool) -> OperationModel {
    OperationModel {
        steps: foreground_start(with_setup) + seq![
            must(Action::RunProxy),
            may(Action::ClearPid),
            may(Action::MarkStopped(Notice::ProxyEnded)),
        ],
        guarded_from: foreground_start(with_setup).len() as int,
        on_failure: seq![Action::ClearPid, Action::MarkFailed(Wording::Message)],
    }
}

/// Serves in this process.
pub fn run_foreground(with_setup: bool) -> (r: Operation)
    ensures
        r@ == foreground(with_setup),
{
    let mut steps = vec![
        required(Action::PreparePaths),
        required(Action::LoadConfig),
        required(Action::CheckRights(with_setup)),
        required(Action::AddLoopback),
    ];
    if with_setup {
        steps.push(required(Action::RenewCertificates));
        steps.push(required(Action::InstallCa));
        steps.push(required(Action::ApplyHosts));
    } else {
        steps.push(required(Action::LoadCertificates));
    }
    steps.push(required(Action::RecordOwnPid));
    steps.push(required(Action::MarkRunning));
    let guarded_from = steps.len();
    assert(steps@ =~= foreground_start(with_setup));
    steps.push(required(Action::RunProxy));
    steps.push(optional(Action::ClearPid));
    steps.push(optional(Action::MarkStopped(Notice::ProxyEnded)));
    let on_failure = vec![Action::ClearPid, Action::MarkFailed(Wording::Message)];
    let r = Operation { steps, guarded_from, on_failure };
    assert(r@ =~= foreground(with_setup));
    r
}

/// Starting the service as a process of its own: where that fails the hosts
/// file is cleaned, the process forgotten and the failure noted, with its
/// causes. On macOS the certificate is not installed here.
pub open spec fn start(os: Os) -> OperationModel {
    OperationModel {
        steps: seq![
            must(Action::PreparePaths),
            must(Action::LoadConfig),
            must(Action::CheckRights(true)),
            must(Action::AddLoopback),
            must(Action::RefreshBeforeStart),
            must(Action::RenewCertificates),
        ] + (if os == Os::MacOs {
            Seq::empty()
        } else {
            seq![must(Action::InstallCa)]
        }) + seq![
            must(Action::ApplyHosts),
            must(Action::MarkStarting),
            must(Action::SpawnDaemon),
            must(Action::RecordDaemonPid),
            must(Action::AwaitRunning),
            must(Action::Pause(CONFIRM_PAUSE)),
            must(Action::ConfirmRunning),
        ],
        guarded_from: 1,
        on_failure: seq![
            Action::RemoveHosts,
            Action::ClearPid,
            Action::MarkFailed(Wording::Chain),
        ],
    }
}

/// Starts the service as a process of its own.
pub fn helper_start(os: Os) -> (r: Operation)
    ensures
        r@ == start(os),
{
    let mut steps = vec![
        required(Action::PreparePaths),
        required(Action::LoadConfig),
        required(Action::CheckRights(true)),
        required(Action::AddLoopback),
        required(Action::RefreshBeforeStart),
        required(Action::RenewCertificates),
    ];
    if os != Os::MacOs {
        steps.push(required(Action::InstallCa));
    }
    steps.push(required(Action::ApplyHosts));
    steps.push(required(Action::MarkStarting));
    steps.push(required(Action::SpawnDaemon));
    steps.push(required(Action::RecordDaemonPid));
    steps.push(required(Action::AwaitRunning));
    steps.push(required(Action::Pause(CONFIRM_PAUSE)));
    steps.push(required(Action::ConfirmRunning));
    let on_failure = vec![
        Action::RemoveHosts,
        Action::ClearPid,
        Action::MarkFailed(Wording::Chain),
    ];
    let r = Operation { steps, guarded_from: 1, on_failure };
    assert(r@ =~= start(os));
    r
}

/// Stopping the service.
pub open spec fn stop_steps() -> Seq<Step> {
    seq![
        must(Action::PreparePaths),
        must(Action::LoadConfig),
        must(Action::CheckRights(true)),
        must(Action::EndProcess),
        must(Action::RemoveHosts),
        must(Action::RemoveLoopback),
        must(Action::ClearPid),
        must(Action::MarkStopped(Notice::ServiceStopped)),
    ]
}

/// Stops the service.
pub fn helper_stop() -> (r: Operation)
    ensures
        r@ == plain(stop_steps()),
{
    let steps = vec![
        required(Action::PreparePaths),
        required(Action::LoadConfig),
        required(Action::CheckRights(true)),
        required(Action::EndProcess),
        required(Action::RemoveHosts),
        required(Action::RemoveLoopback),
        required(Action::ClearPid),
        required(Action::MarkStopped(Notice::ServiceStopped)),
    ];
    assert(steps@ =~= stop_steps());
    unguarded(steps)
}

/// Undoing everything: the service is stopped, if that can be done, and the
/// certificate removed.
pub open spec fn cleanup_steps() -> Seq<Step> {
    seq![
        must(Action::PreparePaths),
        must(Action::LoadConfig),
        must(Action::CheckRights(true)),
        may(Action::StopService),
        must(Action::UninstallCa),
        must(Action::MarkStopped(Notice::CleanedUp)),
    ]
}

/// Undoes everything.
pub fn cleanup() -> (r: Operation)
    ensures
        r@ == plain(cleanup_steps()),
{
    let steps = vec![
        required(Action::PreparePaths),
        required(Action::LoadConfig),
        required(Action::CheckRights(true)),
        optional(Action::StopService),
        required(Action::UninstallCa),
        required(Action::MarkStopped(Notice::CleanedUp)),
    ];
    assert(steps@ =~= cleanup_steps());
    unguarded(steps)
}

/// Cleaning the hosts file.
pub open spec fn clean_hosts_steps() -> Seq<Step> {
    seq![
        must(Action::PreparePaths),
        must(Action::LoadConfig),
        must(Action::CheckRights(true)),
        must(Action::RemoveHosts),
        must(Action::RemoveLoopback),
        must(Action::MarkStopped(Notice::HostsCleaned)),
    ]
}

/// Cleans the hosts file.
pub fn clean_hosts() -> (r: Operation)
    ensures
        r@ == plain(clean_hosts_steps()),
{
    let steps = vec![
        required(Action::PreparePaths),
        required(Action::LoadConfig),
        required(Action::CheckRights(true)),
        required(Action::RemoveHosts),
        required(Action::RemoveLoopback),
        required(Action::MarkStopped(Notice::HostsCleaned)),
    ];
    assert(steps@ =~= clean_hosts_steps());
    unguarded(steps)
}

/// Filling the hosts file.
pub open spec fn apply_hosts_steps() -> Seq<Step> {
    seq![
        must(Action::PreparePaths),
        must(Action::LoadConfig),
        must(Action::CheckRights(true)),
        must(Action::AddLoopback),
        must(Action::ApplyHosts),
    ]
}

/// Fills the hosts file.
pub fn apply_hosts_only() -> (r: Operation)
    ensures
        r@ == plain(apply_hosts_steps()),
{
    let steps = vec![
        required(Action::PreparePaths),
        required(Action::LoadConfig),
        required(Action::CheckRights(true)),
        required(Action::AddLoopback),
        required(Action::ApplyHosts),
    ];
    assert(steps@ =~= apply_hosts_steps());
    unguarded(steps)
}

/// Removing the root certificate.
pub open spec fn uninstall_steps() -> Seq<Step> {
    seq![
        must(Action::PreparePaths),
        must(Action::LoadConfig),
        must(Action::CheckRights(true)),
        must(Action::UninstallCa),
        must(Action::MarkStopped(Notice::CertificateRemoved)),
    ]
}

/// Removes the root certificate.
pub fn uninstall_certificate() -> (r: Operation)
    ensures
        r@ == plain(uninstall_steps()),
{
    let steps = vec![
        required(Action::PreparePaths),
        required(Action::LoadConfig),
        required(Action::CheckRights(true)),
        required(Action::UninstallCa),
        required(Action::MarkStopped(Notice::CertificateRemoved)),
    ];
    assert(steps@ =~= uninstall_steps());
    unguarded(steps)
}

/// Finding out the state of the service.
pub open spec fn status_steps() -> Seq<Step> {
    seq![must(Action::PreparePaths), must(Action::RefreshState)]
}

/// Finds out the state of the service.
pub fn status() -> (r: Operation)
    ensures
        r@ == plain(status_steps()),
{
    let steps = vec![required(Action::PreparePaths), required(Action::RefreshState)];
    assert(steps@ =~= status_steps());
    unguarded(steps)
}

// ---------------------------------------------------------------------------
// Going through an operation
// ---------------------------------------------------------------------------

/// Why a step failed.
#[derive(Debug)]
pub struct Failure {
    /// Its own message.
    pub message: String,
    /// Its message and all that caused it.
    pub chain: String,
}

/// Why a step failed, as sequences.
#[verifier::ext_equal]
pub struct FailureModel {
    pub message: Seq<char>,
    pub chain: Seq<char>,
}

impl View for Failure {
    type V = FailureModel;

    open spec fn view(&self) -> FailureModel {
        FailureModel { message: self.message@, chain: self.chain@ }
    }
}

impl Clone for Failure {
    fn clone(&self) -> (r: Self)
        ensures
            r@ == self@,
    {
        Failure { message: self.message.clone(), chain: self.chain.clone() }
    }
}

/// A failure that nothing else caused.
pub open spec fn uncaused(text: Seq<char>) -> FailureModel {
    FailureModel { message: text, chain: text }
}

fn failure_without_cause(text: &str) -> (r: Failure)
    ensures
        r@ == uncaused(text@),
{
    Failure { message: text.to_string(), chain: text.to_string() }
}

/// What the state says of a failure when an action notes it.
pub open spec fn recorded(action: Action, failure: FailureModel) -> Option<Seq<char>> {
    match action {
        Action::MarkFailed(Wording::Message) => Some(failure.message),
        Action::MarkFailed(Wording::Chain) => Some(failure.chain),
        _ => None,
    }
}

/// The text that the state is to say of a failure, where the action is one
/// that notes it.
pub fn recorded_failure(action: Action, failure: &Failure) -> (r: Option<String>)
    ensures
        opt_text(r) == recorded(action, failure@),
{
    match action {
        Action::MarkFailed(Wording::Message) => Some(failure.message.clone()),
        Action::MarkFailed(Wording::Chain) => Some(failure.chain.clone()),
        _ => None,
    }
}

/// How a step went.
#[derive(Debug)]
pub enum Reply {
    Done,
    /// There is nothing more to do.
    Enough,
    Failed(Failure),
}

/// How a step went, with texts as sequences.
#[verifier::ext_equal]
pub enum ReplyModel {
    Done,
    Enough,
    Failed(FailureModel),
}

impl View for Reply {
    type V = ReplyModel;

    open spec fn view(&self) -> ReplyModel {
        match *self {
            Reply::Done => ReplyModel::Done,
            Reply::Enough => ReplyModel::Enough,
            Reply::Failed(e) => ReplyModel::Failed(e@),
        }
    }
}

/// How the steps so far went.
pub open spec fn reply_models(replies: Seq<Reply>) -> Seq<ReplyModel> {
    replies.map_values(|r: Reply| r@)
}

/// What to do next.
#[derive(Debug)]
pub enum Next {
    /// Do this step.
    Perform(Action),
    /// Do this, because a step failed so.
    Undo(Action, Failure),
    /// The operation is over.
    Finished,
    /// The operation has failed.
    GivenUp(Failure),
}

/// What to do next, with texts as sequences.
#[verifier::ext_equal]
pub enum NextModel {
    Perform(Action),
    Undo(Action, FailureModel),
    Finished,
    GivenUp(FailureModel),
}

impl View for Next {
    type V = NextModel;

    open spec fn view(&self) -> NextModel {
        match *self {
            Next::Perform(a) => NextModel::Perform(a),
            Next::Undo(a, e) => NextModel::Undo(a, e@),
            Next::Finished => NextModel::Finished,
            Next::GivenUp(e) => NextModel::GivenUp(e@),
        }
    }
}

/// The failure that the steps so far end the operation with: that of the last
/// one, where it was required.
pub open spec fn failure(operation: OperationModel, replies: Seq<ReplyModel>) -> Option<
    FailureModel,
> {
    if replies.len() == 0 || replies.len() > operation.steps.len() {
        None
    } else {
        match replies.last() {
            ReplyModel::Failed(e) => if operation.steps[replies.len() - 1].required {
                Some(e)
            } else {
                None
            },
            _ => None,
        }
    }
}

/// What to do next, where the steps so far went as the replies say, and
/// `undone` things were done because of a failure.
pub open spec fn next_of(
    operation: OperationModel,
    replies: Seq<ReplyModel>,
    undone: int,
) -> NextModel {
    match failure(operation, replies) {
        Some(e) => if replies.len() > operation.guarded_from && 0 <= undone
            < operation.on_failure.len() {
            NextModel::Undo(operation.on_failure[undone], e)
        } else {
            NextModel::GivenUp(e)
        },
        None => if replies.len() > 0 && replies.last() is Enough {
            NextModel::Finished
        } else if replies.len() < operation.steps.len() {
            NextModel::Perform(operation.steps[replies.len() as int].action)
        } else {
            NextModel::Finished
        },
    }
}

/// Says what to do next in an operation.
pub fn advance(operation: &Operation, replies: &Vec<Reply>, undone: usize) -> (r: Next)
    ensures
        r@ == next_of(operation@, reply_models(replies@), undone as int),
{
    let n = replies.len();
    let total = operation.steps.len();
    if n > 0 {
        assert(reply_models(replies@).last() == replies@[n - 1]@);
        match &replies[n - 1] {
            Reply::Failed(e) => {
                if n <= total && operation.steps[n - 1].required {
                    if n > operation.guarded_from && undone < operation.on_failure.len() {
                        return Next::Undo(operation.on_failure[undone], e.clone());
                    }
                    return Next::GivenUp(e.clone());
                }
            },
            Reply::Enough => {
                return Next::Finished;
            },
            Reply::Done => {},
        }
    }
    if n < total {
        Next::Perform(operation.steps[n].action)
    } else {
        Next::Finished
    }
}

// ---------------------------------------------------------------------------
// Judging the state
// ---------------------------------------------------------------------------

/// The error where the service ended right after it was started.
pub const DAEMON_EXITED: &'static str = "accelerator daemon exited unexpectedly";

/// The error where the service did not come up in time.
pub const START_TIMED_OUT: &'static str = "daemon start timed out";

/// How the look at the state before a start goes: where the service runs
/// there is nothing more to do.
pub fn before_start(state: &ServiceState) -> (r: Reply)
    ensures
        r@ == if state.running {
            ReplyModel::Enough
        } else {
            ReplyModel::Done
        },
{
    if state.running {
        Reply::Enough
    } else {
        Reply::Done
    }
}

/// How the look at the state after a start goes.
pub fn confirm_running(state: &ServiceState) -> (r: Reply)
    ensures
        r@ == if state.running {
            ReplyModel::Done
        } else {
            ReplyModel::Failed(
                uncaused(
                    match state.last_error {
                        Some(e) => e@,
                        None => "accelerator daemon exited unexpectedly"@,
                    },
                ),
            )
        },
{
    if state.running {
        return Reply::Done;
    }
    match &state.last_error {
        Some(e) => Reply::Failed(failure_without_cause(e.as_str())),
        None => Reply::Failed(failure_without_cause(DAEMON_EXITED)),
    }
}

/// How the wait for the service goes on.
#[derive(Debug)]
pub enum Wait {
    /// Look at the state.
    Look,
    /// Wait for so many milliseconds before the next look.
    Again(u64),
    Over(Reply),
}

/// How the wait for the service goes on, as mathematical values.
#[verifier::ext_equal]
pub enum WaitModel {
    Look,
    Again(u64),
    Over(ReplyModel),
}

impl View for Wait {
    type V = WaitModel;

    open spec fn view(&self) -> WaitModel {
        match *self {
            Wait::Look => WaitModel::Look,
            Wait::Again(pause) => WaitModel::Again(pause),
            Wait::Over(reply) => WaitModel::Over(reply@),
        }
    }
}

/// How the wait for the service goes on after so many milliseconds: the state
/// is looked at while there is time, until it says that the service runs or
/// what went wrong. `None` is a state that was not looked at since the last
/// pause.
pub open spec fn start_wait(waited: u64, state: Option<StateModel>) -> WaitModel {
    match state {
        None => if waited >= START_TIME {
            WaitModel::Over(ReplyModel::Failed(uncaused(START_TIMED_OUT@)))
        } else {
            WaitModel::Look
        },
        Some(s) => if s.running {
            WaitModel::Over(ReplyModel::Done)
        } else {
            match s.last_error {
                Some(e) => WaitModel::Over(ReplyModel::Failed(uncaused(e))),
                None => WaitModel::Again(START_PAUSE),
            }
        },
    }
}

/// Says how the wait for the service goes on.
pub fn wait_until_running(waited: u64, state: &Option<ServiceState>) -> (r: Wait)
    ensures
        r@ == start_wait(
            waited,
            match *state {
                Some(s) => Some(s@),
                None => None,
            },
        ),
{
    match state {
        None => if waited >= START_TIME {
            Wait::Over(Reply::Failed(failure_without_cause(START_TIMED_OUT)))
        } else {
            Wait::Look
        },
        Some(s) => {
            if s.running {
                return Wait::Over(Reply::Done);
            }
            match &s.last_error {
                Some(e) => Wait::Over(Reply::Failed(failure_without_cause(e.as_str()))),
                None => Wait::Again(START_PAUSE),
            }
        },
    }
}

/// The process to end, if there is one: the recorded one, where it runs.
pub fn process_to_end(recorded: Option<u32>, running: bool) -> (r: Option<u32>)
    ensures
        r == if running {
            recorded
        } else {
            None
        },
{
    if running {
        recorded
    } else {
        None
    }
}

/// How the wait for a process to end goes on.
#[derive(Debug, Clone, Copy, PartialEq, Eq, Structural)]
pub enum StopWait {
    /// Find out whether it runs.
    Look,
    /// Wait for so many milliseconds before the next look.
    Again(u64),
    Over,
}

/// How the wait for a process to end goes on after so many milliseconds: it
/// is looked for while there is time, until it is gone. `None` is a process
/// that was not looked for since the last pause.
pub fn wait_until_stopped(waited: u64, running: Option<bool>) -> (r: StopWait)
    ensures
        r == match running {
            None => if waited >= 5000 {
                StopWait::Over
            } else {
                StopWait::Look
            },
            Some(true) => StopWait::Again(200),
            Some(false) => StopWait::Over,
        },
{
    match running {
        None => if waited >= STOP_TIME {
            StopWait::Over
        } else {
            StopWait::Look
        },
        Some(true) => StopWait::Again(STOP_PAUSE),
        Some(false) => StopWait::Over,
    }
}

// ---------------------------------------------------------------------------
// The program that serves
// ---------------------------------------------------------------------------

/// The file name of the command line program.
pub open spec fn cli_name(os: Os) -> Seq<char> {
    if os == Os::Windows {
        "linuxdo-accelerator.exe"@
    } else {
        "linuxdo-accelerator"@
    }
}

/// The file name of the command line program.
pub fn cli_binary_name(os: Os) -> (r: &'static str)
    ensures
        r@ == cli_name(os),
{
    if os == Os::Windows {
        "linuxdo-accelerator.exe"
    } else {
        "linuxdo-accelerator"
    }
}

/// Which file is the command line program.
#[derive(Debug, Clone, Copy, PartialEq, Eq, Structural)]
pub enum CliBinary {
    /// The one beside the program that runs.
    Sibling,
    /// The program that runs.
    Own,
    /// It cannot be found.
    Missing,
}

/// Finds the command line program, given whether there is a file of its name
/// beside the program that runs, and the name of that one. Nothing can be
/// found where the program that runs is not known.
pub fn current_cli_binary(os: Os, known: bool, sibling: bool, own_name: &Option<String>) -> (r:
    CliBinary)
    ensures
        r == if !known {
            CliBinary::Missing
        } else if sibling {
            CliBinary::Sibling
        } else if opt_text(*own_name) == Some(cli_name(os)) {
            CliBinary::Own
        } else {
            CliBinary::Missing
        },
{
    if !known {
        return CliBinary::Missing;
    }
    if sibling {
        return CliBinary::Sibling;
    }
    match own_name {
        Some(name) => if same_text(name.as_str(), cli_binary_name(os)) {
            CliBinary::Own
        } else {
            CliBinary::Missing
        },
        None => CliBinary::Missing,
    }
}

/// The arguments that the service is started with.
pub fn daemon_args(config_path: &str) -> (r: Vec<String>)
    ensures
        crate::text::texts(r@) == seq!["--config"@, config_path@, "daemon"@],
{
    let args = vec!["--config".to_string(), config_path.to_string(), "daemon".to_string()];
    assert(crate::text::texts(args@) =~= seq!["--config"@, config_path@, "daemon"@]);
    args
}

// ---------------------------------------------------------------------------
// Laws
// ---------------------------------------------------------------------------

/// Whether an action changes the system outside the accelerator's own files.
pub open spec fn changes_system(action: Action) -> bool {
    match action {
        Action::AddLoopback | Action::RemoveLoopback | Action::InstallCa | Action::UninstallCa
        | Action::ApplyHosts | Action::RemoveHosts | Action::EndProcess | Action::StopService =>
            true,
        _ => false,
    }
}

/// Whether the steps check the rights before anything that needs them.
pub open spec fn rights_first(steps: Seq<Step>, always: bool) -> bool {
    forall|i: int|
        0 <= i < steps.len() && changes_system((#[trigger] steps[i]).action) ==> 2 < i && steps[2]
            == must(Action::CheckRights(always))
}

/// No operation changes the system before the rights for it were checked. The
/// one that only installs the certificate does not check them.
pub proof fn law_rights_are_checked_first(os: Os, with_setup: bool)
    ensures
        rights_first(setup_steps(), true),
        rights_first(stop_steps(), true),
        rights_first(cleanup_steps(), true),
        rights_first(clean_hosts_steps(), true),
        rights_first(apply_hosts_steps(), true),
        rights_first(uninstall_steps(), true),
        rights_first(start(os).steps, true),
        rights_first(foreground(with_setup).steps, with_setup),
{
    let f = foreground(with_setup).steps;
    assert(f[2] == must(Action::CheckRights(with_setup)));
    assert(f[0] == must(Action::PreparePaths));
    assert(f[1] == must(Action::LoadConfig));
    let s = start(os).steps;
    assert(s[2] == must(Action::CheckRights(true)));
    assert(s[0] == must(Action::PreparePaths));
    assert(s[1] == must(Action::LoadConfig));
}

/// Whether replies can have come about: each step was done because the ones
/// before it did not end the operation.
pub open spec fn possible(operation: OperationModel, replies: Seq<ReplyModel>) -> bool {
    forall|k: int|
        0 <= k < replies.len() ==> #[trigger] next_of(operation, replies.take(k), 0) is Perform
}

/// An operation that is over has done all its steps, none that was required
/// failed, and none was said to be enough; or the last step was.
pub proof fn law_finished_means_done(operation: OperationModel, replies: Seq<ReplyModel>, i: int)
    requires
        possible(operation, replies),
        next_of(operation, replies, 0) is Finished,
        0 <= i < operation.steps.len(),
        i < replies.len() || !(replies.len() > 0 && replies.last() is Enough),
    ensures
        i < replies.len(),
        operation.steps[i].required ==> !(replies[i] is Failed),
{
    if i < replies.len() {
        if i == replies.len() - 1 {
            assert(replies.last() == replies[i]);
            if replies[i] is Failed && operation.steps[i].required {
                if replies.len() <= operation.steps.len() {
                    assert(failure(operation, replies) is Some);
                }
            }
        } else {
            let front = replies.take(i + 1);
            assert(next_of(operation, front, 0) is Perform);
            assert(front.last() == replies[i]);
        }
    }
}

/// Where starting the service fails at any step after the first, the hosts
/// file is cleaned, then the process forgotten, then the failure noted with
/// all that caused it, and the failure stands.
pub proof fn law_failed_start_is_undone(os: Os, replies: Seq<ReplyModel>, error: FailureModel)
    requires
        2 <= replies.len() <= start(os).steps.len(),
        replies.last() == ReplyModel::Failed(error),
    ensures
        next_of(start(os), replies, 0) == NextModel::Undo(Action::RemoveHosts, error),
        next_of(start(os), replies, 1) == NextModel::Undo(Action::ClearPid, error),
        next_of(start(os), replies, 2) == NextModel::Undo(
            Action::MarkFailed(Wording::Chain),
            error,
        ),
        recorded(Action::MarkFailed(Wording::Chain), error) == Some(error.chain),
        next_of(start(os), replies, 3) == NextModel::GivenUp(error),
{
    let s = start(os).steps;
    assert forall|i: int| 0 <= i < s.len() implies (#[trigger] s[i]).required by {}
    assert(s[replies.len() - 1].required);
}

/// Where the service runs already, starting it changes nothing more.
pub proof fn law_start_while_running(os: Os)
    ensures
        next_of(
            start(os),
            seq![
                ReplyModel::Done,
                ReplyModel::Done,
                ReplyModel::Done,
                ReplyModel::Done,
                ReplyModel::Enough,
            ],
            0,
        ) is Finished,
{
}

/// Where the proxy fails, the process is forgotten, then the failure noted in
/// its own message alone, and the failure stands.
pub proof fn law_failed_proxy_is_noted(
    with_setup: bool,
    replies: Seq<ReplyModel>,
    error: FailureModel,
)
    requires
        replies.len() == foreground_start(with_setup).len() + 1,
        replies.last() == ReplyModel::Failed(error),
    ensures
        next_of(foreground(with_setup), replies, 0) == NextModel::Undo(Action::ClearPid, error),
        next_of(foreground(with_setup), replies, 1) == NextModel::Undo(
            Action::MarkFailed(Wording::Message),
            error,
        ),
        recorded(Action::MarkFailed(Wording::Message), error) == Some(error.message),
        next_of(foreground(with_setup), replies, 2) == NextModel::GivenUp(error),
{
    assert(foreground(with_setup).steps[replies.len() - 1] == must(Action::RunProxy));
}

/// A service that is started is recorded right after it was started, and
/// before it is waited for.
pub proof fn law_spawned_process_is_recorded(os: Os, i: int)
    requires
        0 <= i < start(os).steps.len(),
        start(os).steps[i].action == Action::SpawnDaemon,
    ensures
        i + 2 < start(os).steps.len(),
        start(os).steps[i + 1] == must(Action::RecordDaemonPid),
        start(os).steps[i + 2] == must(Action::AwaitRunning),
{
    let s = start(os).steps;
    let at: int = if os == Os::MacOs {
        8
    } else {
        9
    };
    assert(s[at] == must(Action::SpawnDaemon));
    assert(s[at + 1] == must(Action::RecordDaemonPid));
    assert(s[at + 2] == must(Action::AwaitRunning));
    assert(s[0].action == Action::PreparePaths);
    assert(s[1].action == Action::LoadConfig);
    assert(s[2].action == Action::CheckRights(true));
    assert(s[3].action == Action::AddLoopback);
    assert(s[4].action == Action::RefreshBeforeStart);
    assert(s[5].action == Action::RenewCertificates);
    assert(i == at);
}

} // verus!
