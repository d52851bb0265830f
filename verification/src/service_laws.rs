//! What holds of the operations of the service: what each has done to the
//! system once it is over, and in which order.
use crate::platform::Os;
use crate::service::{
    apply_hosts_steps, clean_hosts_steps, cleanup_steps, cli_name, foreground, init_config_steps,
    next_of, plain, prepare_certificate_steps, recorded, reply_models, setup_steps, start,
    start_wait, status_steps, stop_steps, uninstall_steps, Action, Failure, FailureModel, Next,
    NextModel, Notice, Operation, OperationModel, Reply, ReplyModel, Step, WaitModel, Wording,
};
use crate::state::StateModel;
use vstd::prelude::*;

verus! {

// ---------------------------------------------------------------------------
// Order
// ---------------------------------------------------------------------------

/// Whether steps hold an action that they fail with, and behind it another.
pub open spec fn done_before(steps: Seq<Step>, a: Action, b: Action) -> bool {
    exists|i: int, j: int|
        0 <= i < j < steps.len() && #[trigger] steps[i] == (Step { action: a, required: true })
            && #[trigger] steps[j] == (Step { action: b, required: true })
}

proof fn lemma_done_before(steps: Seq<Step>, i: int, j: int, a: Action, b: Action)
    requires
        0 <= i < j < steps.len(),
        steps[i] == (Step { action: a, required: true }),
        steps[j] == (Step { action: b, required: true }),
    ensures
        done_before(steps, a, b),
{
}

/// A start applies the hosts file after the rights for it were checked and the
/// certificates made, and before the service is started as a process; the
/// system trusts the root certificate by then, but for macOS, where that is
/// not done here. Every step is required.
pub proof fn law_start_applies_hosts_before_the_service(os: Os)
    ensures
        done_before(start(os).steps, Action::PreparePaths, Action::LoadConfig),
        done_before(start(os).steps, Action::LoadConfig, Action::CheckRights(true)),
        done_before(start(os).steps, Action::CheckRights(true), Action::AddLoopback),
        done_before(start(os).steps, Action::AddLoopback, Action::RefreshBeforeStart),
        done_before(start(os).steps, Action::RefreshBeforeStart, Action::RenewCertificates),
        done_before(start(os).steps, Action::CheckRights(true), Action::ApplyHosts),
        done_before(start(os).steps, Action::RenewCertificates, Action::ApplyHosts),
        os != Os::MacOs ==> done_before(
            start(os).steps,
            Action::RenewCertificates,
            Action::InstallCa,
        ) && done_before(start(os).steps, Action::InstallCa, Action::ApplyHosts),
        os == Os::MacOs ==> forall|i: int|
            0 <= i < start(os).steps.len() ==> (#[trigger] start(os).steps[i]).action
                != Action::InstallCa,
        done_before(start(os).steps, Action::ApplyHosts, Action::MarkStarting),
        done_before(start(os).steps, Action::ApplyHosts, Action::SpawnDaemon),
        done_before(start(os).steps, Action::MarkStarting, Action::SpawnDaemon),
        done_before(start(os).steps, Action::SpawnDaemon, Action::RecordDaemonPid),
        done_before(start(os).steps, Action::RecordDaemonPid, Action::AwaitRunning),
        done_before(start(os).steps, Action::AwaitRunning, Action::Pause(800)),
        done_before(start(os).steps, Action::Pause(800), Action::ConfirmRunning),
        start(os).steps.last().action == Action::ConfirmRunning,
        forall|i: int| 0 <= i < start(os).steps.len() ==> (#[trigger] start(os).steps[i]).required,
        os == Os::MacOs ==> start(os).steps.len() == 13,
        os != Os::MacOs ==> start(os).steps.len() == 14,
{
    let s = start(os).steps;
    let n: int = if os == Os::MacOs {
        6
    } else {
        7
    };
    lemma_done_before(s, 0, 1, Action::PreparePaths, Action::LoadConfig);
    lemma_done_before(s, 1, 2, Action::LoadConfig, Action::CheckRights(true));
    lemma_done_before(s, 2, 3, Action::CheckRights(true), Action::AddLoopback);
    lemma_done_before(s, 3, 4, Action::AddLoopback, Action::RefreshBeforeStart);
    lemma_done_before(s, 4, 5, Action::RefreshBeforeStart, Action::RenewCertificates);
    lemma_done_before(s, 2, n, Action::CheckRights(true), Action::ApplyHosts);
    lemma_done_before(s, 5, n, Action::RenewCertificates, Action::ApplyHosts);
    if os != Os::MacOs {
        lemma_done_before(s, 5, 6, Action::RenewCertificates, Action::InstallCa);
        lemma_done_before(s, 6, 7, Action::InstallCa, Action::ApplyHosts);
    }
    lemma_done_before(s, n, n + 1, Action::ApplyHosts, Action::MarkStarting);
    lemma_done_before(s, n, n + 2, Action::ApplyHosts, Action::SpawnDaemon);
    lemma_done_before(s, n + 1, n + 2, Action::MarkStarting, Action::SpawnDaemon);
    lemma_done_before(s, n + 2, n + 3, Action::SpawnDaemon, Action::RecordDaemonPid);
    lemma_done_before(s, n + 3, n + 4, Action::RecordDaemonPid, Action::AwaitRunning);
    lemma_done_before(s, n + 4, n + 5, Action::AwaitRunning, Action::Pause(800));
    lemma_done_before(s, n + 5, n + 6, Action::Pause(800), Action::ConfirmRunning);
}

/// Serving in this process with everything set up first does so before this
/// process is recorded, and that before the proxy runs; without, the
/// certificates are only loaded and neither the hosts file nor the trust of
/// the system is touched.
pub proof fn law_foreground_sets_up_before_serving(with_setup: bool)
    ensures
        ({
            let s = foreground(with_setup).steps;
            &&& done_before(s, Action::PreparePaths, Action::LoadConfig)
            &&& done_before(s, Action::LoadConfig, Action::CheckRights(with_setup))
            &&& done_before(s, Action::CheckRights(with_setup), Action::AddLoopback)
            &&& with_setup ==> {
                &&& done_before(s, Action::AddLoopback, Action::RenewCertificates)
                &&& done_before(s, Action::RenewCertificates, Action::InstallCa)
                &&& done_before(s, Action::InstallCa, Action::ApplyHosts)
                &&& done_before(s, Action::ApplyHosts, Action::RecordOwnPid)
                &&& s.len() == 12
            }
            &&& !with_setup ==> {
                &&& done_before(s, Action::AddLoopback, Action::LoadCertificates)
                &&& done_before(s, Action::LoadCertificates, Action::RecordOwnPid)
                &&& s.len() == 10
            }
            &&& done_before(s, Action::RecordOwnPid, Action::MarkRunning)
            &&& done_before(s, Action::MarkRunning, Action::RunProxy)
            &&& s[s.len() - 3].action == Action::RunProxy
            &&& s[s.len() - 2] == (Step { action: Action::ClearPid, required: false })
            &&& s.last() == (Step {
                action: Action::MarkStopped(Notice::ProxyEnded),
                required: false,
            })
        }),
{
    let s = foreground(with_setup).steps;
    lemma_done_before(s, 0, 1, Action::PreparePaths, Action::LoadConfig);
    lemma_done_before(s, 1, 2, Action::LoadConfig, Action::CheckRights(with_setup));
    lemma_done_before(s, 2, 3, Action::CheckRights(with_setup), Action::AddLoopback);
    if with_setup {
        lemma_done_before(s, 3, 4, Action::AddLoopback, Action::RenewCertificates);
        lemma_done_before(s, 4, 5, Action::RenewCertificates, Action::InstallCa);
        lemma_done_before(s, 5, 6, Action::InstallCa, Action::ApplyHosts);
        lemma_done_before(s, 6, 7, Action::ApplyHosts, Action::RecordOwnPid);
        lemma_done_before(s, 7, 8, Action::RecordOwnPid, Action::MarkRunning);
        lemma_done_before(s, 8, 9, Action::MarkRunning, Action::RunProxy);
    } else {
        lemma_done_before(s, 3, 4, Action::AddLoopback, Action::LoadCertificates);
        lemma_done_before(s, 4, 5, Action::LoadCertificates, Action::RecordOwnPid);
        lemma_done_before(s, 5, 6, Action::RecordOwnPid, Action::MarkRunning);
        lemma_done_before(s, 6, 7, Action::MarkRunning, Action::RunProxy);
    }
}

/// The service is ended before the hosts file is cleaned, and the loopback
/// address goes only after that; the rights were checked before.
pub proof fn law_stop_ends_the_service_first()
    ensures
        done_before(stop_steps(), Action::PreparePaths, Action::LoadConfig),
        done_before(stop_steps(), Action::LoadConfig, Action::CheckRights(true)),
        done_before(stop_steps(), Action::CheckRights(true), Action::EndProcess),
        done_before(stop_steps(), Action::EndProcess, Action::RemoveHosts),
        done_before(stop_steps(), Action::RemoveHosts, Action::RemoveLoopback),
        done_before(stop_steps(), Action::RemoveLoopback, Action::ClearPid),
        done_before(
            stop_steps(),
            Action::ClearPid,
            Action::MarkStopped(Notice::ServiceStopped),
        ),
        stop_steps().len() == 8,
{
    let s = stop_steps();
    lemma_done_before(s, 0, 1, Action::PreparePaths, Action::LoadConfig);
    lemma_done_before(s, 1, 2, Action::LoadConfig, Action::CheckRights(true));
    lemma_done_before(s, 2, 3, Action::CheckRights(true), Action::EndProcess);
    lemma_done_before(s, 3, 4, Action::EndProcess, Action::RemoveHosts);
    lemma_done_before(s, 4, 5, Action::RemoveHosts, Action::RemoveLoopback);
    lemma_done_before(s, 5, 6, Action::RemoveLoopback, Action::ClearPid);
    lemma_done_before(s, 6, 7, Action::ClearPid, Action::MarkStopped(Notice::ServiceStopped));
}

/// Setting up makes the certificates before the system is made to trust one,
/// and applies the hosts file last, before it is said to be done.
pub proof fn law_setup_goes_from_certificates_to_hosts()
    ensures
        done_before(setup_steps(), Action::PreparePaths, Action::LoadConfig),
        done_before(setup_steps(), Action::LoadConfig, Action::CheckRights(true)),
        done_before(setup_steps(), Action::CheckRights(true), Action::AddLoopback),
        done_before(setup_steps(), Action::AddLoopback, Action::RenewCertificates),
        done_before(setup_steps(), Action::RenewCertificates, Action::InstallCa),
        done_before(setup_steps(), Action::InstallCa, Action::ApplyHosts),
        done_before(
            setup_steps(),
            Action::ApplyHosts,
            Action::MarkStopped(Notice::SetupDone),
        ),
        setup_steps().len() == 8,
        done_before(prepare_certificate_steps(), Action::PreparePaths, Action::LoadConfig),
        done_before(prepare_certificate_steps(), Action::LoadConfig, Action::RenewCertificates),
        done_before(prepare_certificate_steps(), Action::RenewCertificates, Action::InstallCa),
        prepare_certificate_steps().len() == 4,
        done_before(init_config_steps(), Action::PreparePaths, Action::LoadConfig),
        init_config_steps().len() == 2,
        done_before(status_steps(), Action::PreparePaths, Action::RefreshState),
        status_steps().len() == 2,
{
    let s = setup_steps();
    lemma_done_before(s, 0, 1, Action::PreparePaths, Action::LoadConfig);
    lemma_done_before(s, 1, 2, Action::LoadConfig, Action::CheckRights(true));
    lemma_done_before(s, 2, 3, Action::CheckRights(true), Action::AddLoopback);
    lemma_done_before(s, 3, 4, Action::AddLoopback, Action::RenewCertificates);
    lemma_done_before(s, 4, 5, Action::RenewCertificates, Action::InstallCa);
    lemma_done_before(s, 5, 6, Action::InstallCa, Action::ApplyHosts);
    lemma_done_before(s, 6, 7, Action::ApplyHosts, Action::MarkStopped(Notice::SetupDone));
    let p = prepare_certificate_steps();
    lemma_done_before(p, 0, 1, Action::PreparePaths, Action::LoadConfig);
    lemma_done_before(p, 1, 2, Action::LoadConfig, Action::RenewCertificates);
    lemma_done_before(p, 2, 3, Action::RenewCertificates, Action::InstallCa);
    lemma_done_before(init_config_steps(), 0, 1, Action::PreparePaths, Action::LoadConfig);
    lemma_done_before(status_steps(), 0, 1, Action::PreparePaths, Action::RefreshState);
}

// ---------------------------------------------------------------------------
// What an operation does to the system
// ---------------------------------------------------------------------------

/// What the recorded state says.
pub enum Said {
    /// What it said before.
    Earlier,
    Running,
    Starting,
    Stopped(Notice),
    Failed(Wording),
}

/// The system, as far as the operations change it.
#[verifier::ext_equal]
pub struct System {
    /// Whether the loopback address is there.
    pub loopback: bool,
    /// Whether the certificates are made.
    pub certificates: bool,
    /// Whether the root certificate is trusted.
    pub trusted: bool,
    /// Whether the managed block stands in the hosts file.
    pub hosts: bool,
    /// Whether the service runs as a process of its own.
    pub process: bool,
    /// Whether a process is recorded as the service.
    pub recorded: bool,
    pub said: Said,
}

/// The system once an action is done.
pub open spec fn after_action(action: Action, system: System) -> System {
    match action {
        Action::AddLoopback => System { loopback: true, ..system },
        Action::RemoveLoopback => System { loopback: false, ..system },
        Action::RenewCertificates => System { certificates: true, ..system },
        Action::LoadCertificates => System { certificates: true, ..system },
        Action::InstallCa => System { trusted: true, ..system },
        Action::UninstallCa => System { trusted: false, ..system },
        Action::ApplyHosts => System { hosts: true, ..system },
        Action::RemoveHosts => System { hosts: false, ..system },
        Action::SpawnDaemon => System { process: true, ..system },
        Action::EndProcess => System { process: false, ..system },
        Action::RecordOwnPid => System { recorded: true, ..system },
        Action::RecordDaemonPid => System { recorded: true, ..system },
        Action::ClearPid => System { recorded: false, ..system },
        Action::StopService => System {
            process: false,
            hosts: false,
            loopback: false,
            recorded: false,
            said: Said::Stopped(Notice::ServiceStopped),
            ..system
        },
        Action::MarkRunning => System { said: Said::Running, ..system },
        Action::MarkStarting => System { said: Said::Starting, ..system },
        Action::MarkStopped(notice) => System { said: Said::Stopped(notice), ..system },
        Action::MarkFailed(wording) => System { said: Said::Failed(wording), ..system },
        _ => system,
    }
}

/// The system once the first `n` steps are done.
pub open spec fn after_steps(steps: Seq<Step>, n: nat, system: System) -> System
    decreases n,
{
    if n == 0 {
        system
    } else {
        after_action(steps[n - 1].action, after_steps(steps, (n - 1) as nat, system))
    }
}

/// The system once all steps are done.
pub open spec fn after_all(steps: Seq<Step>, system: System) -> System {
    after_steps(steps, steps.len(), system)
}

/// The system once all actions are done.
pub open spec fn after_actions(actions: Seq<Action>, n: nat, system: System) -> System
    decreases n,
{
    if n == 0 {
        system
    } else {
        after_action(actions[n - 1], after_actions(actions, (n - 1) as nat, system))
    }
}

/// A start that is done has added the loopback address, made the certificates,
/// had the root certificate trusted, but for macOS, put the managed block into
/// the hosts file, and started the service and recorded it.
pub proof fn law_start_does(os: Os, before: System)
    ensures
        after_all(start(os).steps, before) == (System {
            loopback: true,
            certificates: true,
            trusted: os != Os::MacOs || before.trusted,
            hosts: true,
            process: true,
            recorded: true,
            said: Said::Starting,
        }),
{
    reveal_with_fuel(after_steps, 15);
}

/// A stop that is done has ended the service, cleaned the hosts file, removed
/// the loopback address and forgotten the process, and says so; the
/// certificates stay as they were.
pub proof fn law_stop_does(before: System)
    ensures
        after_all(stop_steps(), before) == (System {
            loopback: false,
            hosts: false,
            process: false,
            recorded: false,
            said: Said::Stopped(Notice::ServiceStopped),
            ..before
        }),
        after_all(stop_steps(), before) == after_action(Action::StopService, before),
{
    reveal_with_fuel(after_steps, 9);
}

/// A stop undoes what a start did, but for the certificates: nothing of the
/// service is left where nothing of it was there before.
pub proof fn law_stop_undoes_start(os: Os, before: System)
    requires
        !before.loopback,
        !before.hosts,
        !before.process,
        !before.recorded,
    ensures
        ({
            let after = after_all(stop_steps(), after_all(start(os).steps, before));
            &&& after.loopback == before.loopback
            &&& after.hosts == before.hosts
            &&& after.process == before.process
            &&& after.recorded == before.recorded
            &&& after.said == Said::Stopped(Notice::ServiceStopped)
        }),
{
    law_start_does(os, before);
    law_stop_does(after_all(start(os).steps, before));
}

/// A cleanup that is done leaves neither the service nor the trust in the root
/// certificate, whatever was there before.
pub proof fn law_cleanup_does(before: System)
    ensures
        after_all(cleanup_steps(), before) == (System {
            loopback: false,
            trusted: false,
            hosts: false,
            process: false,
            recorded: false,
            said: Said::Stopped(Notice::CleanedUp),
            ..before
        }),
        cleanup_steps().len() == 6,
        done_before(cleanup_steps(), Action::PreparePaths, Action::LoadConfig),
        done_before(cleanup_steps(), Action::LoadConfig, Action::CheckRights(true)),
        done_before(cleanup_steps(), Action::CheckRights(true), Action::UninstallCa),
        forall|i: int|
            0 <= i < cleanup_steps().len() ==> ((#[trigger] cleanup_steps()[i]).required
                <==> cleanup_steps()[i].action != Action::StopService),
{
    reveal_with_fuel(after_steps, 7);
    let s = cleanup_steps();
    lemma_done_before(s, 0, 1, Action::PreparePaths, Action::LoadConfig);
    lemma_done_before(s, 1, 2, Action::LoadConfig, Action::CheckRights(true));
    lemma_done_before(s, 2, 4, Action::CheckRights(true), Action::UninstallCa);
}

/// Setting up does all that a start does but for the service itself.
pub proof fn law_setup_does(before: System)
    ensures
        after_all(setup_steps(), before) == (System {
            loopback: true,
            certificates: true,
            trusted: true,
            hosts: true,
            said: Said::Stopped(Notice::SetupDone),
            ..before
        }),
        after_all(prepare_certificate_steps(), before) == (System {
            certificates: true,
            trusted: true,
            ..before
        }),
        after_all(init_config_steps(), before) == before,
        after_all(status_steps(), before) == before,
{
    reveal_with_fuel(after_steps, 9);
}

/// Applying the hosts file adds the loopback address and the managed block and
/// nothing else; cleaning it removes both and nothing else.
pub proof fn law_hosts_operations_do(before: System)
    ensures
        after_all(apply_hosts_steps(), before) == (System {
            loopback: true,
            hosts: true,
            ..before
        }),
        after_all(clean_hosts_steps(), before) == (System {
            loopback: false,
            hosts: false,
            said: Said::Stopped(Notice::HostsCleaned),
            ..before
        }),
        done_before(apply_hosts_steps(), Action::LoadConfig, Action::CheckRights(true)),
        done_before(apply_hosts_steps(), Action::CheckRights(true), Action::AddLoopback),
        done_before(apply_hosts_steps(), Action::AddLoopback, Action::ApplyHosts),
        apply_hosts_steps().len() == 5,
        done_before(clean_hosts_steps(), Action::LoadConfig, Action::CheckRights(true)),
        done_before(clean_hosts_steps(), Action::CheckRights(true), Action::RemoveHosts),
        done_before(clean_hosts_steps(), Action::RemoveHosts, Action::RemoveLoopback),
        clean_hosts_steps().len() == 6,
        apply_hosts_steps()[0].action == Action::PreparePaths,
        clean_hosts_steps()[0].action == Action::PreparePaths,
        forall|i: int|
            0 <= i < apply_hosts_steps().len() ==> (#[trigger] apply_hosts_steps()[i]).required,
        forall|i: int|
            0 <= i < clean_hosts_steps().len() ==> (#[trigger] clean_hosts_steps()[i]).required,
{
    reveal_with_fuel(after_steps, 7);
    let a = apply_hosts_steps();
    lemma_done_before(a, 1, 2, Action::LoadConfig, Action::CheckRights(true));
    lemma_done_before(a, 2, 3, Action::CheckRights(true), Action::AddLoopback);
    lemma_done_before(a, 3, 4, Action::AddLoopback, Action::ApplyHosts);
    let c = clean_hosts_steps();
    lemma_done_before(c, 1, 2, Action::LoadConfig, Action::CheckRights(true));
    lemma_done_before(c, 2, 3, Action::CheckRights(true), Action::RemoveHosts);
    lemma_done_before(c, 3, 4, Action::RemoveHosts, Action::RemoveLoopback);
}

/// Removing the root certificate ends the trust in it and nothing else.
pub proof fn law_uninstall_does(before: System)
    ensures
        after_all(uninstall_steps(), before) == (System {
            trusted: false,
            said: Said::Stopped(Notice::CertificateRemoved),
            ..before
        }),
        uninstall_steps().len() == 5,
        done_before(uninstall_steps(), Action::PreparePaths, Action::LoadConfig),
        done_before(uninstall_steps(), Action::LoadConfig, Action::CheckRights(true)),
        done_before(uninstall_steps(), Action::CheckRights(true), Action::UninstallCa),
        forall|i: int|
            0 <= i < uninstall_steps().len() ==> (#[trigger] uninstall_steps()[i]).required,
{
    reveal_with_fuel(after_steps, 6);
    let s = uninstall_steps();
    lemma_done_before(s, 0, 1, Action::PreparePaths, Action::LoadConfig);
    lemma_done_before(s, 1, 2, Action::LoadConfig, Action::CheckRights(true));
    lemma_done_before(s, 2, 3, Action::CheckRights(true), Action::UninstallCa);
}

/// Serving in this process leaves no process recorded once the proxy has
/// ended. The hosts file and the trust in the certificate stay as they were
/// unless everything was to be set up.
pub proof fn law_foreground_does(with_setup: bool, before: System)
    ensures
        after_all(foreground(with_setup).steps, before) == (System {
            loopback: true,
            certificates: true,
            trusted: with_setup || before.trusted,
            hosts: with_setup || before.hosts,
            process: before.process,
            recorded: false,
            said: Said::Stopped(Notice::ProxyEnded),
        }),
{
    reveal_with_fuel(after_steps, 13);
}

/// Wherever a start fails, what is done because of it leaves the hosts file
/// clean and no process recorded, and the state says what failed.
pub proof fn law_failed_start_leaves_no_hosts(os: Os, n: nat, before: System)
    requires
        n <= start(os).steps.len(),
    ensures
        ({
            let after = after_actions(
                start(os).on_failure,
                start(os).on_failure.len(),
                after_steps(start(os).steps, n, before),
            );
            &&& !after.hosts
            &&& !after.recorded
            &&& after.said == Said::Failed(Wording::Chain)
        }),
        start(os).guarded_from == 1,
{
    reveal_with_fuel(after_actions, 4);
}

/// Where the proxy fails, what is done because of it leaves no process
/// recorded, and the state says what failed.
pub proof fn law_failed_proxy_leaves_no_process(with_setup: bool, before: System)
    ensures
        ({
            let o = foreground(with_setup);
            let after = after_actions(o.on_failure, o.on_failure.len(), before);
            &&& after == (System {
                recorded: false,
                said: Said::Failed(Wording::Message),
                ..before
            })
            &&& o.steps[o.guarded_from].action == Action::RunProxy
        }),
{
    reveal_with_fuel(after_actions, 3);
}

/// The other operations do nothing where they fail.
pub proof fn law_plain_operations(steps: Seq<Step>, replies: Seq<ReplyModel>, undone: int)
    ensures
        !(next_of(plain(steps), replies, undone) is Undo),
        plain(steps).steps == steps,
{
}

// ---------------------------------------------------------------------------
// Going through an operation
// ---------------------------------------------------------------------------

/// The steps are taken one after another for as long as each is done, or fails
/// and need not be done.
pub proof fn law_steps_are_taken_in_order(
    operation: OperationModel,
    replies: Seq<ReplyModel>,
    undone: int,
)
    requires
        replies.len() <= operation.steps.len(),
        replies.len() > 0 ==> replies.last() is Done || (replies.last() is Failed
            && !operation.steps[replies.len() - 1].required),
    ensures
        replies.len() < operation.steps.len() ==> next_of(operation, replies, undone)
            == NextModel::Perform(operation.steps[replies.len() as int].action),
        replies.len() == operation.steps.len() ==> next_of(operation, replies, undone)
            is Finished,
{
}

/// A step that says that it is enough ends the operation.
pub proof fn law_enough_is_enough(
    operation: OperationModel,
    replies: Seq<ReplyModel>,
    undone: int,
)
    requires
        replies.len() > 0,
        replies.last() is Enough,
    ensures
        next_of(operation, replies, undone) is Finished,
{
}

/// A required step that fails ends the operation: what is to be done because
/// of it is done in order, with the failure at hand, where the step is a
/// guarded one, and then the operation is given up with that failure.
pub proof fn law_failure_ends_the_operation(
    operation: OperationModel,
    replies: Seq<ReplyModel>,
    undone: int,
    error: FailureModel,
)
    requires
        0 < replies.len() <= operation.steps.len(),
        operation.steps[replies.len() - 1].required,
        replies.last() == ReplyModel::Failed(error),
        0 <= undone,
    ensures
        replies.len() > operation.guarded_from && undone < operation.on_failure.len() ==> next_of(
            operation,
            replies,
            undone,
        ) == NextModel::Undo(operation.on_failure[undone], error),
        replies.len() <= operation.guarded_from || undone >= operation.on_failure.len()
            ==> next_of(operation, replies, undone) == NextModel::GivenUp(error),
{
}

/// The state says of a failure its message, or the message with its causes.
pub proof fn law_failures_are_recorded(error: FailureModel, action: Action)
    ensures
        recorded(Action::MarkFailed(Wording::Message), error) == Some(error.message),
        recorded(Action::MarkFailed(Wording::Chain), error) == Some(error.chain),
        recorded(action, error) is Some ==> action is MarkFailed,
{
}

/// The service is waited for up to ten seconds, with a look at its state every
/// quarter of a second, until the state says that it runs or that it failed.
pub proof fn law_wait_for_the_service(waited: u64, state: StateModel)
    ensures
        waited < 10_000 ==> start_wait(waited, None) is Look,
        waited >= 10_000 ==> (start_wait(waited, None) matches WaitModel::Over(
            ReplyModel::Failed(e),
        ) && e.message == "daemon start timed out"@ && e.chain == e.message),
        state.running ==> start_wait(waited, Some(state)) == WaitModel::Over(ReplyModel::Done),
        !state.running && state.last_error is None ==> start_wait(waited, Some(state))
            == WaitModel::Again(250),
        !state.running && state.last_error is Some ==> (start_wait(waited, Some(state)) matches
            WaitModel::Over(ReplyModel::Failed(e)) && Some(e.message) == state.last_error
            && e.chain == e.message),
{
}

/// The state says in these words what was done.
pub proof fn law_notices_in_words()
    ensures
        Notice::SetupDone.words() == "系统加速环境已准备"@,
        Notice::ProxyEnded.words() == "加速服务已退出"@,
        Notice::ServiceStopped.words() == "加速已停止"@,
        Notice::CleanedUp.words() == "已清理证书和 hosts"@,
        Notice::HostsCleaned.words() == "hosts 已清理"@,
        Notice::CertificateRemoved.words() == "根证书已卸载"@,
{
}

/// The command line program has the name of the package, with `.exe` behind it
/// on Windows alone.
pub proof fn law_name_of_the_program(os: Os)
    ensures
        os == Os::Windows ==> cli_name(os) == "linuxdo-accelerator.exe"@,
        os != Os::Windows ==> cli_name(os) == "linuxdo-accelerator"@,
{
}

/// What is said of an operation, of its steps and of what comes next is what
/// they are.
pub proof fn law_operations_as_they_are(
    operation: Operation,
    replies: Seq<Reply>,
    i: int,
    action: Action,
    failure: Failure,
)
    requires
        0 <= i < replies.len(),
    ensures
        operation@.steps == operation.steps@,
        operation@.guarded_from == operation.guarded_from,
        operation@.on_failure == operation.on_failure@,
        reply_models(replies).len() == replies.len(),
        reply_models(replies)[i] == replies[i]@,
        failure@.message == failure.message@,
        failure@.chain == failure.chain@,
        Reply::Done@ == ReplyModel::Done,
        Reply::Enough@ == ReplyModel::Enough,
        Reply::Failed(failure)@ == ReplyModel::Failed(failure@),
        Next::Perform(action)@ == NextModel::Perform(action),
        Next::Undo(action, failure)@ == NextModel::Undo(action, failure@),
        Next::Finished@ == NextModel::Finished,
        Next::GivenUp(failure)@ == NextModel::GivenUp(failure@),
        plain(operation@.steps) == (OperationModel {
            steps: operation@.steps,
            guarded_from: operation@.steps.len() as int,
            on_failure: Seq::empty(),
        }),
{
}

} // verus!
