//! The command line: which operation a command stands for, and what is
//! printed once it is done.
use vstd::prelude::*;

verus! {

/// The command line, read.
#[derive(Debug)]
pub struct Cli {
    /// The configuration file to use in the place of the usual one.
    pub config: Option<String>,
    /// The command; the window is opened where there is none.
    pub command: Option<Command>,
}

/// The commands.
#[derive(Debug, Clone, Copy, PartialEq, Eq, Structural)]
pub enum Command {
    Gui,
    InitConfig,
    Setup,
    Run,
    Start,
    Stop,
    Status,
    CleanHosts,
    ApplyHosts,
    UninstallCert,
    Cleanup,
    HelperStart,
    HelperStop,
    Daemon,
}

/// What a command stands for.
#[derive(Debug, Clone, Copy, PartialEq, Eq, Structural)]
pub enum Task {
    /// Make sure that there is a configuration, then open the window.
    OpenWindow,
    InitConfig,
    Setup,
    /// Serve in this process, with everything set up first or not.
    Foreground(bool),
    Stop,
    Status,
    CleanHosts,
    ApplyHosts,
    UninstallCertificate,
    Cleanup,
    HelperStart,
}

/// What is printed once a task is done.
#[derive(Debug, Clone, Copy, PartialEq, Eq, Structural)]
pub enum Report {
    Nothing,
    /// The text, and the path of the configuration behind it.
    ConfigPath,
    /// The state of the service.
    State,
    Words(Outcome),
}

/// What the words after a task say.
#[derive(Debug, Clone, Copy, PartialEq, Eq, Structural)]
pub enum Outcome {
    SetupComplete,
    ServiceStopped,
    HostsCleaned,
    HostsApplied,
    CertificateRemoved,
    CleanupComplete,
    ServiceStarted,
}

/// The text in front of the path of the configuration.
pub const CONFIG_READY: &'static str = "config ready: ";

impl Outcome {
    /// The outcome in words.
    pub open spec fn words(self) -> Seq<char> {
        match self {
            Outcome::SetupComplete => "setup complete"@,
            Outcome::ServiceStopped => "service stopped"@,
            Outcome::HostsCleaned => "hosts cleaned"@,
            Outcome::HostsApplied => "hosts applied"@,
            Outcome::CertificateRemoved => "certificate removed"@,
            Outcome::CleanupComplete => "cleanup complete"@,
            Outcome::ServiceStarted => "service started"@,
        }
    }

    /// The outcome in words.
    pub fn text(self) -> (r: &'static str)
        ensures
            r@ == self.words(),
    {
        match self {
            Outcome::SetupComplete => "setup complete",
            Outcome::ServiceStopped => "service stopped",
            Outcome::HostsCleaned => "hosts cleaned",
            Outcome::HostsApplied => "hosts applied",
            Outcome::CertificateRemoved => "certificate removed",
            Outcome::CleanupComplete => "cleanup complete",
            Outcome::ServiceStarted => "service started",
        }
    }
}

/// What a command stands for, and what is printed after it.
pub open spec fn task_of(command: Option<Command>) -> (Task, Report) {
    match command {
        None => (Task::OpenWindow, Report::Nothing),
        Some(Command::Gui) => (Task::OpenWindow, Report::Nothing),
        Some(Command::InitConfig) => (Task::InitConfig, Report::ConfigPath),
        Some(Command::Setup) => (Task::Setup, Report::Words(Outcome::SetupComplete)),
        Some(Command::Run) => (Task::Foreground(false), Report::Nothing),
        Some(Command::Daemon) => (Task::Foreground(false), Report::Nothing),
        Some(Command::Start) => (Task::Foreground(true), Report::Nothing),
        Some(Command::Stop) => (Task::Stop, Report::Words(Outcome::ServiceStopped)),
        Some(Command::HelperStop) => (Task::Stop, Report::Words(Outcome::ServiceStopped)),
        Some(Command::Status) => (Task::Status, Report::State),
        Some(Command::CleanHosts) => (Task::CleanHosts, Report::Words(Outcome::HostsCleaned)),
        Some(Command::ApplyHosts) => (Task::ApplyHosts, Report::Words(Outcome::HostsApplied)),
        Some(Command::UninstallCert) => (
            Task::UninstallCertificate,
            Report::Words(Outcome::CertificateRemoved),
        ),
        Some(Command::Cleanup) => (Task::Cleanup, Report::Words(Outcome::CleanupComplete)),
        Some(Command::HelperStart) => (Task::HelperStart, Report::Words(Outcome::ServiceStarted)),
    }
}

/// Finds out what a command line stands for.
pub fn run(cli: &Cli) -> (r: (Task, Report))
    ensures
        r == task_of(cli.command),
{
    match cli.command {
        None | Some(Command::Gui) => (Task::OpenWindow, Report::Nothing),
        Some(Command::InitConfig) => (Task::InitConfig, Report::ConfigPath),
        Some(Command::Setup) => (Task::Setup, Report::Words(Outcome::SetupComplete)),
        Some(Command::Run) | Some(Command::Daemon) => (Task::Foreground(false), Report::Nothing),
        Some(Command::Start) => (Task::Foreground(true), Report::Nothing),
        Some(Command::Stop) | Some(Command::HelperStop) => (
            Task::Stop,
            Report::Words(Outcome::ServiceStopped),
        ),
        Some(Command::Status) => (Task::Status, Report::State),
        Some(Command::CleanHosts) => (Task::CleanHosts, Report::Words(Outcome::HostsCleaned)),
        Some(Command::ApplyHosts) => (Task::ApplyHosts, Report::Words(Outcome::HostsApplied)),
        Some(Command::UninstallCert) => (
            Task::UninstallCertificate,
            Report::Words(Outcome::CertificateRemoved),
        ),
        Some(Command::Cleanup) => (Task::Cleanup, Report::Words(Outcome::CleanupComplete)),
        Some(Command::HelperStart) => (Task::HelperStart, Report::Words(Outcome::ServiceStarted)),
    }
}

/// Every command does what it is named after, and says so once it is done;
/// the window is opened where there is no command. The commands that a user
/// does not see do the same as those that it sees.
pub proof fn law_commands()
    ensures
        task_of(None).0 == Task::OpenWindow,
        task_of(Some(Command::Gui)) == task_of(None),
        task_of(Some(Command::InitConfig)).0 == Task::InitConfig,
        task_of(Some(Command::Setup)).0 == Task::Setup,
        task_of(Some(Command::Start)).0 == Task::Foreground(true),
        task_of(Some(Command::Run)).0 == Task::Foreground(false),
        task_of(Some(Command::Daemon)) == task_of(Some(Command::Run)),
        task_of(Some(Command::Stop)).0 == Task::Stop,
        task_of(Some(Command::HelperStop)) == task_of(Some(Command::Stop)),
        task_of(Some(Command::HelperStart)).0 == Task::HelperStart,
        task_of(Some(Command::Status)).0 == Task::Status,
        task_of(Some(Command::CleanHosts)).0 == Task::CleanHosts,
        task_of(Some(Command::ApplyHosts)).0 == Task::ApplyHosts,
        task_of(Some(Command::UninstallCert)).0 == Task::UninstallCertificate,
        task_of(Some(Command::Cleanup)).0 == Task::Cleanup,
{
}

/// What is printed depends on the task alone: the path of the configuration
/// once there is one, the state where it was asked for, one line for each task
/// that ends, and nothing for one that runs on.
pub proof fn law_reports(command: Option<Command>)
    ensures
        match task_of(command).0 {
            Task::OpenWindow | Task::Foreground(_) => task_of(command).1 == Report::Nothing,
            Task::InitConfig => task_of(command).1 == Report::ConfigPath,
            Task::Status => task_of(command).1 == Report::State,
            Task::Setup => task_of(command).1 matches Report::Words(o) && o.words()
                == "setup complete"@,
            Task::Stop => task_of(command).1 matches Report::Words(o) && o.words()
                == "service stopped"@,
            Task::CleanHosts => task_of(command).1 matches Report::Words(o) && o.words()
                == "hosts cleaned"@,
            Task::ApplyHosts => task_of(command).1 matches Report::Words(o) && o.words()
                == "hosts applied"@,
            Task::UninstallCertificate => task_of(command).1 matches Report::Words(o) && o.words()
                == "certificate removed"@,
            Task::Cleanup => task_of(command).1 matches Report::Words(o) && o.words()
                == "cleanup complete"@,
            Task::HelperStart => task_of(command).1 matches Report::Words(o) && o.words()
                == "service started"@,
        },
{
}

/// What stands in front of the path of the configuration.
pub proof fn law_config_ready()
    ensures
        CONFIG_READY@ == "config ready: "@,
{
}

} // verus!
