use linuxdo_accelerator::cli::{run, Cli, Command, Outcome, Report, Task};

fn task(command: Option<Command>) -> (Task, Report) {
    run(&Cli { config: None, command })
}

#[test]
fn commands_stand_for_tasks() {
    assert_eq!(task(None), (Task::OpenWindow, Report::Nothing));
    assert_eq!(task(Some(Command::Gui)), (Task::OpenWindow, Report::Nothing));
    assert_eq!(task(Some(Command::InitConfig)), (Task::InitConfig, Report::ConfigPath));
    assert_eq!(
        task(Some(Command::Setup)),
        (Task::Setup, Report::Words(Outcome::SetupComplete))
    );
    assert_eq!(task(Some(Command::Run)), (Task::Foreground(false), Report::Nothing));
    assert_eq!(task(Some(Command::Daemon)), (Task::Foreground(false), Report::Nothing));
    assert_eq!(task(Some(Command::Start)), (Task::Foreground(true), Report::Nothing));
    assert_eq!(task(Some(Command::Stop)), (Task::Stop, Report::Words(Outcome::ServiceStopped)));
    assert_eq!(task(Some(Command::HelperStop)), task(Some(Command::Stop)));
    assert_eq!(task(Some(Command::Status)), (Task::Status, Report::State));
    assert_eq!(
        task(Some(Command::CleanHosts)),
        (Task::CleanHosts, Report::Words(Outcome::HostsCleaned))
    );
    assert_eq!(
        task(Some(Command::ApplyHosts)),
        (Task::ApplyHosts, Report::Words(Outcome::HostsApplied))
    );
    assert_eq!(
        task(Some(Command::UninstallCert)),
        (Task::UninstallCertificate, Report::Words(Outcome::CertificateRemoved))
    );
    assert_eq!(
        task(Some(Command::Cleanup)),
        (Task::Cleanup, Report::Words(Outcome::CleanupComplete))
    );
    assert_eq!(
        task(Some(Command::HelperStart)),
        (Task::HelperStart, Report::Words(Outcome::ServiceStarted))
    );
}

#[test]
fn outcomes_are_put_into_words() {
    assert_eq!(Outcome::SetupComplete.text(), "setup complete");
    assert_eq!(Outcome::ServiceStopped.text(), "service stopped");
    assert_eq!(Outcome::HostsCleaned.text(), "hosts cleaned");
    assert_eq!(Outcome::HostsApplied.text(), "hosts applied");
    assert_eq!(Outcome::CertificateRemoved.text(), "certificate removed");
    assert_eq!(Outcome::CleanupComplete.text(), "cleanup complete");
    assert_eq!(Outcome::ServiceStarted.text(), "service started");
}
