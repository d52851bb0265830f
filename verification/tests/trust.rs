use linuxdo_accelerator::platform::Os;
use linuxdo_accelerator::trust::{
    install_ca, installation_steps, linux_trust_store, next_step, uninstall_ca, InstallKnown,
    InstallNext, PlanNext, TrustFacts, TrustStep, TrustStore,
};

fn facts(os: Os) -> TrustFacts {
    TrustFacts {
        os,
        store: None,
        nss_dir: None,
        nss_present: false,
        nss_filled: false,
        certutil: false,
        profiles: Ok(Vec::new()),
    }
}

fn words(steps: &[TrustStep]) -> Vec<String> {
    steps
        .iter()
        .map(|step| match step {
            TrustStep::Run(c) => format!("run {} {}", c.program, c.args.join(" ")),
            TrustStep::Attempt(c) => format!("try {} {}", c.program, c.args.join(" ")),
            TrustStep::CreateDir(d) => format!("mkdir {d}"),
            TrustStep::Copy(a, b) => format!("copy {a} {b}"),
            TrustStep::Remove(f) => format!("remove {f}"),
            TrustStep::HandOver(d) => format!("own {d}"),
            TrustStep::Fail(e) => format!("fail {e}"),
        })
        .collect()
}

#[test]
fn stores_are_told_apart() {
    assert_eq!(linux_trust_store(true, true), Some(TrustStore::Debian));
    assert_eq!(linux_trust_store(false, true), Some(TrustStore::Fedora));
    assert_eq!(linux_trust_store(false, false), None);
    assert_eq!(
        TrustStore::Debian.path(),
        "/usr/local/share/ca-certificates/linuxdo-accelerator-root-ca.crt"
    );
    assert_eq!(
        TrustStore::Fedora.path(),
        "/etc/pki/ca-trust/source/anchors/linuxdo-accelerator-root-ca.crt"
    );
}

#[test]
fn windows_and_macos_take_one_command() {
    assert_eq!(
        words(&installation_steps(&facts(Os::Windows), "ca.crt", "Root CA")),
        vec!["run certutil -f -addstore Root ca.crt"]
    );
    assert_eq!(
        words(&uninstall_ca(&facts(Os::Windows), "Root CA")),
        vec!["run certutil -delstore Root Root CA"]
    );
    assert_eq!(
        words(&installation_steps(&facts(Os::MacOs), "ca.crt", "Root CA")),
        vec![
            "run security add-trusted-cert -d -r trustRoot -k /Library/Keychains/System.keychain ca.crt"
        ]
    );
    assert_eq!(
        words(&uninstall_ca(&facts(Os::MacOs), "Root CA")),
        vec!["run security delete-certificate -c Root CA /Library/Keychains/System.keychain"]
    );
}

#[test]
fn linux_needs_a_store() {
    assert_eq!(
        words(&installation_steps(&facts(Os::Linux), "ca.crt", "Root CA")),
        ["fail unsupported Linux trust store layout"]
    );
    assert!(uninstall_ca(&facts(Os::Linux), "Root CA").is_empty());
}

#[test]
fn linux_fills_store_and_databases() {
    let mut machine = facts(Os::Linux);
    machine.store = Some(TrustStore::Fedora);
    machine.nss_dir = Some("/home/a/.pki/nssdb".to_string());
    machine.certutil = true;
    machine.profiles = Ok(vec!["/home/a/p".to_string()]);
    assert_eq!(
        words(&installation_steps(&machine, "ca.crt", "Root")),
        vec![
            "mkdir /etc/pki/ca-trust/source/anchors",
            "copy ca.crt /etc/pki/ca-trust/source/anchors/linuxdo-accelerator-root-ca.crt",
            "run update-ca-trust extract",
            "mkdir /home/a/.pki/nssdb",
            "run certutil -d sql:/home/a/.pki/nssdb -N --empty-password",
            "try certutil -d sql:/home/a/.pki/nssdb -D -n Root",
            "run certutil -d sql:/home/a/.pki/nssdb -A -t C,, -n Root -i ca.crt",
            "own /home/a/.pki/nssdb",
            "try certutil -d sql:/home/a/p -D -n Root",
            "run certutil -d sql:/home/a/p -A -t C,, -n Root -i ca.crt",
            "own /home/a/p",
        ]
    );
}

#[test]
fn linux_empties_store_and_databases() {
    let mut machine = facts(Os::Linux);
    machine.store = Some(TrustStore::Debian);
    machine.nss_dir = Some("/n".to_string());
    machine.nss_present = true;
    machine.certutil = true;
    machine.profiles = Ok(vec!["/p".to_string(), "/q".to_string()]);
    assert_eq!(
        words(&uninstall_ca(&machine, "Root")),
        vec![
            "remove /usr/local/share/ca-certificates/linuxdo-accelerator-root-ca.crt",
            "run update-ca-certificates ",
            "try certutil -d sql:/n -D -n Root",
            "own /n",
            "try certutil -d sql:/p -D -n Root",
            "own /p",
            "try certutil -d sql:/q -D -n Root",
            "own /q",
        ]
    );
    machine.certutil = false;
    assert_eq!(uninstall_ca(&machine, "Root").len(), 2);
    assert_eq!(words(&installation_steps(&machine, "c", "Root"))[3..], ["mkdir /n"]);
}

#[test]
fn other_systems_take_the_store_alone() {
    let mut machine = facts(Os::Other);
    machine.store = Some(TrustStore::Debian);
    machine.nss_dir = Some("/n".to_string());
    machine.nss_present = true;
    machine.certutil = true;
    assert_eq!(uninstall_ca(&machine, "Root").len(), 2);
    assert_eq!(installation_steps(&machine, "c", "Root").len(), 3);
}

/// Goes through an installation in which the steps whose words begin with one
/// of `failing` fail.
fn install(
    before: TrustFacts,
    after: TrustFacts,
    failing: &[&str],
) -> (Vec<String>, Result<(), String>) {
    let mut known = InstallKnown {
        before: None,
        removals: Vec::new(),
        after: None,
        installs: Vec::new(),
    };
    let (mut before, mut after) = (Some(before), Some(after));
    let mut seen = Vec::new();
    loop {
        let outcome = |step: TrustStep, seen: &mut Vec<String>| {
            let text = words(&[step])[0].clone();
            seen.push(text.clone());
            failing.iter().any(|start| text.starts_with(start)).then_some(format!("{text}!"))
        };
        match install_ca(&known, "ca.crt", "Root") {
            InstallNext::LookBefore => known.before = before.take(),
            InstallNext::LookAfter => {
                seen.push("look".to_string());
                known.after = after.take();
            }
            InstallNext::Remove(step) => known.removals.push(outcome(step, &mut seen)),
            InstallNext::Install(step) => known.installs.push(outcome(step, &mut seen)),
            InstallNext::Finished => return (seen, Ok(())),
            InstallNext::Failed(error) => return (seen, Err(error)),
        }
    }
}

const WINDOWS_ADD: &str = "run certutil -f -addstore Root ca.crt";
const WINDOWS_DELETE: &str = "run certutil -delstore Root Root";

#[test]
fn an_older_certificate_is_removed_first() {
    let (seen, end) = install(facts(Os::Windows), facts(Os::Windows), &[]);
    assert_eq!(seen, [WINDOWS_DELETE, "look", WINDOWS_ADD]);
    assert_eq!(end, Ok(()));
    let (seen, end) = install(facts(Os::Windows), facts(Os::Windows), &[WINDOWS_DELETE]);
    assert_eq!(seen, [WINDOWS_DELETE, "look", WINDOWS_ADD]);
    assert_eq!(end, Ok(()));
    let (seen, end) = install(facts(Os::Windows), facts(Os::Windows), &[WINDOWS_ADD]);
    assert_eq!(seen, [WINDOWS_DELETE, "look", WINDOWS_ADD]);
    assert_eq!(end, Err(format!("{WINDOWS_ADD}!")));
}

#[test]
fn a_failed_removal_is_not_gone_on_with() {
    let machine = || TrustFacts {
        store: Some(TrustStore::Debian),
        nss_dir: Some("/n".to_string()),
        nss_present: true,
        nss_filled: true,
        certutil: true,
        ..facts(Os::Linux)
    };
    let (seen, end) = install(machine(), machine(), &["run update-ca-certificates", "try"]);
    assert_eq!(
        seen[..3],
        [
            "remove /usr/local/share/ca-certificates/linuxdo-accelerator-root-ca.crt",
            "run update-ca-certificates ",
            "look",
        ]
    );
    assert_eq!(end, Err("run update-ca-certificates !".to_string()));
    let (seen, end) = install(machine(), machine(), &["try"]);
    assert_eq!(seen.iter().filter(|step| step.starts_with("try")).count(), 2);
    assert_eq!(seen.last().unwrap(), "own /n");
    assert_eq!(end, Ok(()));
}

#[test]
fn without_a_store_nothing_is_installed() {
    let (seen, end) = install(facts(Os::Linux), facts(Os::Linux), &[]);
    assert_eq!(seen, ["look"]);
    assert_eq!(end, Err("unsupported Linux trust store layout".to_string()));
}

#[test]
fn unreadable_profiles_fail_after_the_store() {
    let machine = || TrustFacts {
        store: Some(TrustStore::Fedora),
        profiles: Err("failed to read /home/a/.mozilla/firefox".to_string()),
        ..facts(Os::Linux)
    };
    assert_eq!(
        words(&uninstall_ca(&machine(), "Root")),
        [
            "remove /etc/pki/ca-trust/source/anchors/linuxdo-accelerator-root-ca.crt",
            "run update-ca-trust extract",
            "fail failed to read /home/a/.mozilla/firefox",
        ]
    );
    let (seen, end) = install(machine(), machine(), &[]);
    assert_eq!(seen.len(), 6);
    assert_eq!(seen[5], "run update-ca-trust extract");
    assert_eq!(end, Err("failed to read /home/a/.mozilla/firefox".to_string()));
    match next_step(uninstall_ca(&machine(), "Root"), &vec![None, None]) {
        PlanNext::Failed(error) => assert_eq!(error, "failed to read /home/a/.mozilla/firefox"),
        other => panic!("{other:?}"),
    }
}
