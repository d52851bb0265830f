use linuxdo_accelerator::config::AppConfig;
use linuxdo_accelerator::dns_hosts::DnsHosts;
use linuxdo_accelerator::platform::{
    check_command, check_elevated_run, check_pkexec, command, elevation_probe, ensure_elevated,
    ensure_loopback_alias, is_elevated, is_process_running, judge_pkexec_probe, judge_probe,
    judge_process_list, needs_privilege, original_uid, original_user_home_dir, pkexec_probe,
    process_list_probe, process_probe, remove_loopback_alias, run_elevated, spawn_detached,
    sync_user_ownership, terminate_process, CommandLine, CommandOutput, Liveness, Os,
};

fn config(http_port: u16, https_port: u16) -> AppConfig {
    AppConfig {
        listen_host: String::new(),
        hosts_ip: String::new(),
        http_port,
        https_port,
        upstream: String::new(),
        fake_sni: None,
        doh_endpoints: Vec::new(),
        dns_hosts: DnsHosts::new(),
        proxy_domains: Vec::new(),
        hosts_domains: Vec::new(),
        certificate_domains: Vec::new(),
        ca_common_name: String::new(),
        server_common_name: String::new(),
    }
}

fn output(success: bool, stdout: &str, stderr: &str) -> CommandOutput {
    CommandOutput { success, stdout: stdout.to_string(), stderr: stderr.to_string() }
}

fn line(command: &CommandLine) -> Vec<&str> {
    let mut words = vec![command.program.as_str()];
    words.extend(command.args.iter().map(|a| a.as_str()));
    words
}

fn args(values: &[&str]) -> Vec<String> {
    values.iter().map(|v| v.to_string()).collect()
}

#[test]
fn low_ports_need_rights() {
    assert!(needs_privilege(&config(80, 8443), false));
    assert!(needs_privilege(&config(8080, 1023), false));
    assert!(!needs_privilege(&config(1024, 1024), false));
    assert!(needs_privilege(&config(8080, 8443), true));
    assert_eq!(ensure_elevated(&config(8080, 8443), false, false), Ok(()));
    assert_eq!(ensure_elevated(&config(80, 443), true, true), Ok(()));
    assert_eq!(
        ensure_elevated(&config(80, 443), false, false),
        Err("this command requires administrator/root privileges".to_string())
    );
}

#[test]
fn rights_are_probed() {
    assert_eq!(line(&elevation_probe(Os::Linux)), vec!["id", "-u"]);
    assert_eq!(line(&elevation_probe(Os::Windows)), vec!["fltmc"]);
    assert!(is_elevated(Os::Linux, &Some(output(true, "0\n", ""))));
    assert!(!is_elevated(Os::Linux, &Some(output(true, "1000\n", ""))));
    assert!(!is_elevated(Os::MacOs, &None));
    assert!(is_elevated(Os::Windows, &Some(output(true, "", ""))));
    assert!(!is_elevated(Os::Windows, &Some(output(false, "0", ""))));
}

#[test]
fn programs_are_started_with_more_rights() {
    let arguments = args(&["--config", "it's", "helper-start"]);
    assert_eq!(
        line(&run_elevated(Os::Windows, "C:\\x.exe", &arguments)),
        vec![
            "powershell",
            "-NoProfile",
            "-Command",
            "Start-Process -FilePath 'C:\\x.exe' -ArgumentList @('--config','it''s','helper-start') -Verb RunAs -Wait",
        ]
    );
    assert_eq!(
        line(&run_elevated(Os::Windows, "x", &Vec::new()))[3],
        "Start-Process -FilePath 'x' -ArgumentList @() -Verb RunAs -Wait"
    );
    assert_eq!(
        line(&run_elevated(Os::MacOs, "/x", &args(&["a\"b"]))),
        vec![
            "osascript",
            "-e",
            "do shell script \"'/x' 'a\\\"b'\" with administrator privileges",
        ]
    );
    assert_eq!(
        line(&run_elevated(Os::Linux, "/x", &arguments)),
        vec!["pkexec", "/x", "--config", "it's", "helper-start"]
    );
    assert_eq!(line(&run_elevated(Os::Other, "/x", &Vec::new())), vec!["pkexec", "/x"]);
}

#[test]
fn refusals_are_put_into_words() {
    assert_eq!(check_pkexec(&output(true, "a", "b")), Ok(()));
    assert_eq!(check_pkexec(&output(false, " a ", " b ")), Err("b".to_string()));
    assert_eq!(check_pkexec(&output(false, " a ", "  ")), Err("a".to_string()));
    assert_eq!(
        check_pkexec(&output(false, "", "")),
        Err("pkexec rejected the elevation request".to_string())
    );
    assert_eq!(check_command("kill", &output(true, "", "x")), Ok(()));
    assert_eq!(
        check_command("kill", &output(false, "", " no such process\n")),
        Err("kill failed: no such process".to_string())
    );
}

#[test]
fn processes_are_started_and_ended() {
    let arguments = args(&["daemon"]);
    assert_eq!(line(&spawn_detached(Os::Linux, "/x", &arguments)), vec!["setsid", "/x", "daemon"]);
    assert_eq!(line(&spawn_detached(Os::MacOs, "/x", &arguments)), vec!["/x", "daemon"]);
    assert_eq!(line(&terminate_process(Os::Linux, 12)), vec!["kill", "-TERM", "12"]);
    assert_eq!(
        line(&terminate_process(Os::Windows, 12)),
        vec!["taskkill", "/PID", "12", "/T", "/F"]
    );
    assert_eq!(line(&command("a", args(&["b"]))), vec!["a", "b"]);
}

#[test]
fn processes_are_probed() {
    assert_eq!(line(&process_probe(Os::Linux, 7)), vec!["kill", "-0", "7"]);
    assert_eq!(
        line(&process_probe(Os::Windows, 7)),
        vec!["cmd", "/C", "tasklist /FI \"PID eq 7\""]
    );
    assert_eq!(line(&process_list_probe(7)), vec!["ps", "-p", "7", "-o", "pid="]);
}

#[test]
fn probes_are_judged() {
    assert_eq!(judge_probe(Os::Linux, 7, &Some(output(true, "", ""))), Liveness::Running);
    assert_eq!(
        judge_probe(Os::Linux, 7, &Some(output(false, "", "kill: Operation not permitted"))),
        Liveness::Running
    );
    assert_eq!(
        judge_probe(Os::Linux, 7, &Some(output(false, "", "No such process"))),
        Liveness::Unclear
    );
    assert_eq!(judge_probe(Os::Linux, 7, &None), Liveness::Gone);
    let list = output(true, "Image PID\r\nx.exe 1712 Console\r\n", "");
    assert_eq!(judge_probe(Os::Windows, 71, &Some(list)), Liveness::Running);
    let empty = output(true, "INFO: No tasks\n", "");
    assert_eq!(judge_probe(Os::Windows, 71, &Some(empty)), Liveness::Gone);
    assert!(judge_process_list(&Some(output(true, " 7\n", ""))));
    assert!(!judge_process_list(&Some(output(true, " \n", ""))));
    assert!(!judge_process_list(&Some(output(false, "7", ""))));
    assert!(!judge_process_list(&None));
    let unclear = Some(output(false, "", ""));
    assert!(is_process_running(Os::Linux, 7, &unclear, &Some(output(true, "7", ""))));
    assert!(!is_process_running(Os::Linux, 7, &unclear, &None));
    assert!(!is_process_running(Os::Linux, 7, &None, &Some(output(true, "7", ""))));
    assert!(is_process_running(Os::Linux, 7, &Some(output(true, "", "")), &None));
}

#[test]
fn user_behind_the_administrator_is_found() {
    let text = |s: &str| Some(s.to_string());
    assert_eq!(original_uid(&text("1000"), &text("1001")), Some(1000));
    assert_eq!(original_uid(&None, &text("1001")), Some(1001));
    assert_eq!(original_uid(&text("x"), &text("1001")), None);
    assert_eq!(original_uid(&None, &None), None);
    assert_eq!(original_user_home_dir(text("/home/a"), text("/root")), text("/home/a"));
    assert_eq!(original_user_home_dir(None, text("/root")), text("/root"));
    assert_eq!(original_user_home_dir(None, None), None);
}

#[test]
fn files_are_handed_over_on_linux() {
    let owner = Some((1000, 100));
    assert_eq!(sync_user_ownership(Os::Linux, true, owner, true), owner);
    assert_eq!(sync_user_ownership(Os::Linux, false, owner, true), None);
    assert_eq!(sync_user_ownership(Os::Linux, true, owner, false), None);
    assert_eq!(sync_user_ownership(Os::Linux, true, None, true), None);
    assert_eq!(sync_user_ownership(Os::MacOs, true, owner, true), None);
}

#[test]
fn pkexec_has_to_be_there() {
    assert_eq!(line(&pkexec_probe(Os::Linux).unwrap()), vec!["pkexec", "--version"]);
    assert!(pkexec_probe(Os::Windows).is_none());
    assert!(pkexec_probe(Os::MacOs).is_none());
    assert_eq!(judge_pkexec_probe(Os::Linux, &Some(output(true, "", ""))), Ok(()));
    let missing = Err("pkexec is required on Linux for GUI elevation prompts".to_string());
    assert_eq!(judge_pkexec_probe(Os::Linux, &Some(output(false, "", ""))), missing);
    assert_eq!(judge_pkexec_probe(Os::Linux, &None), missing);
    assert_eq!(judge_pkexec_probe(Os::MacOs, &None), Ok(()));
}

#[test]
fn elevated_runs_are_judged_by_their_tool() {
    assert_eq!(check_elevated_run(Os::Windows, &output(true, "", "")), Ok(()));
    assert_eq!(
        check_elevated_run(Os::Windows, &output(false, "a", " b ")),
        Err("powershell failed: b".to_string())
    );
    assert_eq!(
        check_elevated_run(Os::MacOs, &output(false, "a", " b ")),
        Err("osascript failed: b".to_string())
    );
    assert_eq!(
        check_elevated_run(Os::Linux, &output(false, "a", "")),
        Err("a".to_string())
    );
}

#[test]
fn macos_needs_the_loopback_address() {
    let mut settings = config(80, 443);
    settings.listen_host = "127.211.73.84".to_string();
    assert_eq!(
        line(&ensure_loopback_alias(Os::MacOs, &settings).unwrap()),
        vec!["ifconfig", "lo0", "alias", "127.211.73.84", "up"]
    );
    assert_eq!(
        line(&remove_loopback_alias(Os::MacOs, &settings).unwrap()),
        vec!["ifconfig", "lo0", "-alias", "127.211.73.84"]
    );
    assert!(ensure_loopback_alias(Os::Linux, &settings).is_none());
    assert!(remove_loopback_alias(Os::Windows, &settings).is_none());
}
