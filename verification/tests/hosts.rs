use linuxdo_accelerator::config::AppConfig;
use linuxdo_accelerator::dns_hosts::DnsHosts;
use linuxdo_accelerator::hosts::{
    apply_hosts, detect_newline, hosts_path, remove_hosts, render_managed_hosts,
    strip_managed_block, FileChange,
};
use linuxdo_accelerator::platform::Os;

fn config(domains: &[&str]) -> AppConfig {
    AppConfig {
        listen_host: "127.211.73.84".to_string(),
        hosts_ip: "127.211.73.84".to_string(),
        http_port: 80,
        https_port: 443,
        upstream: "https://linux.do".to_string(),
        fake_sni: None,
        doh_endpoints: Vec::new(),
        dns_hosts: DnsHosts::new(),
        proxy_domains: Vec::new(),
        hosts_domains: domains.iter().map(|d| d.to_string()).collect(),
        certificate_domains: Vec::new(),
        ca_common_name: String::new(),
        server_common_name: String::new(),
    }
}

const BLOCK: &str = "# >>> linuxdo-accelerator >>>\n127.211.73.84 linux.do\n127.211.73.84 www.linux.do\n# <<< linuxdo-accelerator <<<\n";

#[test]
fn block_goes_behind_what_was_there() {
    let hosts = config(&["linux.do", "*.linux.do", "www.linux.do"]);
    let rendered = render_managed_hosts("127.0.0.1 localhost", &hosts);
    assert_eq!(rendered, format!("127.0.0.1 localhost\n{BLOCK}"));
    assert_eq!(render_managed_hosts("", &hosts), BLOCK);
}

#[test]
fn applying_twice_is_applying_once() {
    let hosts = config(&["linux.do", "www.linux.do"]);
    let once = render_managed_hosts("127.0.0.1 localhost\n", &hosts);
    assert_eq!(render_managed_hosts(&once, &hosts), once);
}

#[test]
fn second_configuration_replaces_the_first() {
    let first = render_managed_hosts("127.0.0.1 localhost\n", &config(&["a", "b"]));
    let second = config(&["linux.do"]);
    assert_eq!(
        render_managed_hosts(&first, &second),
        render_managed_hosts("127.0.0.1 localhost\n", &second)
    );
}

#[test]
fn removing_undoes_applying() {
    let hosts = config(&["linux.do"]);
    let original = "127.0.0.1 localhost\n::1 localhost";
    assert_eq!(strip_managed_block(&render_managed_hosts(original, &hosts)), original);
}

#[test]
fn trailing_blank_lines_go_one_at_a_time() {
    let hosts = config(&["linux.do"]);
    let original = "a\n\n\n";
    assert_eq!(strip_managed_block(original), "a\n\n");
    let once = render_managed_hosts(original, &hosts);
    assert_ne!(render_managed_hosts(&once, &hosts), once);
}

#[test]
fn line_ends_are_kept() {
    let hosts = config(&["linux.do"]);
    let rendered = render_managed_hosts("127.0.0.1 localhost\r\n", &hosts);
    assert_eq!(
        rendered,
        "127.0.0.1 localhost\r\n# >>> linuxdo-accelerator >>>\r\n127.211.73.84 linux.do\r\n# <<< linuxdo-accelerator <<<\r\n"
    );
    assert_eq!(detect_newline("a\r\nb\n"), "\r\n");
    assert_eq!(detect_newline("a\n"), "\n");
}

#[test]
fn blocks_are_taken_out_wherever_they_stand() {
    let text = "a\n  # >>> linuxdo-accelerator >>>  \nb\n# <<< linuxdo-accelerator <<<\nc\n# >>> linuxdo-accelerator >>>\nd";
    assert_eq!(strip_managed_block(text), "a\nc");
    assert_eq!(strip_managed_block("# <<< linuxdo-accelerator <<<\nx"), "x");
    assert_eq!(strip_managed_block(""), "");
}

#[test]
fn files_are_those_of_the_system() {
    assert_eq!(hosts_path(Os::Linux), "/etc/hosts");
    assert_eq!(hosts_path(Os::MacOs), "/etc/hosts");
    assert_eq!(hosts_path(Os::Windows), "C:\\Windows\\System32\\drivers\\etc\\hosts");
    assert_eq!(hosts_path(Os::Android), "/system/etc/hosts");
}

#[test]
fn changes_name_file_and_text() {
    let hosts = config(&["linux.do", "www.linux.do"]);
    match apply_hosts(Os::Linux, "", &hosts, "/run") {
        FileChange::Write(path, text) => {
            assert_eq!(path, "/etc/hosts");
            assert_eq!(text, BLOCK);
        }
        FileChange::Remove(_) => panic!("nothing is removed"),
    }
    match remove_hosts(Os::Linux, BLOCK, "/run") {
        FileChange::Write(path, text) => {
            assert_eq!(path, "/etc/hosts");
            assert_eq!(text, "");
        }
        FileChange::Remove(_) => panic!("nothing is removed"),
    }
    match apply_hosts(Os::Android, "x", &hosts, "/data/runtime") {
        FileChange::Write(path, text) => {
            assert_eq!(path, "/data/runtime/android-dns-hosts.txt");
            assert_eq!(
                text,
                "android uses internal dns_hosts overrides; system hosts is not touched\n"
            );
        }
        FileChange::Remove(_) => panic!("nothing is removed"),
    }
    match remove_hosts(Os::Android, "x", "/data/runtime") {
        FileChange::Remove(path) => assert_eq!(path, "/data/runtime/android-dns-hosts.txt"),
        FileChange::Write(_, _) => panic!("nothing is written"),
    }
}
