use linuxdo_accelerator::paths::{
    join_path, legacy_network_profile_path, resolve_paths, UserDirs,
};
use linuxdo_accelerator::platform::Os;

fn dirs() -> UserDirs {
    UserDirs {
        home: "/home/a".to_string(),
        app_data: "C:\\Users\\a\\AppData\\Roaming".to_string(),
        local_app_data: "C:\\Users\\a\\AppData\\Local".to_string(),
    }
}

#[test]
fn files_are_where_the_system_keeps_them() {
    let linux = resolve_paths(Os::Linux, None, &dirs());
    assert_eq!(
        linux.config_path,
        "/home/a/.config/linuxdo-accelerator/linuxdo-accelerator.toml"
    );
    assert_eq!(linux.runtime_dir, "/home/a/.local/share/linuxdo-accelerator/runtime");
    assert_eq!(linux.cert_dir, "/home/a/.local/share/linuxdo-accelerator/certs");
    assert!(linux.state_path.starts_with(&linux.runtime_dir));
    assert!(linux.pid_path.starts_with(&linux.runtime_dir));
    assert!(linux.runtime_log_path.starts_with(&linux.runtime_dir));
    let windows = resolve_paths(Os::Windows, None, &dirs());
    assert_eq!(
        windows.config_path,
        "C:\\Users\\a\\AppData\\Roaming\\linuxdo\\linuxdo-accelerator\\config\\linuxdo-accelerator.toml"
    );
    assert_eq!(
        windows.runtime_dir,
        "C:\\Users\\a\\AppData\\Local\\linuxdo\\linuxdo-accelerator\\data\\runtime"
    );
    let macos = resolve_paths(Os::MacOs, None, &dirs());
    assert_eq!(
        macos.cert_dir,
        "/home/a/Library/Application Support/io.linuxdo.linuxdo-accelerator/certs"
    );
}

#[test]
fn files_follow_the_configuration() {
    let paths = resolve_paths(Os::Linux, Some("/etc/x/my.toml".to_string()), &dirs());
    assert_eq!(paths.config_path, "/etc/x/my.toml");
    assert_eq!(paths.runtime_dir, "/etc/x/runtime");
    assert_eq!(paths.cert_dir, "/etc/x/certs");
    let bare = resolve_paths(Os::Linux, Some("my.toml".to_string()), &dirs());
    assert_eq!(bare.runtime_dir, "runtime");
    let root = resolve_paths(Os::Linux, Some("/my.toml".to_string()), &dirs());
    assert_eq!(root.cert_dir, "/certs");
    let windows = resolve_paths(Os::Windows, Some("C:\\x/my.toml".to_string()), &dirs());
    assert_eq!(windows.cert_dir, "C:\\x\\certs");
}

#[test]
fn old_file_stands_beside_the_configuration() {
    assert_eq!(
        legacy_network_profile_path(Os::Linux, "/a/linuxdo-accelerator.toml"),
        "/a/linuxdo-network.toml"
    );
    assert_eq!(legacy_network_profile_path(Os::Linux, "x.toml"), "linuxdo-network.toml");
    assert_eq!(join_path(Os::Linux, "/a/", "b"), "/a/b");
}

fn beside(os: Os, path: &str) -> String {
    legacy_network_profile_path(os, path)
}

#[test]
fn separators_and_dots_at_the_end_do_not_count() {
    for path in ["conf", "conf/", "conf//", "conf/.", "conf/./", "", "/", "//", "/.", "/./", "."] {
        assert_eq!(beside(Os::Linux, path), "linuxdo-network.toml", "{path}");
    }
    assert_eq!(beside(Os::Linux, "/conf/"), "/linuxdo-network.toml");
    assert_eq!(beside(Os::Linux, "//conf"), "/linuxdo-network.toml");
    assert_eq!(beside(Os::Linux, "a/conf/."), "a/linuxdo-network.toml");
    assert_eq!(beside(Os::Linux, "a//conf"), "a/linuxdo-network.toml");
    assert_eq!(beside(Os::Linux, "a/./conf"), "a/linuxdo-network.toml");
    assert_eq!(beside(Os::Linux, "./conf"), "./linuxdo-network.toml");
    assert_eq!(beside(Os::Linux, "././conf"), "./linuxdo-network.toml");
    assert_eq!(beside(Os::Linux, "/./conf"), "/linuxdo-network.toml");
    assert_eq!(beside(Os::Linux, "a/.."), "a/linuxdo-network.toml");
    assert_eq!(beside(Os::Linux, "../conf"), "../linuxdo-network.toml");
    assert_eq!(beside(Os::Linux, "a/.conf"), "a/linuxdo-network.toml");
    assert_eq!(beside(Os::Linux, "a\\conf"), "linuxdo-network.toml");
}

#[test]
fn parents_are_those_of_the_standard_library() {
    let parts = ["a", ".", "..", "", "b.", ".c"];
    let mut paths = vec![String::new()];
    for _ in 0..4 {
        let mut longer = Vec::new();
        for path in &paths {
            for part in parts {
                longer.push(format!("{path}{part}"));
                longer.push(format!("{path}/{part}"));
            }
        }
        paths.extend(longer);
    }
    for path in &paths {
        let expected = std::path::Path::new(path)
            .parent()
            .map(|parent| parent.join("linuxdo-network.toml"))
            .unwrap_or_else(|| std::path::PathBuf::from("linuxdo-network.toml"));
        let expected = expected.to_str().unwrap().replace('\\', "/");
        assert_eq!(beside(Os::Linux, path), expected, "{path}");
    }
}

#[test]
fn drives_and_shares_are_no_names() {
    assert_eq!(beside(Os::Windows, "C:my.toml"), "C:linuxdo-network.toml");
    assert_eq!(beside(Os::Windows, "C:\\my.toml"), "C:\\linuxdo-network.toml");
    assert_eq!(beside(Os::Windows, "C:a\\my.toml"), "C:a\\linuxdo-network.toml");
    assert_eq!(beside(Os::Windows, "C:"), "linuxdo-network.toml");
    assert_eq!(beside(Os::Windows, "C:\\"), "linuxdo-network.toml");
    assert_eq!(beside(Os::Windows, "1:my.toml"), "linuxdo-network.toml");
    assert_eq!(beside(Os::Linux, "C:my.toml"), "linuxdo-network.toml");
    assert_eq!(
        beside(Os::Windows, "\\\\host\\share\\my.toml"),
        "\\\\host\\share\\linuxdo-network.toml"
    );
    assert_eq!(beside(Os::Windows, "\\\\host\\share\\"), "linuxdo-network.toml");
    assert_eq!(
        beside(Os::Windows, "\\\\?\\C:\\a/b\\.\\my.toml"),
        "\\\\?\\C:\\a/b\\.\\linuxdo-network.toml"
    );
    assert_eq!(
        beside(Os::Windows, "\\\\?\\UNC\\host\\share\\my.toml"),
        "\\\\?\\UNC\\host\\share\\linuxdo-network.toml"
    );
    assert_eq!(beside(Os::Windows, "\\\\?\\UNC\\host\\share"), "linuxdo-network.toml");
    assert_eq!(beside(Os::Windows, "\\\\?\\UNC\\host\\share\\"), "linuxdo-network.toml");
    assert_eq!(beside(Os::Windows, "\\\\?\\C:"), "linuxdo-network.toml");
    assert_eq!(beside(Os::Windows, "\\\\.\\COM1"), "linuxdo-network.toml");
    assert_eq!(beside(Os::Windows, "\\\\.\\COM1\\x"), "\\\\.\\COM1\\linuxdo-network.toml");
    assert_eq!(join_path(Os::Windows, "\\\\?\\C:\\a/", "x"), "\\\\?\\C:\\a/\\x");
    assert_eq!(join_path(Os::Windows, "C:\\a/", "x"), "C:\\a/x");
    assert_eq!(join_path(Os::Windows, "C:", "x"), "C:x");
    assert_eq!(join_path(Os::Linux, "C:", "x"), "C:/x");
}
