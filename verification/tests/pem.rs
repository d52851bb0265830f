use linuxdo_accelerator::pem::{
    certificate_chain, load_certificates, load_private_key, private_key, CertificateError, KeyKind,
};

fn section(label: &str, body: &str) -> String {
    format!("-----BEGIN {label}-----\n{body}\n-----END {label}-----\n")
}

#[test]
fn certificates_are_read_in_order() {
    let text = format!(
        "a remark\n{}{}{}",
        section("CERTIFICATE", "AQID"),
        section("PRIVATE KEY", "CQ=="),
        section("CERTIFICATE", "BAUG")
    );
    assert_eq!(
        load_certificates(text.as_bytes()).unwrap(),
        vec![vec![1, 2, 3], vec![4, 5, 6]]
    );
    assert!(load_certificates(b"").unwrap().is_empty());
}

#[test]
fn broken_certificates_are_refused() {
    let text = section("CERTIFICATE", "AQID") + "-----BEGIN CERTIFICATE-----\nAQID\n";
    let error = load_certificates(text.as_bytes()).unwrap_err();
    assert_eq!(error.message(), "failed to load certificate chain");
    assert_eq!(error.cause(), Some("section end \"CERTIFICATE\" missing".to_string()));
}

#[test]
fn the_first_key_is_taken() {
    for (label, kind) in [
        ("RSA PRIVATE KEY", KeyKind::Pkcs1),
        ("PRIVATE KEY", KeyKind::Pkcs8),
        ("EC PRIVATE KEY", KeyKind::Sec1),
    ] {
        let text = section("CERTIFICATE", "BAUG")
            + &section(label, "AQID")
            + &section("PRIVATE KEY", "BAUG");
        assert_eq!(load_private_key(text.as_bytes(), "k").unwrap(), (kind, vec![1, 2, 3]));
    }
}

#[test]
fn a_file_without_a_key_is_refused() {
    let text = section("CERTIFICATE", "BAUG");
    let error = load_private_key(text.as_bytes(), "/c/server.key").unwrap_err();
    assert_eq!(error.message(), "private key not found in /c/server.key");
    assert_eq!(error.cause(), None);
}

#[test]
fn a_broken_key_is_refused() {
    let text = section("PRIVATE KEY", "?");
    let error = load_private_key(text.as_bytes(), "k").unwrap_err();
    assert_eq!(error.message(), "failed to parse private key");
    assert_eq!(error.cause(), Some("InvalidCharacter(63)".to_string()));
}

#[test]
fn outcomes_of_parsing_are_told_apart() {
    assert_eq!(certificate_chain(Ok(vec![vec![7]])).unwrap(), vec![vec![7]]);
    match certificate_chain(Err("why".to_string())) {
        Err(CertificateError::Chain(why)) => assert_eq!(why, "why"),
        other => panic!("{other:?}"),
    }
    let found = Ok(Some((KeyKind::Sec1, vec![7])));
    assert_eq!(private_key(found, "k").unwrap(), (KeyKind::Sec1, vec![7]));
    match private_key(Ok(None), "k") {
        Err(CertificateError::NoKey(path)) => assert_eq!(path, "k"),
        other => panic!("{other:?}"),
    }
    match private_key(Err("why".to_string()), "k") {
        Err(CertificateError::Key(why)) => assert_eq!(why, "why"),
        other => panic!("{other:?}"),
    }
}
