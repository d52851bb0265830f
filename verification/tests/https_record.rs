use linuxdo_accelerator::https_record::{
    parse_dns_json_hex_rdata, parse_dns_name, parse_ech_config_param, parse_ech_public_name,
    parse_https_answer, read_u16, EchError, RecordError,
};

fn rdata(bytes: &[u8]) -> String {
    let mut text = format!("\\# {}", bytes.len());
    for b in bytes {
        text.push_str(&format!(" {b:02x}"));
    }
    text
}

/// A configuration list with one configuration for the given public name.
fn ech_list(name: &[u8]) -> Vec<u8> {
    let mut contents = vec![7u8, 0, 0x20, 0, 32];
    contents.extend([9u8; 32]);
    contents.extend([0, 4, 0, 1, 0, 1]);
    contents.push(64);
    contents.push(name.len() as u8);
    contents.extend(name);
    contents.extend([0, 0]);
    let mut config = vec![0xfe, 0x0d, 0, contents.len() as u8];
    config.extend(contents);
    let mut list = vec![0, config.len() as u8];
    list.extend(config);
    list
}

#[test]
fn generic_notation_is_read() {
    assert_eq!(parse_dns_json_hex_rdata(" \\# 3 00 Ff 1 \n").unwrap(), vec![0, 255, 1]);
    assert_eq!(parse_dns_json_hex_rdata("\\#0").unwrap(), Vec::<u8>::new());
    assert_eq!(parse_dns_json_hex_rdata("\\# +1 +a").unwrap(), vec![10]);
}

#[test]
fn generic_notation_is_checked() {
    let message = |text: &str| parse_dns_json_hex_rdata(text).unwrap_err().message();
    assert_eq!(message(" 1 linux.do. "), "unexpected HTTPS RR format: 1 linux.do.");
    assert_eq!(message("\\#  "), "missing HTTPS RR byte length");
    assert_eq!(message("\\# x 00"), "invalid HTTPS RR byte length");
    assert_eq!(message("\\# 1 100"), "invalid HTTPS RR hex byte 100");
    assert_eq!(message("\\# 2 00 zz"), "invalid HTTPS RR hex byte zz");
    assert_eq!(
        message("\\# 2 00"),
        "HTTPS RR length mismatch, expected 2 bytes, got 1"
    );
    assert_eq!(
        message("\\# 18446744073709551615 00"),
        "HTTPS RR length mismatch, expected 18446744073709551615 bytes, got 1"
    );
    assert_eq!(message("\\# 18446744073709551616 00"), "invalid HTTPS RR byte length");
}

#[test]
fn names_are_read() {
    assert_eq!(parse_dns_name(&[0, 9]).unwrap(), (String::new(), 1));
    assert_eq!(
        parse_dns_name(&[5, b'l', b'i', b'n', b'u', b'x', 2, b'd', b'o', 0, 1]).unwrap(),
        ("linux.do".to_string(), 10)
    );
    assert_eq!(parse_dns_name(&[3, 0xe4, 0xb8, 0xad, 0]).unwrap(), ("中".to_string(), 5));
}

#[test]
fn names_are_checked() {
    let message = |data: &[u8]| parse_dns_name(data).unwrap_err().message();
    assert_eq!(message(&[]), "truncated DNS name in HTTPS RR");
    assert_eq!(message(&[1, b'a']), "truncated DNS name in HTTPS RR");
    assert_eq!(message(&[0xc0, 0]), "compressed DNS names are unsupported in HTTPS RR parser");
    assert_eq!(message(&[0x40, 0]), "compressed DNS names are unsupported in HTTPS RR parser");
    assert_eq!(message(&[2, b'a']), "truncated DNS label in HTTPS RR");
    assert_eq!(message(&[1, 0xff, 0]), "invalid UTF-8 label in HTTPS RR");
}

#[test]
fn ech_parameter_has_the_length_that_it_declares() {
    assert_eq!(parse_ech_config_param(&[0, 1, 5]).unwrap(), vec![0, 1, 5]);
    assert_eq!(
        parse_ech_config_param(&[0]).unwrap_err().message(),
        "ECH service parameter is too short"
    );
    assert_eq!(
        parse_ech_config_param(&[1, 0, 5]).unwrap_err().message(),
        "ECH config length mismatch, declared 256, actual 1"
    );
}

#[test]
fn public_name_is_found() {
    assert_eq!(
        parse_ech_public_name(&ech_list(b" cloudflare-ech.com ")),
        Ok("cloudflare-ech.com".to_string())
    );
}

#[test]
fn public_name_errors_are_told_apart() {
    let good = ech_list(b"name");
    assert_eq!(parse_ech_public_name(&[0]), Err(EchError::TruncatedField));
    assert_eq!(parse_ech_public_name(&[0, 3, 1, 2, 3]), Err(EchError::TruncatedList));
    assert_eq!(parse_ech_public_name(&good[..good.len() - 1]), Err(EchError::TruncatedList));
    let mut other = good.clone();
    other[3] = 0x0e;
    assert_eq!(parse_ech_public_name(&other), Err(EchError::UnsupportedVersion(0xfe0e)));
    let mut long = good.clone();
    long[4] = 1;
    assert_eq!(parse_ech_public_name(&long), Err(EchError::TruncatedContents));
    assert_eq!(
        parse_ech_public_name(&[0, 4, 0xfe, 0x0d, 0, 0]),
        Err(EchError::TruncatedField)
    );
    let short = [0, 13, 0xfe, 0x0d, 0, 9, 0, 0, 0, 0, 0, 0, 0, 0, 3];
    assert_eq!(parse_ech_public_name(&short[..14]), Err(EchError::TruncatedList));
    assert_eq!(parse_ech_public_name(&short), Err(EchError::TruncatedName));
    let none = [0, 12, 0xfe, 0x0d, 0, 8, 0, 0, 0, 0, 0, 0, 0, 0];
    assert_eq!(parse_ech_public_name(&none), Err(EchError::MissingNameLength));
    assert_eq!(parse_ech_public_name(&ech_list(&[0xff])), Err(EchError::InvalidName));
    assert_eq!(parse_ech_public_name(&ech_list(b"  ")), Err(EchError::EmptyName));
    assert_eq!(read_u16(&[1, 2, 3], 1), Ok(0x0203));
    assert_eq!(read_u16(&[1, 2, 3], 2), Err(EchError::TruncatedField));
    assert_eq!(read_u16(&[1, 2, 3], usize::MAX), Err(EchError::TruncatedField));
}

#[test]
fn records_are_read() {
    let list = ech_list(b"cloudflare-ech.com");
    let mut bytes = vec![0, 1, 1, b'a', 0];
    bytes.extend([0, 1, 0, 3, 2, b'h', b'2']);
    bytes.extend([0, 5, 0, list.len() as u8]);
    bytes.extend(&list);
    let binding = parse_https_answer(&rdata(&bytes)).unwrap();
    assert_eq!(binding.priority, 1);
    assert_eq!(binding.target_name, Some("a".to_string()));
    assert_eq!(binding.ech_config_list, Some(list));
    assert_eq!(binding.ech_public_name, Some("cloudflare-ech.com".to_string()));
}

#[test]
fn records_without_target_or_ech_are_read() {
    let binding = parse_https_answer("\\# 3 01 02 00").unwrap();
    assert_eq!(binding.priority, 258);
    assert_eq!(binding.target_name, None);
    assert_eq!(binding.ech_config_list, None);
    assert_eq!(binding.ech_public_name, None);
}

#[test]
fn unreadable_public_name_leaves_the_list() {
    let bytes = [0, 1, 0, 0, 5, 0, 3, 0, 1, 9];
    let binding = parse_https_answer(&rdata(&bytes)).unwrap();
    assert_eq!(binding.ech_config_list, Some(vec![0, 1, 9]));
    assert_eq!(binding.ech_public_name, None);
}

#[test]
fn records_are_checked() {
    let error = |bytes: &[u8]| parse_https_answer(&rdata(bytes)).unwrap_err();
    assert!(matches!(error(&[0, 1]), RecordError::TooShort));
    assert_eq!(error(&[0, 1]).message(), "HTTPS RR data is too short");
    assert_eq!(
        error(&[0, 1, 0, 0, 5, 0]).message(),
        "truncated HTTPS RR service parameter header"
    );
    assert_eq!(
        error(&[0, 1, 0, 0, 5, 0, 2, 1]).message(),
        "truncated HTTPS RR service parameter value"
    );
    assert!(matches!(error(&[0, 1, 0, 0, 5, 0, 1, 1]), RecordError::EchTooShort));
    assert!(matches!(error(&[0, 1, 5]), RecordError::TruncatedLabel));
    assert!(parse_https_answer("linux.do").is_err());
}
