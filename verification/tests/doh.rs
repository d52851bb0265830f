use linuxdo_accelerator::doh::{
    accept_reply, collect_addresses, doh_query, https_bindings, resolve_https_binding, DohAnswer,
    DohStep, IpAddress, Ipv4Answer, Ipv6Answer,
};

fn answer(record_type: u16, data: &str) -> DohAnswer {
    DohAnswer { record_type, data: data.to_string() }
}

#[test]
fn endpoints_are_asked_in_order() {
    let endpoints = vec!["a".to_string(), "b".to_string()];
    let mut failures = Vec::new();
    assert!(matches!(doh_query(&endpoints, &failures), DohStep::Ask(0)));
    failures.push("first".to_string());
    assert!(matches!(doh_query(&endpoints, &failures), DohStep::Ask(1)));
    failures.push("second".to_string());
    match doh_query(&endpoints, &failures) {
        DohStep::Fail(error) => assert_eq!(error, "second"),
        DohStep::Ask(_) => panic!("there is no third endpoint"),
    }
}

#[test]
fn without_endpoints_the_query_fails() {
    match doh_query(&Vec::new(), &Vec::new()) {
        DohStep::Fail(error) => assert_eq!(error, "no DoH endpoint available"),
        DohStep::Ask(_) => panic!("there is no endpoint"),
    }
}

#[test]
fn the_first_endpoint_that_answers_counts() {
    let endpoints = vec!["a".to_string(), "b".to_string(), "c".to_string()];
    let replies = [Err("refused"), Ok("b answers"), Ok("c answers")];
    let mut failures = Vec::new();
    let mut asked = Vec::new();
    let answer = loop {
        match doh_query(&endpoints, &failures) {
            DohStep::Ask(i) => {
                asked.push(i);
                match replies[i] {
                    Ok(text) => break text,
                    Err(error) => failures.push(error.to_string()),
                }
            }
            DohStep::Fail(error) => panic!("{error}"),
        }
    };
    assert_eq!(answer, "b answers");
    assert_eq!(asked, vec![0, 1]);
}

#[test]
fn replies_are_accepted_by_their_status() {
    assert_eq!(accept_reply(None, None, "A", "h", "e").unwrap().len(), 0);
    let answers = Some(vec![answer(1, "1.2.3.4")]);
    assert_eq!(accept_reply(Some(0), answers, "A", "h", "e").unwrap()[0].data, "1.2.3.4");
    assert_eq!(
        accept_reply(Some(3), None, "AAAA", "linux.do", "https://doh").unwrap_err(),
        "DoH query AAAA linux.do via https://doh returned status 3"
    );
}

#[test]
fn first_binding_of_lowest_priority_counts() {
    let answers = vec![
        answer(65, "\\# 3 00 02 00"),
        answer(5, "\\# 3 00 00 00"),
        answer(65, "unreadable"),
        answer(65, "\\# 5 00 01 01 61 00"),
        answer(65, "\\# 5 00 01 01 62 00"),
    ];
    assert_eq!(https_bindings(&answers).len(), 3);
    let binding = resolve_https_binding(&answers);
    assert_eq!(binding.priority, 1);
    assert_eq!(binding.target_name, Some("a".to_string()));
}

#[test]
fn without_records_the_binding_says_nothing() {
    let binding = resolve_https_binding(&vec![answer(1, "\\# 3 00 02 00")]);
    assert_eq!(binding.priority, 0);
    assert_eq!(binding.target_name, None);
    assert_eq!(binding.ech_config_list, None);
}

#[test]
fn addresses_of_the_newer_protocol_come_first() {
    let six = vec![
        Ipv6Answer { record_type: 28, address: Some(1) },
        Ipv6Answer { record_type: 5, address: Some(2) },
        Ipv6Answer { record_type: 28, address: None },
    ];
    let four = vec![
        Ipv4Answer { record_type: 1, address: Some(7) },
        Ipv4Answer { record_type: 28, address: Some(8) },
    ];
    assert_eq!(collect_addresses(&six, &four), vec![IpAddress::V6(1), IpAddress::V4(7)]);
}
