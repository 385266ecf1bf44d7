use linkcheck::{is_success_status, VerifyUrlLinksCommand};

#[test]
fn test_validity_check() {
    let urls = vec![
        "https://www.google.com".to_string(),
        "invalid_url".to_string(),
        "not_a_url_at_all".to_string(),
    ];

    let command = VerifyUrlLinksCommand::new(urls);
    let result = command.partition(&vec![Some(200), None, None]);

    assert_eq!(result.valid_urls.len(), 1);
    assert_eq!(result.invalid_urls.len(), 2);

    assert!(result.valid_urls.contains(&"https://www.google.com".to_string()));
    assert!(result.invalid_urls.contains(&"invalid_url".to_string()));
    assert!(result.invalid_urls.contains(&"not_a_url_at_all".to_string()));
}

#[test]
fn live_and_unresolvable_scenario() {
    let command = VerifyUrlLinksCommand::new(vec![
        "https://example.com".to_string(),
        "https://nonexistent.invalid-tld".to_string(),
    ]);
    let result = command.partition(&vec![Some(200), None]);
    assert_eq!(result.valid_urls, vec!["https://example.com".to_string()]);
    assert_eq!(result.invalid_urls, vec!["https://nonexistent.invalid-tld".to_string()]);
}

#[test]
fn status_classes() {
    assert!(is_success_status(200));
    assert!(is_success_status(204));
    assert!(is_success_status(299));
    assert!(!is_success_status(199));
    assert!(!is_success_status(300));
    assert!(!is_success_status(404));
    assert!(!is_success_status(500));
}

#[test]
fn not_found_and_refused_are_invalid() {
    let command = VerifyUrlLinksCommand::new(vec![
        "http://a/ok".to_string(),
        "http://a/missing".to_string(),
        "http://127.0.0.1:1/".to_string(),
        "http://a/moved".to_string(),
    ]);
    let result = command.partition(&vec![Some(200), Some(404), None, Some(301)]);
    assert_eq!(result.valid_urls, vec!["http://a/ok".to_string()]);
    assert_eq!(
        result.invalid_urls,
        vec!["http://a/missing".to_string(), "http://127.0.0.1:1/".to_string(), "http://a/moved".to_string()]
    );
}

#[test]
fn gathering_order_does_not_change_membership() {
    let urls = ["u1", "u2", "u3", "u4", "u5"];
    let outcomes = [Some(200u16), None, Some(503), Some(204), None];
    let forward = VerifyUrlLinksCommand::new(urls.iter().map(|u| u.to_string()).collect())
        .partition(&outcomes.to_vec());
    let backward = VerifyUrlLinksCommand::new(urls.iter().rev().map(|u| u.to_string()).collect())
        .partition(&outcomes.iter().rev().cloned().collect());
    let mut a = forward.valid_urls.clone();
    let mut b = backward.valid_urls.clone();
    a.sort();
    b.sort();
    assert_eq!(a, b);
    let mut a = forward.invalid_urls.clone();
    let mut b = backward.invalid_urls.clone();
    a.sort();
    b.sort();
    assert_eq!(a, b);
    assert_eq!(forward.valid_urls.len() + forward.invalid_urls.len(), 5);
}

#[test]
fn command_keeps_its_urls() {
    let command = VerifyUrlLinksCommand::new(vec!["https://example.com".to_string()]);
    assert_eq!(command.urls(), &vec!["https://example.com".to_string()]);
}
