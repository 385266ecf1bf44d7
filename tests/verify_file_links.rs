use linkcheck::{PathCheck, VerifyFileLinksCommand};

#[test]
fn test_verify_links() {
    let existing_file = "existing_file.md";
    let missing_file = "missing_file.md";

    let paths = vec![existing_file.to_string(), missing_file.to_string()];

    let command = VerifyFileLinksCommand::new(paths);
    let result = command.collect(vec![PathCheck::Found, PathCheck::Missing(vec![])]);

    assert_eq!(result.ok_links.len(), 1);
    assert_eq!(result.broken_links.len(), 1);
    assert!(result.ok_links.contains(&existing_file.to_string()));
}

#[test]
fn readme_typo_scenario() {
    let command = VerifyFileLinksCommand::new(vec![
        "./docs/readme.md".to_string(),
        "./docs/reedme.md".to_string(),
    ]);
    let result = command.collect(vec![
        PathCheck::Found,
        PathCheck::Missing(vec!["./docs/readme.md".to_string()]),
    ]);
    assert_eq!(result.ok_links, vec!["./docs/readme.md".to_string()]);
    assert_eq!(result.broken_links.len(), 1);
    assert_eq!(result.broken_links[0].path, "./docs/reedme.md");
    assert_eq!(result.broken_links[0].suggestions, vec!["./docs/readme.md".to_string()]);
}

#[test]
fn every_path_lands_once() {
    let paths: Vec<String> = (0..7).map(|i| format!("f{}.md", i)).collect();
    let checks: Vec<PathCheck> = (0..7)
        .map(|i| if i % 3 == 0 { PathCheck::Found } else { PathCheck::Missing(vec![]) })
        .collect();
    let result = VerifyFileLinksCommand::new(paths.clone()).collect(checks);
    assert_eq!(result.ok_links.len() + result.broken_links.len(), 7);
    assert_eq!(result.ok_links, vec!["f0.md".to_string(), "f3.md".to_string(), "f6.md".to_string()]);
    let broken: Vec<&str> = result.broken_links.iter().map(|b| b.path.as_str()).collect();
    assert_eq!(broken, vec!["f1.md", "f2.md", "f4.md", "f5.md"]);
}

#[test]
fn no_paths_give_empty_result() {
    let result = VerifyFileLinksCommand::new(vec![]).collect(vec![]);
    assert!(result.ok_links.is_empty());
    assert!(result.broken_links.is_empty());
}

#[test]
fn command_keeps_its_paths() {
    let command = VerifyFileLinksCommand::new(vec!["a".to_string(), "b".to_string()]);
    assert_eq!(command.paths(), &vec!["a".to_string(), "b".to_string()]);
}
