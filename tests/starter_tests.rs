use jump_start::error::JumpStartError;
use jump_start::starter::{get_starter_command, parse_identifier, StarterRef};
use jump_start::types::Starter;
use jump_start::{LocalStarter, RemoteStarter};

#[test]
fn remote_three_segments_use_default_repository() {
    let starter = RemoteStarter::from_path("@kevinschaul/react-d3/Chart").unwrap();
    assert_eq!(starter.github_username, "kevinschaul");
    assert_eq!(starter.github_repo, "jump-start");
    assert_eq!(starter.group, "react-d3");
    assert_eq!(starter.name, "Chart");
}

#[test]
fn remote_four_segments_name_the_repository() {
    let starter = RemoteStarter::from_path("@kevinschaul/starters/react-d3/Chart").unwrap();
    assert_eq!(starter.github_username, "kevinschaul");
    assert_eq!(starter.github_repo, "starters");
    assert_eq!(starter.group, "react-d3");
    assert_eq!(starter.name, "Chart");
}

#[test]
fn remote_other_forms_are_refused() {
    assert!(RemoteStarter::from_path("react-d3/Chart").is_err());
    assert!(RemoteStarter::from_path("@a/b/c/d/e").is_err());
    assert!(RemoteStarter::from_path("").is_err());
    match RemoteStarter::from_path("@kevinschaul/Chart") {
        Err(JumpStartError::InvalidIdentifier(s)) => assert_eq!(s, "@kevinschaul/Chart"),
        other => panic!("unexpected {:?}", other),
    }
}

#[test]
fn remote_new_keeps_fields() {
    let s = RemoteStarter::new("u", "r", "g", "n");
    assert_eq!(
        (s.github_username.as_str(), s.github_repo.as_str(), s.group.as_str(), s.name.as_str()),
        ("u", "r", "g", "n")
    );
}

#[test]
fn local_from_path() {
    let s = LocalStarter::from_path("group/starter").unwrap();
    assert_eq!(s.group, "group");
    assert_eq!(s.name, "starter");
    assert_eq!(s.path, "group/starter");
    assert!(s.config.is_none());
    assert!(LocalStarter::from_path("group").is_none());
    assert!(LocalStarter::from_path("a/b/c").is_none());
    assert!(LocalStarter::from_path("a//b").is_none());
}

#[test]
fn local_new_joins_path() {
    let s = LocalStarter::new("react", "component");
    assert_eq!(s.path, "react/component");
}

#[test]
fn starter_new_and_from_path() {
    let s = Starter::new("g", "n");
    assert_eq!(s.path, "g/n");
    assert!(s.description.is_none() && s.files.is_none());
    assert!(s.default_dir.is_none() && s.main_file.is_none() && s.preview.is_none());
    let p = Starter::from_path("react/component").unwrap();
    assert_eq!(p.group, "react");
    assert_eq!(p.name, "component");
    assert_eq!(p.path, "react/component");
    assert!(Starter::from_path("react").is_none());
}

#[test]
fn identifiers_are_classified() {
    match parse_identifier("@acct/group/name") {
        Ok(Some(StarterRef::Remote(r))) => {
            assert_eq!(r.github_username, "acct");
            assert_eq!(r.github_repo, "jump-start");
        }
        other => panic!("unexpected {:?}", other),
    }
    match parse_identifier("group/name") {
        Ok(Some(StarterRef::Local(l))) => assert_eq!(l.path, "group/name"),
        other => panic!("unexpected {:?}", other),
    }
    assert!(matches!(parse_identifier("just-a-name"), Ok(None)));
    match parse_identifier("@acct/name") {
        Err(JumpStartError::InvalidIdentifier(s)) => assert_eq!(s, "@acct/name"),
        other => panic!("unexpected {:?}", other),
    }
}

#[test]
fn starter_commands() {
    let s = LocalStarter::new("react", "component");
    assert_eq!(
        get_starter_command(&s, "user", "repo", "true"),
        "npx degit user/repo#react/component component"
    );
    assert_eq!(
        get_starter_command(&s, "user", "repo", "false"),
        "jump-start add react/component"
    );
    assert_eq!(
        get_starter_command(&s, "user", "repo", "True"),
        "jump-start add react/component"
    );
}

#[test]
fn error_messages_name_the_input() {
    assert_eq!(
        JumpStartError::InvalidIdentifier("@x".to_string()).message(),
        "Could not parse remote starter from string '@x'"
    );
    assert_eq!(
        JumpStartError::DownloadFailed("https://h/a".to_string()).message(),
        "Failed to download tar: https://h/a"
    );
}
