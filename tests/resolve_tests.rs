use jump_start::config::{get_default_instance, resolve_instance_path};
use jump_start::error::JumpStartError;
use jump_start::resolve::{
    check_download_status, destination_for, fetch_plan, get_final_dest, join_path, use_starter,
    UsePlan,
};
use jump_start::starter::StarterConfig;
use jump_start::{Config, JumpStartInstance, RemoteStarter};

fn instance(name: &str, path: &str, default: Option<bool>) -> JumpStartInstance {
    JumpStartInstance { name: name.to_string(), path: path.to_string(), default }
}

#[test]
fn test_get_final_dest_explicit() {
    let config_content = "name: test-starter\ndefaultDir: ./default-project";
    let final_dest = get_final_dest("starter", Some("explicit-dest"), Some(config_content)).unwrap();
    assert_eq!(final_dest, "explicit-dest");
}

#[test]
fn test_get_final_dest_from_config() {
    let config_content = "name: test-starter\ndefaultDir: ./default-project";
    let final_dest = get_final_dest("starter", None, Some(config_content)).unwrap();
    assert_eq!(final_dest, "./default-project");
}

#[test]
fn test_get_final_dest_empty_default() {
    let config_content = "name: test-starter\ndefaultDir: \"\"";
    let final_dest = get_final_dest("starter", None, Some(config_content)).unwrap();
    assert_eq!(final_dest, ".");
}

#[test]
fn final_dest_without_descriptor_or_with_a_broken_one() {
    assert_eq!(get_final_dest("starter", None, None).unwrap(), ".");
    assert!(matches!(
        get_final_dest("starter", None, Some("defaultDir: [x")),
        Err(JumpStartError::DescriptorParse(ref p, _)) if p == "starter"
    ));
    assert_eq!(get_final_dest("starter", Some("d"), Some("defaultDir: [x")).unwrap(), "d");
}

#[test]
fn destination_precedence() {
    let with_dir = StarterConfig::from_str("defaultDir: out").unwrap();
    let empty_dir = StarterConfig::from_str("defaultDir: ''").unwrap();
    assert_eq!(destination_for(Some("x"), Some(&with_dir)), "x");
    assert_eq!(destination_for(None, Some(&with_dir)), "out");
    assert_eq!(destination_for(None, Some(&empty_dir)), ".");
    assert_eq!(destination_for(None, None), ".");
}

#[test]
fn paths_join_like_path_join() {
    assert_eq!(join_path("/inst", "g/n"), "/inst/g/n");
    assert_eq!(join_path("/inst/", "g/n"), "/inst/g/n");
    assert_eq!(join_path("", "g/n"), "g/n");
    assert_eq!(join_path("/inst", "/abs"), "/abs");
}

#[test]
fn remote_fetch_layout() {
    let plan = fetch_plan(&RemoteStarter::new("acct", "repo", "grp", "nm"));
    assert_eq!(plan.url, "https://www.github.com/acct/repo/archive/HEAD.tar.gz");
    assert_eq!(plan.cache_dir, "github/acct/repo");
    assert_eq!(plan.archive_path, "github/acct/repo/HEAD.tar.gz");
    assert_eq!(plan.subdir, "grp/nm");
    assert_eq!(plan.extract_dir, "github/acct/repo/grp/nm");
}

#[test]
fn download_status() {
    assert!(check_download_status("u", 200).is_ok());
    assert!(check_download_status("u", 299).is_ok());
    match check_download_status("https://x/y", 404) {
        Err(JumpStartError::DownloadFailed(u)) => assert_eq!(u, "https://x/y"),
        other => panic!("unexpected {:?}", other),
    }
    assert!(check_download_status("u", 199).is_err());
    assert!(check_download_status("u", 301).is_err());
}

#[test]
fn default_instance_selection() {
    let config = Config {
        instances: vec![
            instance("a", "/a", None),
            instance("b", "/b", Some(false)),
            instance("c", "/c", Some(true)),
            instance("d", "/d", Some(true)),
        ],
    };
    assert_eq!(get_default_instance(&config).name, "c");
    let none_marked = Config { instances: vec![instance("a", "/a", None), instance("b", "/b", None)] };
    assert_eq!(get_default_instance(&none_marked).name, "a");
    assert_eq!(resolve_instance_path(&config, None), "/c");
    assert_eq!(resolve_instance_path(&config, Some("/explicit")), "/explicit");
}

#[test]
fn default_config() {
    let c = Config::default();
    assert_eq!(c.instances.len(), 1);
    assert_eq!(c.instances[0].name, "");
    assert_eq!(c.instances[0].default, Some(true));
}

#[test]
fn use_plans() {
    let config = Config { instances: vec![instance("test-instance", "/tmp/instance", Some(true))] };
    match use_starter(&config, "group/starter").unwrap() {
        UsePlan::Local { starter, source_dir } => {
            assert_eq!(starter.path, "group/starter");
            assert_eq!(source_dir, "/tmp/instance/group/starter");
        }
        other => panic!("unexpected {:?}", other),
    }
    match use_starter(&config, "@acct/grp/nm").unwrap() {
        UsePlan::Remote { starter, fetch } => {
            assert_eq!(starter.github_repo, "jump-start");
            assert_eq!(fetch.subdir, "grp/nm");
        }
        other => panic!("unexpected {:?}", other),
    }
    assert!(matches!(
        use_starter(&config, "@acct/nm"),
        Err(JumpStartError::InvalidIdentifier(_))
    ));
    assert!(matches!(
        use_starter(&config, "starter"),
        Err(JumpStartError::UnknownStarter(_))
    ));
    assert!(matches!(
        use_starter(&config, "a/b/c"),
        Err(JumpStartError::UnknownStarter(_))
    ));
}
