use jump_start::report::format_result;
use jump_start::starter::StarterConfig;
use jump_start::{JumpStartInstance, LocalStarter};

fn instance() -> JumpStartInstance {
    JumpStartInstance {
        path: "/home/user/projects/my-app".to_string(),
        name: "my-app".to_string(),
        default: None,
    }
}

#[test]
fn human_readable_result() {
    let starter = LocalStarter::new("react", "component");
    assert_eq!(
        format_result(&instance(), &starter, false),
        "/home/user/projects/my-appreact/component"
    );
}

#[test]
fn json_result() {
    let mut starter = LocalStarter::new("react", "component");
    starter.config = Some(StarterConfig::from_str("mainFile: index.js\ndescription: A \"React\" component").unwrap());
    assert_eq!(
        format_result(&instance(), &starter, true),
        "{\"instance\":{\"name\":\"my-app\",\"path\":\"/home/user/projects/my-app\"},\"starter\":{\"group\":\"react\",\"main_file\":\"index.js\",\"name\":\"component\"}}"
    );
}

#[test]
fn json_result_without_main_file_and_with_quotes() {
    let starter = LocalStarter::new("re\"act", "c");
    let out = format_result(&instance(), &starter, true);
    assert!(out.contains("\"main_file\":null"));
    assert!(out.contains("\"group\":\"re\\\"act\""));
}
