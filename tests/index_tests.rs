use jump_start::index::{
    index_descriptor, is_excluded_path, parse_starters, starter_location, DescriptorFile, Indexed,
};
use jump_start::starter::StarterConfig;

fn file(path: &str, text: &str) -> DescriptorFile {
    DescriptorFile { path: path.to_string(), text: text.to_string() }
}

#[test]
fn excluded_paths() {
    assert!(is_excluded_path("i/node_modules/x/g/n/jump-start.yaml"));
    assert!(is_excluded_path("i/jump-start-tools/g/n/jump-start.yaml"));
    assert!(!is_excluded_path("i/g/n/jump-start.yaml"));
    assert!(!is_excluded_path("i/Node_Modules/n/jump-start.yaml"));
}

#[test]
fn location_is_grandparent_and_parent() {
    assert_eq!(
        starter_location("/home/u/inst/react/component/jump-start.yaml"),
        Some(("react".to_string(), "component".to_string()))
    );
    assert_eq!(
        starter_location("./g//n/./jump-start.yaml"),
        Some(("g".to_string(), "n".to_string()))
    );
    assert_eq!(starter_location("n/jump-start.yaml"), None);
    assert_eq!(starter_location("i/g/n/my-jump-start.yaml"), None);
    assert_eq!(starter_location("i/g/n/other.yaml"), None);
}

#[test]
fn starters_are_grouped_in_order_found() {
    let index = parse_starters(vec![
        file("inst/react/chart/jump-start.yaml", "description: Chart"),
        file("inst/python/script/jump-start.yaml", "mainFile: main.py"),
        file("inst/react/table/jump-start.yaml", "{}"),
        file("inst/node_modules/react/x/jump-start.yaml", "description: ignored"),
        file("inst/react/broken/jump-start.yaml", "description: [unclosed"),
    ]);
    assert_eq!(index.groups.len(), 2);
    assert_eq!(index.groups[0].group, "react");
    let names: Vec<&str> = index.groups[0].starters.iter().map(|s| s.name.as_str()).collect();
    assert_eq!(names, vec!["chart", "table"]);
    assert_eq!(index.groups[1].group, "python");
    assert_eq!(index.groups[1].starters[0].path, "python/script");
    let config = index.groups[0].starters[0].config.as_ref().unwrap();
    assert_eq!(config.description.as_deref(), Some("Chart"));
    assert_eq!(index.rejected, vec!["inst/react/broken/jump-start.yaml".to_string()]);
}

#[test]
fn one_descriptor() {
    match index_descriptor(&file("i/g/n/jump-start.yaml", "a: [1")) {
        Indexed::Rejected(e) => assert!(e.message().contains("i/g/n/jump-start.yaml")),
        _ => panic!("broken descriptor accepted"),
    }
    assert!(matches!(index_descriptor(&file("jump-start.yaml", "a: b")), Indexed::Ignored));
    match index_descriptor(&file("i/g/n/jump-start.yaml", "defaultDir: out")) {
        Indexed::Found(s) => {
            assert_eq!(s.path, "g/n");
            assert_eq!(s.config.unwrap().default_dir.as_deref(), Some("out"));
        }
        _ => panic!("descriptor not indexed"),
    }
}

#[test]
fn descriptor_fields() {
    let c = StarterConfig::from_str(
        "description: Hello\ndefaultDir: ./app\nmainFile: src/main.js\nunknown: 3\npreview:\n  template: react\n  dependencies:\n    d3: \"^7\"\n    react: \"18\"\n",
    )
    .unwrap();
    assert_eq!(c.description.as_deref(), Some("Hello"));
    assert_eq!(c.default_dir.as_deref(), Some("./app"));
    assert_eq!(c.main_file.as_deref(), Some("src/main.js"));
    let p = c.preview.unwrap();
    assert_eq!(p.template.as_deref(), Some("react"));
    assert_eq!(
        p.dependencies.unwrap(),
        vec![
            ("d3".to_string(), "^7".to_string()),
            ("react".to_string(), "18".to_string())
        ]
    );
}

#[test]
fn descriptor_without_keys_and_malformed_descriptor() {
    let c = StarterConfig::from_str("").unwrap();
    assert!(c.description.is_none() && c.default_dir.is_none() && c.preview.is_none());
    let n = StarterConfig::from_str("defaultDir: 5").unwrap();
    assert!(n.default_dir.is_none());
    assert!(StarterConfig::from_str("a: [1, 2").is_err());
    let p = StarterConfig::from_str("preview: 3").unwrap();
    assert!(p.preview.is_none());
}
