use motosan_agent_tool::ToolRegistry;

#[test]
fn register_and_get() {
    let mut registry: ToolRegistry<&str> = ToolRegistry::new();
    registry.register("echo".to_string(), "echo tool");
    assert_eq!(registry.len(), 1);
    let tool = registry.get("echo").unwrap();
    assert_eq!(*tool, "echo tool");
}

#[test]
fn list_defs_sorted() {
    let mut registry: ToolRegistry<u32> = ToolRegistry::new();
    registry.register("echo".to_string(), 1);
    let names = registry.names();
    assert_eq!(names.len(), 1);
    assert_eq!(names[0], "echo");
}

#[test]
fn get_missing_returns_none() {
    let registry: ToolRegistry<u32> = ToolRegistry::new();
    assert!(registry.get("missing").is_none());
    assert!(registry.is_empty());
}

#[test]
fn names_come_out_in_order() {
    let mut registry: ToolRegistry<u32> = ToolRegistry::new();
    for (i, name) in ["web_search", "browser_act", "read_file", "Zeta", "browser_wait"].iter().enumerate() {
        registry.register(name.to_string(), i as u32);
    }
    assert_eq!(registry.names(), vec!["Zeta", "browser_act", "browser_wait", "read_file", "web_search"]);
    let tools: Vec<u32> = registry.tools().into_iter().copied().collect();
    assert_eq!(tools, vec![3, 1, 4, 2, 0]);
}

#[test]
fn register_overwrites_same_name() {
    let mut registry: ToolRegistry<u32> = ToolRegistry::new();
    registry.register("echo".to_string(), 1);
    registry.register("other".to_string(), 2);
    registry.register("echo".to_string(), 3);
    assert_eq!(registry.len(), 2);
    assert_eq!(registry.get("echo"), Some(&3));
    assert_eq!(registry.get("other"), Some(&2));
}

#[test]
fn prefix_names_sort_first() {
    let mut registry: ToolRegistry<u32> = ToolRegistry::new();
    registry.register("ab".to_string(), 1);
    registry.register("a".to_string(), 2);
    registry.register("b".to_string(), 3);
    assert_eq!(registry.names(), vec!["a", "ab", "b"]);
    assert!(!registry.is_empty());
}

fn def(name: &str) -> motosan_agent_tool::ToolDef {
    motosan_agent_tool::ToolDef {
        name: name.to_string(),
        description: format!("{name} tool"),
        input_schema: motosan_agent_tool::JsonValue::Null,
    }
}

#[test]
fn definitions_list_in_name_order() {
    let mut registry: ToolRegistry<(motosan_agent_tool::ToolDef, u32)> = ToolRegistry::new();
    registry.register_def(def("web_search"), 1);
    registry.register_def(def("echo"), 2);
    registry.register_def(def("browser_act"), 3);
    registry.register_def(def("echo"), 4);
    let defs = registry.list_defs();
    let names: Vec<&str> = defs.iter().map(|d| d.name.as_str()).collect();
    assert_eq!(names, vec!["browser_act", "echo", "web_search"]);
    assert_eq!(defs[1].description, "echo tool");
    assert_eq!(registry.get("echo").map(|(_, t)| *t), Some(4));
    assert_eq!(registry.len(), 3);
}
