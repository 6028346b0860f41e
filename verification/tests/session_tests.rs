use rust_lt::session::Session;
use rust_lt::string_map::StringMap;

#[test]
fn test_session_creation() {
    let session = Session::new(1, "test_scenario".to_string());
    assert_eq!(session.user_id, 1);
    assert_eq!(session.scenario_name, "test_scenario");
    assert!(session.start_time > 0);
}

#[test]
fn test_variable_operations() {
    let mut session = Session::new(1, "test".to_string());

    session.set("username".to_string(), "alice".to_string());
    assert_eq!(session.get("username"), Some("alice"));

    assert!(session.has_variable("username"));
    assert!(!session.has_variable("password"));

    let removed = session.remove("username");
    assert_eq!(removed.as_ref().map(|s| s.as_ref()), Some("alice"));
    assert!(!session.has_variable("username"));
}

#[test]
fn test_set_all() {
    let mut session = Session::new(1, "test".to_string());

    let mut data = StringMap::new();
    data.insert("user".to_string(), "bob".to_string());
    data.insert("email".to_string(), "bob@example.com".to_string());

    session.set_all(data);

    assert_eq!(session.get("user"), Some("bob"));
    assert_eq!(session.get("email"), Some("bob@example.com"));
}

#[test]
fn test_template_resolution() {
    let mut session = Session::new(1, "test".to_string());
    session.set("name".to_string(), "Alice".to_string());
    session.set("age".to_string(), "30".to_string());

    let result = session.resolve_template("Hello {{name}}!");
    assert_eq!(result, "Hello Alice!");

    let result = session.resolve_template("{{name}} is {{age}} years old");
    assert_eq!(result, "Alice is 30 years old");

    let result = session.resolve_template("City: {{city}}");
    assert_eq!(result, "City: ");

    let result = session.resolve_template("No variables here");
    assert_eq!(result, "No variables here");
}

#[test]
fn test_clear_variables() {
    let mut session = Session::new(1, "test".to_string());
    session.set("key1".to_string(), "value1".to_string());
    session.set("key2".to_string(), "value2".to_string());

    assert_eq!(session.get_all_variables().len(), 2);

    session.clear_variables();
    assert_eq!(session.get_all_variables().len(), 0);
}

#[test]
fn template_keeps_malformed_placeholders() {
    let mut session = Session::new(2, "t".to_string());
    session.set("a".to_string(), "X".to_string());
    assert_eq!(session.resolve_template("{{}}"), "{{}}");
    assert_eq!(session.resolve_template("{{a b}}"), "{{a b}}");
    assert_eq!(session.resolve_template("{{{a}}"), "{X");
    assert_eq!(session.resolve_template("{{a}}}"), "X}");
    assert_eq!(session.resolve_template("{{a"), "{{a");
    assert_eq!(session.resolve_template(""), "");
}

#[test]
fn template_single_placeholder_is_the_value() {
    let mut session = Session::new(3, "t".to_string());
    session.set("user_id".to_string(), "12345".to_string());
    assert_eq!(session.resolve_template("{{user_id}}"), "12345");
    assert_eq!(session.resolve_template("{{missing_1}}"), "");
}

#[test]
fn set_replaces_and_keeps_others() {
    let mut session = Session::new(4, "t".to_string());
    session.set("k".to_string(), "1".to_string());
    session.set("other".to_string(), "o".to_string());
    session.set("k".to_string(), "2".to_string());
    assert_eq!(session.get("k"), Some("2"));
    assert_eq!(session.get("other"), Some("o"));
    assert_eq!(session.get_all_variables().len(), 2);
}

#[test]
fn set_all_overrides_existing_values() {
    let mut session = Session::new(5, "t".to_string());
    session.set("user".to_string(), "old".to_string());
    session.set("keep".to_string(), "yes".to_string());
    let mut data = StringMap::new();
    data.insert("user".to_string(), "new".to_string());
    session.set_all(data);
    assert_eq!(session.get("user"), Some("new"));
    assert_eq!(session.get("keep"), Some("yes"));
}

#[test]
fn set_static_and_remove_missing() {
    let mut session = Session::new(6, "t".to_string());
    session.set_static("env".to_string(), "prod");
    assert_eq!(session.get("env"), Some("prod"));
    assert!(session.remove("absent").is_none());
    assert!(session.has_variable("env"));
}

#[test]
fn cloned_session_is_independent() {
    let mut session = Session::new(7, "t".to_string());
    session.set("a".to_string(), "1".to_string());
    let mut copy = session.clone();
    copy.set("a".to_string(), "2".to_string());
    assert_eq!(session.get("a"), Some("1"));
    assert_eq!(copy.get("a"), Some("2"));
    assert_eq!(copy.user_id, 7);
}

#[test]
fn string_map_keeps_insertion_order() {
    let mut m = StringMap::new();
    assert!(m.is_empty());
    assert_eq!(m.insert("b".to_string(), "1".to_string()), None);
    assert_eq!(m.insert("a".to_string(), "2".to_string()), None);
    assert_eq!(m.insert("b".to_string(), "3".to_string()), Some("1".to_string()));
    assert_eq!(m.len(), 2);
    let (k0, v0) = m.entry(0);
    assert_eq!((k0.as_str(), v0.as_str()), ("b", "3"));
    let (k1, v1) = m.entry(1);
    assert_eq!((k1.as_str(), v1.as_str()), ("a", "2"));
    assert_eq!(m.remove("b"), Some("3".to_string()));
    assert!(!m.contains_key("b"));
    assert_eq!(m.len(), 1);
}
