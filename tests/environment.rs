use sphinx_ultra::environment::{create_standard_domains, Domain, DomainObject};

#[test]
fn test_domain_object_creation() {
    let obj = DomainObject::new(
        "test_function".to_string(),
        "function".to_string(),
        "test_module".to_string(),
        Some("test_function".to_string()),
        1,
    );

    assert_eq!(obj.name, "test_function");
    assert_eq!(obj.object_type, "function");
    assert_eq!(obj.docname, "test_module");
    assert_eq!(obj.anchor, Some("test_function".to_string()));
    assert_eq!(obj.priority, 1);
}

#[test]
fn test_domain_creation() {
    let mut domain = Domain::new("py");

    let obj = DomainObject::new(
        "test_func".to_string(),
        "function".to_string(),
        "test".to_string(),
        None,
        1,
    );

    domain.add_object("function", obj);

    assert_eq!(domain.objects.len(), 1);
    assert_eq!(domain.get_objects().len(), 1);
}

#[test]
fn test_standard_domains() {
    let domains = create_standard_domains();

    assert!(domains.contains_key("py"));
    assert!(domains.contains_key("cpp"));
    assert!(domains.contains_key("js"));
    assert!(domains.contains_key("std"));

    let py_domain = domains.get("py").unwrap();
    assert!(py_domain.object_types.contains_key("module"));
    assert!(py_domain.object_types.contains_key("function"));
    assert!(py_domain.object_types.contains_key("class"));
}

#[test]
fn objects_keep_type_then_recording_order() {
    let mut domain = Domain::new("py");
    let mk = |n: &str, t: &str| DomainObject::new(n.to_string(), t.to_string(), "doc".to_string(), None, 1);
    domain.add_object("function", mk("f1", "function"));
    domain.add_object("class", mk("C", "class"));
    domain.add_object("function", mk("f2", "function"));
    let names: Vec<&str> = domain.get_objects().iter().map(|o| o.name.as_str()).collect();
    assert_eq!(names, vec!["f1", "f2", "C"]);
    assert_eq!(domain.get_objects_by_type("function").unwrap().len(), 2);
    assert!(domain.get_objects_by_type("method").is_none());
    assert_eq!(domain.get_all_objects().len(), 3);
}

#[test]
fn domain_object_builders_set_one_field_each() {
    let obj = DomainObject::new("f".to_string(), "function".to_string(), "m".to_string(), None, 0)
        .with_display_name("F()".to_string())
        .with_description("does f".to_string())
        .with_signature("f(x)".to_string())
        .with_deprecated(true);
    assert_eq!(obj.display_name.as_deref(), Some("F()"));
    assert_eq!(obj.description.as_deref(), Some("does f"));
    assert_eq!(obj.signature.as_deref(), Some("f(x)"));
    assert!(obj.deprecated);
    assert_eq!(obj.name, "f");
}

#[test]
fn standard_domain_type_names() {
    let domains = create_standard_domains();
    let std_domain = domains.get("std").unwrap();
    assert_eq!(std_domain.object_types.get("cmdoption").unwrap().lname, "command line option");
    assert_eq!(std_domain.object_types.get("doc").unwrap().lname, "document");
    assert_eq!(domains.get("cpp").unwrap().object_types.len(), 3);
    assert_eq!(domains.len(), 4);
}
