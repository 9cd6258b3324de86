use mcp_core::error::McpError;
use mcp_core::resource::{
    InMemoryResourceRegistry, MultiSchemeResourceRegistry, Resource, ResourceChangeType,
    ResourceContent, ResourceRegistry, ResourceTemplate, UriSchemeConfig,
};
use mcp_core::security::SecurityContext;

#[test]
fn test_uri_scheme_config() {
    let scheme = UriSchemeConfig::new("ratchet", "Ratchet task management")
        .with_types(vec!["task".to_string(), "execution".to_string()]);

    assert_eq!(scheme.scheme, "ratchet");
    assert!(scheme.matches_uri("ratchet://tasks/my-task"));
    assert!(!scheme.matches_uri("layercake://models/my-model"));
}

#[test]
fn test_uri_parsing() {
    let scheme = UriSchemeConfig::new("ratchet", "Ratchet");
    let parsed = scheme
        .parse_uri("ratchet://host/path/to/resource?param=value#fragment")
        .unwrap();

    assert_eq!(parsed.scheme, "ratchet");
    assert_eq!(parsed.host, Some("host".to_string()));
    assert_eq!(parsed.path, "/path/to/resource");
    assert_eq!(parsed.query, Some("param=value".to_string()));
    assert_eq!(parsed.fragment, Some("fragment".to_string()));

    let segments = parsed.path_segments();
    assert_eq!(segments, vec!["path", "to", "resource"]);

    let params = parsed.query_params();
    assert_eq!(params.get("param"), Some(&"value".to_string()));
}

#[test]
fn uri_components_are_read() {
    let scheme = UriSchemeConfig::new("ratchet", "Ratchet");
    let parsed = scheme.parse_uri("ratchet://host/a/b?k=v#f").unwrap();
    assert_eq!(parsed.path_segments(), vec!["a", "b"]);
    assert_eq!(parsed.query_params().get("k"), Some(&"v".to_string()));
    assert_eq!(parsed.fragment, Some("f".to_string()));
}

#[test]
fn uri_of_another_scheme_is_refused() {
    let scheme = UriSchemeConfig::new("ratchet", "Ratchet");
    match scheme.parse_uri("layercake://host/a") {
        Err(McpError::InvalidResource { uri, message }) => {
            assert_eq!(uri, "layercake://host/a");
            assert_eq!(message, "Expected scheme 'ratchet', got 'layercake'");
        }
        _ => panic!("expected an invalid resource"),
    }
    match scheme.parse_uri("no scheme here") {
        Err(McpError::InvalidResource { uri, message }) => {
            assert_eq!(uri, "no scheme here");
            assert_eq!(message, "Invalid URI format: relative URL without a base");
        }
        _ => panic!("expected an invalid resource"),
    }
}

#[test]
fn query_parameters_are_decoded_and_the_last_wins() {
    let scheme = UriSchemeConfig::new("s", "S");
    let parsed = scheme.parse_uri("s://h//x//y/?a=1&b=two%20words&a=3&flag&c=&d=x=y&%6B=v").unwrap();
    assert_eq!(parsed.path_segments(), vec!["x", "y"]);
    let params = parsed.query_params();
    assert_eq!(params.len(), 5);
    let names: Vec<&str> = params.pairs.iter().map(|pair| pair.0.as_str()).collect();
    assert_eq!(names, vec!["a", "b", "c", "d", "k"]);
    assert_eq!(params.get("a"), Some(&"3".to_string()));
    assert_eq!(params.get("b"), Some(&"two words".to_string()));
    assert_eq!(params.get("flag"), None);
    assert_eq!(params.get("c"), Some(&"".to_string()));
    assert_eq!(params.get("d"), Some(&"x=y".to_string()));
    assert_eq!(params.get("k"), Some(&"v".to_string()));

    let bare = scheme.parse_uri("s://h").unwrap();
    assert!(bare.path_segments().is_empty());
    assert_eq!(bare.query_params().len(), 0);
}

fn sample(uri: &str, name: &str) -> Resource {
    Resource {
        uri: uri.to_string(),
        name: name.to_string(),
        description: Some("A test resource".to_string()),
        mime_type: Some("text/plain".to_string()),
        content: ResourceContent::Text { text: "Hello, world!".to_string() },
        metadata: Vec::new(),
    }
}

#[test]
fn test_in_memory_registry() {
    let scheme = UriSchemeConfig::new("test", "Test scheme");
    let mut registry = InMemoryResourceRegistry::new(scheme);

    let resource = sample("test://example/resource", "Test Resource");
    registry.add_resource(resource.clone());

    let context = SecurityContext::system();
    let retrieved = registry.get_resource("test://example/resource", &context).unwrap();
    assert_eq!(retrieved.uri, resource.uri);
    assert_eq!(retrieved.name, resource.name);

    let exists = registry.resource_exists("test://example/resource", &context).unwrap();
    assert!(exists);

    let not_exists = registry.resource_exists("test://example/nonexistent", &context).unwrap();
    assert!(!not_exists);
}

#[test]
fn a_resource_of_the_same_uri_takes_the_place_of_the_old_one() {
    let mut registry = InMemoryResourceRegistry::new(UriSchemeConfig::new("test", "T"));
    registry.add_resource(sample("test://a", "first"));
    registry.add_resource(sample("test://b", "other"));
    registry.add_resource(sample("test://a", "second"));
    let context = SecurityContext::system();
    assert_eq!(registry.get_resource("test://a", &context).unwrap().name, "second");
    assert_eq!(registry.get_resource("test://b", &context).unwrap().name, "other");
    match registry.get_resource("test://c", &context) {
        Err(McpError::ResourceNotFound { uri }) => assert_eq!(uri, "test://c"),
        _ => panic!("expected resource not found"),
    }
    registry.add_template(ResourceTemplate {
        uri_template: "test://{id}".to_string(),
        name: "Any".to_string(),
        description: None,
        mime_type: None,
        metadata: Vec::new(),
    });
    let templates = registry.list_resource_templates(&context).unwrap();
    assert_eq!(templates.len(), 1);
    assert_eq!(templates[0].uri_template, "test://{id}");
    assert!(registry.can_handle_uri("test://x"));
    assert!(!registry.can_handle_uri("tests://x"));
    let subscription = registry.subscribe_to_resource("test://a", &context).unwrap();
    assert_eq!(subscription.uri, "test://a");
    assert_eq!(subscription.subscription_id.len(), 36);
    let second = registry.subscribe_to_resource("test://a", &context).unwrap();
    assert_ne!(subscription.subscription_id, second.subscription_id);
    assert!(registry.unsubscribe_from_resource(&subscription.subscription_id, &context).is_ok());
}

#[test]
fn test_multi_scheme_registry() {
    let mut multi_registry = MultiSchemeResourceRegistry::new();

    let ratchet_scheme = UriSchemeConfig::new("ratchet", "Ratchet tasks");
    let ratchet_registry = InMemoryResourceRegistry::new(ratchet_scheme);
    multi_registry.register_scheme(Box::new(ratchet_registry));

    let layercake_scheme = UriSchemeConfig::new("layercake", "Layercake models");
    let layercake_registry = InMemoryResourceRegistry::new(layercake_scheme);
    multi_registry.register_scheme(Box::new(layercake_registry));

    assert!(multi_registry.can_handle_uri("ratchet://tasks/task1"));
    assert!(multi_registry.can_handle_uri("layercake://models/model1"));
    assert!(!multi_registry.can_handle_uri("unknown://something"));

    let schemes = multi_registry.supported_schemes();
    assert_eq!(schemes.len(), 2);
    let scheme_names: Vec<&str> = schemes.iter().map(|s| s.scheme.as_str()).collect();
    assert!(scheme_names.contains(&"ratchet"));
    assert!(scheme_names.contains(&"layercake"));
}

#[test]
fn a_router_hands_each_uri_to_the_registry_of_its_scheme() {
    let mut ratchet = InMemoryResourceRegistry::new(UriSchemeConfig::new("ratchet", "R"));
    ratchet.add_resource(sample("ratchet://tasks/x", "from ratchet"));
    let mut layercake = InMemoryResourceRegistry::new(UriSchemeConfig::new("layercake", "L"));
    layercake.add_resource(sample("layercake://models/m", "from layercake"));
    let mut router = MultiSchemeResourceRegistry::new();
    router.register_scheme(Box::new(ratchet));
    router.register_scheme(Box::new(layercake));
    let context = SecurityContext::system();

    assert_eq!(router.get_resource("ratchet://tasks/x", &context).unwrap().name, "from ratchet");
    assert_eq!(
        router.get_resource("layercake://models/m", &context).unwrap().name,
        "from layercake"
    );
    match router.get_resource("ratchet://tasks/y", &context) {
        Err(McpError::ResourceNotFound { uri }) => assert_eq!(uri, "ratchet://tasks/y"),
        _ => panic!("expected resource not found"),
    }
    match router.get_resource("foo://bar", &context) {
        Err(McpError::InvalidResource { uri, message }) => {
            assert_eq!(uri, "foo://bar");
            assert_eq!(message, "No registry found for scheme 'foo'");
        }
        _ => panic!("expected an invalid resource"),
    }
    match router.get_resource("no-scheme", &context) {
        Err(McpError::InvalidResource { message, .. }) => {
            assert_eq!(message, "URI missing scheme")
        }
        _ => panic!("expected an invalid resource"),
    }
    assert!(router.get_registry_for_uri("ratchet://q").is_ok());
    assert_eq!(router.uri_scheme().scheme, "*");
    assert!(router.resource_exists("ratchet://tasks/x", &context).unwrap());
    assert!(router.unsubscribe_from_resource("any", &context).is_ok());

    let mut again = InMemoryResourceRegistry::new(UriSchemeConfig::new("ratchet", "R2"));
    again.add_resource(sample("ratchet://tasks/z", "second ratchet"));
    router.register_scheme(Box::new(again));
    assert_eq!(router.supported_schemes().len(), 2);
    assert!(router.get_resource("ratchet://tasks/x", &context).is_err());
    assert_eq!(router.get_resource("ratchet://tasks/z", &context).unwrap().name, "second ratchet");

    let empty: MultiSchemeResourceRegistry<InMemoryResourceRegistry> =
        MultiSchemeResourceRegistry::new();
    match empty.unsubscribe_from_resource("s1", &context) {
        Err(McpError::InvalidResource { uri, message }) => {
            assert_eq!(uri, "subscription:s1");
            assert_eq!(message, "Subscription not found in any registry");
        }
        _ => panic!("expected an invalid resource"),
    }
    assert!(empty.list_resource_templates(&context).unwrap().is_empty());
}

#[test]
fn change_types_have_lower_case_names() {
    assert_eq!(ResourceChangeType::Created.name(), "created");
    assert_eq!(ResourceChangeType::Updated.name(), "updated");
    assert_eq!(ResourceChangeType::Deleted.name(), "deleted");
}

fn template(uri_template: &str, name: &str) -> ResourceTemplate {
    ResourceTemplate {
        uri_template: uri_template.to_string(),
        name: name.to_string(),
        description: None,
        mime_type: None,
        metadata: Vec::new(),
    }
}

#[test]
fn a_router_gathers_the_templates_of_its_registries_in_their_order() {
    let mut ratchet = InMemoryResourceRegistry::new(UriSchemeConfig::new("ratchet", "R"));
    ratchet.add_template(template("ratchet://tasks/{id}", "Tasks"));
    ratchet.add_template(template("ratchet://jobs/{id}", "Jobs"));
    let mut layercake = InMemoryResourceRegistry::new(UriSchemeConfig::new("layercake", "L"));
    layercake.add_template(template("layercake://models/{id}", "Models"));
    let mut router = MultiSchemeResourceRegistry::new();
    router.register_scheme(Box::new(ratchet));
    router.register_scheme(Box::new(layercake));
    let context = SecurityContext::system();

    let listed = router.list_resource_templates(&context).unwrap();
    let names: Vec<&str> = listed.iter().map(|t| t.name.as_str()).collect();
    assert_eq!(names, vec!["Tasks", "Jobs", "Models"]);
    assert_eq!(listed[2].uri_template, "layercake://models/{id}");
}

#[test]
fn a_router_asks_the_registry_of_the_scheme_whether_a_resource_exists() {
    let mut ratchet = InMemoryResourceRegistry::new(UriSchemeConfig::new("ratchet", "R"));
    ratchet.add_resource(sample("ratchet://tasks/x", "x"));
    let mut router = MultiSchemeResourceRegistry::new();
    router.register_scheme(Box::new(ratchet));
    let context = SecurityContext::system();

    assert_eq!(router.resource_exists("ratchet://tasks/x", &context).unwrap(), true);
    assert_eq!(router.resource_exists("ratchet://tasks/y", &context).unwrap(), false);
    match router.resource_exists("foo://tasks/x", &context) {
        Err(McpError::InvalidResource { message, .. }) => {
            assert_eq!(message, "No registry found for scheme 'foo'")
        }
        _ => panic!("expected an invalid resource"),
    }
    match router.subscribe_to_resource("tasks", &context) {
        Err(McpError::InvalidResource { message, .. }) => {
            assert_eq!(message, "URI missing scheme")
        }
        _ => panic!("expected an invalid resource"),
    }
    let subscription = router.subscribe_to_resource("ratchet://tasks/x", &context).unwrap();
    assert_eq!(subscription.uri, "ratchet://tasks/x");
}

#[test]
fn a_default_router_has_no_registries() {
    let router: MultiSchemeResourceRegistry<InMemoryResourceRegistry> = Default::default();
    assert!(router.supported_schemes().is_empty());
    assert_eq!(router.uri_scheme().scheme, "*");
    assert!(!router.can_handle_uri("ratchet://tasks/x"));
}

#[test]
fn a_name_given_twice_in_a_query_is_kept_once() {
    let scheme = UriSchemeConfig::new("s", "S");
    let parsed = scheme.parse_uri("s://h/p?a=1&a=2&b=x").unwrap();
    let params = parsed.query_params();
    assert_eq!(params.len(), 2);
    assert_eq!(params.pairs[0], ("a".to_string(), "2".to_string()));
    assert_eq!(params.pairs[1], ("b".to_string(), "x".to_string()));
    assert_eq!(params.get("a"), Some(&"2".to_string()));
    assert_eq!(params.get("b"), Some(&"x".to_string()));
    assert_eq!(params.get("c"), None);
}

#[test]
fn a_router_cancels_where_a_registry_accepts() {
    let mut router = MultiSchemeResourceRegistry::new();
    let context = SecurityContext::system();
    assert!(router.unsubscribe_from_resource("s1", &context).is_err());
    router.register_scheme(Box::new(InMemoryResourceRegistry::new(UriSchemeConfig::new(
        "ratchet", "R",
    ))));
    assert!(router.unsubscribe_from_resource("s1", &context).is_ok());
    let subscription = router.subscribe_to_resource("ratchet://tasks/x", &context).unwrap();
    assert_eq!(subscription.uri, "ratchet://tasks/x");
    assert_eq!(subscription.subscription_id.len(), 36);
    assert!(router.unsubscribe_from_resource(&subscription.subscription_id, &context).is_ok());
}
