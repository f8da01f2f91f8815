use serverless_rs::{
    ErrorKind, Json,
    check_info_flag, handle_info_request, parse_info_args, FunctionInfo, InfoFlags, OutputFormat,
    Requirements, Resource, RouteInfo,
};

fn no_args() -> Vec<String> {
    vec!["test-binary".to_string()]
}

#[test]
fn info_test_function_info() {
    let resources = Requirements::new()
        .recommend(Resource::new("memory", "128MB"))
        .require(Resource::new("cpu", "1x"))
        .platform("aws")
        .platform("cloudflare")
        .env_var("API_KEY");

    let info = FunctionInfo::new("api_handler")
        .with_description("API endpoint for user data")
        .with_resources(resources)
        .add_route(RouteInfo::new("GET", "/users"))
        .add_route(RouteInfo::new("POST", "/users"));

    assert_eq!(info.name, "api_handler");
    assert_eq!(
        info.description,
        Some("API endpoint for user data".to_string())
    );
    assert_eq!(info.resources.platforms.len(), 2);
    assert_eq!(info.routes.len(), 2);

    let json = info.to_json();
    assert!(json.contains("api_handler"));
    assert!(json.contains("/users"));
}

#[test]
fn test_check_info_flag() {
    assert!(!check_info_flag(&no_args()));
    assert!(check_info_flag(&vec!["bin".to_string(), "--info".to_string()]));
}

#[test]
fn test_info_functions() {
    let check_flag = check_info_flag(&no_args());
    assert!(!check_flag, "Info flag should be false in tests");
}

#[test]
fn test_format_for_display() {
    let resources = Requirements::new()
        .recommend(Resource::new("memory", "256MB").with_description("Memory limit"))
        .require(Resource::new("cpu", "1x"))
        .platform("aws")
        .env_var("API_KEY");

    let info = FunctionInfo::new("test_function")
        .with_description("Test function description")
        .with_resources(resources)
        .add_route(RouteInfo::new("GET", "/test").with_description("Test endpoint"))
        .add_metadata("version", "1.0");

    let display = info.format_for_display();

    assert!(display.contains("# Function: test_function"));
    assert!(display.contains("Test function description"));
    assert!(display.contains("GET /test"));
    assert!(display.contains("Test endpoint"));
    assert!(display.contains("Required Resources"));
    assert!(display.contains("cpu: 1x"));
    assert!(display.contains("Recommended Resources"));
    assert!(display.contains("memory: 256MB"));
    assert!(display.contains("Memory limit"));
    assert!(display.contains("Supported Platforms"));
    assert!(display.contains("aws"));
    assert!(display.contains("Environment Variables"));
    assert!(display.contains("API_KEY"));
    assert!(display.contains("Additional Metadata"));
    assert!(display.contains("version: 1.0"));
}

#[test]
fn test_parse_info_args() {
    let (info_requested, format) = parse_info_args(&no_args());
    assert!(!info_requested);
    assert!(matches!(format, OutputFormat::Text));

    let args = vec!["bin".to_string(), "--json".to_string(), "--info".to_string()];
    assert_eq!(parse_info_args(&args), (true, OutputFormat::Json));
    let flags = InfoFlags::from_args(&args);
    assert!(flags.info_requested);
    assert_eq!(flags.format, OutputFormat::Json);
}

#[test]
fn test_route_info() {
    let route = RouteInfo::new("GET", "/hello");
    assert_eq!(route.method, "GET");
    assert_eq!(route.path, "/hello");
}

#[test]
fn macro_tests_test_function_info() {
    let info = FunctionInfo::new("test_function").with_description("Test function description");

    assert_eq!(info.name, "test_function");
    assert_eq!(
        info.description,
        Some("Test function description".to_string())
    );
}

#[test]
fn display_text_is_exact_and_omits_empty_sections() {
    let info = FunctionInfo::new("f");
    assert_eq!(info.format_for_display(), "# Function: f\n");

    let info = FunctionInfo::new("f")
        .with_description("d")
        .add_route(RouteInfo::new("GET", "/a"))
        .with_resources(Requirements::new().platform("aws"))
        .add_metadata("k", "v");
    assert_eq!(
        info.format_for_display(),
        "# Function: f\n\n## Description\nd\n\n## Routes\n- GET /a\n\n## Resource Requirements\n\n## Supported Platforms\n- aws\n\n## Additional Metadata\n- k: v\n"
    );
}

#[test]
fn json_encoding_follows_the_schema() {
    let info = FunctionInfo::new("f");
    assert_eq!(
        info.to_json(),
        r#"{"name":"f","resources":{"recommended":{},"required":{},"platforms":[],"environment":[]}}"#
    );
    let info = FunctionInfo::new("f")
        .with_description("say \"hi\"")
        .with_resources(
            Requirements::new()
                .recommend(Resource::new("memory", "128MB").with_description("m"))
                .env_var("K"),
        )
        .add_route(RouteInfo::new("GET", "/a").with_description("r"))
        .add_metadata("v", "1");
    assert_eq!(
        info.to_json(),
        r#"{"name":"f","description":"say \"hi\"","resources":{"recommended":{"memory":{"name":"memory","value":"128MB","description":"m"}},"required":{},"platforms":[],"environment":["K"]},"routes":[{"method":"GET","path":"/a","description":"r"}],"metadata":{"v":"1"}}"#
    );
}

#[test]
fn handle_info_request_renders_when_asked() {
    let info = FunctionInfo::new("f");
    assert_eq!(handle_info_request(&info, &no_args()), None);
    let text = handle_info_request(&info, &vec!["--info".to_string()]).unwrap();
    assert_eq!(text, info.format_for_display());
    let json = handle_info_request(&info, &vec!["--info".to_string(), "--json".to_string()]).unwrap();
    assert_eq!(json, info.to_json());
}

fn sample_info() -> FunctionInfo {
    FunctionInfo::new("api_handler")
        .with_description("API endpoint")
        .with_resources(
            Requirements::new()
                .recommend(Resource::new("memory", "128MB").with_description("RAM"))
                .recommend(Resource::new("memory", "256MB"))
                .require(Resource::new("cpu", "1x"))
                .platform("aws")
                .platform("aws")
                .env_var("API_KEY"),
        )
        .add_route(RouteInfo::new("GET", "/users").with_description("list"))
        .add_route(RouteInfo::new("POST", "/users"))
        .add_metadata("version", "1.0")
        .add_metadata("team", "core")
}

#[test]
fn metadata_json_round_trip() {
    let info = sample_info();
    let back = FunctionInfo::from_json_value(&info.to_json_value()).unwrap();
    assert_eq!(back, info);
    assert_eq!(back.routes, info.routes);
    assert!(back.resources == info.resources);
    assert_eq!(back.name, info.name);
    assert_eq!(back.description, info.description);
    assert_eq!(back.routes.len(), 2);
    assert_eq!(back.routes[0].method, "GET");
    assert_eq!(back.routes[0].description, Some("list".to_string()));
    assert_eq!(back.routes[1].description, None);
    assert_eq!(back.resources.recommended.len(), 1);
    assert_eq!(back.resources.get_recommended("memory").unwrap().value, "256MB");
    assert_eq!(back.resources.get_required("cpu").unwrap().value, "1x");
    assert_eq!(back.resources.platforms, info.resources.platforms);
    assert_eq!(back.resources.environment, info.resources.environment);
    assert_eq!(back.metadata.len(), 2);
    assert_eq!(back.metadata.get("team"), Some(&"core".to_string()));
    assert_eq!(back.to_json(), info.to_json());
    assert_eq!(back.format_for_display(), info.format_for_display());

    let bare = FunctionInfo::new("f");
    let back = FunctionInfo::from_json_value(&bare.to_json_value()).unwrap();
    assert_eq!(back, bare);
    assert_ne!(back, info);
    assert_ne!(bare, FunctionInfo::new("f").add_metadata("k", "v"));
    assert_ne!(bare, FunctionInfo::new("f").with_description("d"));
    assert_eq!(RouteInfo::new("GET", "/a"), RouteInfo::new("GET", "/a"));
    assert_ne!(RouteInfo::new("GET", "/a"), RouteInfo::new("GET", "/a").with_description("x"));
    assert_eq!(Resource::new("m", "1"), Resource::new("m", "1"));
    assert_ne!(Resource::new("m", "1"), Resource::new("m", "2"));
}

#[test]
fn test_serialization() {
    let requirements = Requirements::new()
        .recommend(Resource::new("memory", "128MB"))
        .require(Resource::new("cpu", "1x"))
        .platform("aws")
        .env_var("API_KEY");

    let json = requirements.to_json_value();
    let deserialized = Requirements::from_json_value(&json).unwrap();

    assert_eq!(deserialized.recommended.len(), 1);
    assert_eq!(deserialized.required.len(), 1);
    assert_eq!(deserialized.platforms.len(), 1);
    assert_eq!(deserialized.environment.len(), 1);
}

#[test]
fn malformed_metadata_is_a_serialization_error() {
    let no_resources = Json::Object(vec![("name".to_string(), Json::Str("f".to_string()))]);
    let err = FunctionInfo::from_json_value(&no_resources).unwrap_err();
    assert_eq!(err.kind(), ErrorKind::Serialization);
    assert!(FunctionInfo::from_json_value(&Json::Null).is_err());
    let bad_name = Json::Object(vec![
        ("name".to_string(), Json::Number("1".to_string())),
        ("resources".to_string(), Json::Object(vec![])),
    ]);
    assert!(FunctionInfo::from_json_value(&bad_name).is_err());
    let minimal = Json::Object(vec![
        ("name".to_string(), Json::Str("f".to_string())),
        ("extra".to_string(), Json::Null),
        ("resources".to_string(), Json::Object(vec![])),
    ]);
    let info = FunctionInfo::from_json_value(&minimal).unwrap();
    assert_eq!(info.name, "f");
    assert!(info.routes.is_empty());
    assert!(info.resources.platforms.is_empty());
}

#[test]
fn declared_metadata_merges_requirements_and_route() {
    let platforms = vec!["aws".to_string(), "cloudflare".to_string()];
    let info = FunctionInfo::declared("hello", None, &platforms, None, None);
    assert_eq!(info.name, "hello");
    assert_eq!(info.description, Some("Serverless function hello".to_string()));
    assert_eq!(info.resources.platforms, platforms);
    assert!(info.routes.is_empty());

    let req = Requirements::new().require(Resource::new("cpu", "1x"));
    let route = RouteInfo::new("GET", "/hello").with_description("greets");
    let info = FunctionInfo::declared("hello", Some("Says hello"), &platforms, Some(req), Some(route));
    assert_eq!(info.description, Some("Says hello".to_string()));
    assert!(info.resources.platforms.is_empty());
    assert_eq!(info.resources.get_required("cpu").unwrap().value, "1x");
    assert_eq!(info.routes.len(), 1);
    assert_eq!(info.routes[0].path, "/hello");
}

#[test]
fn display_and_equality_ignore_insertion_order() {
    let a = FunctionInfo::new("f")
        .add_metadata("b", "2")
        .add_metadata("a", "1")
        .with_resources(
            Requirements::new()
                .recommend(Resource::new("timeout", "30s"))
                .recommend(Resource::new("memory", "128MB")),
        );
    let b = FunctionInfo::new("f")
        .add_metadata("a", "1")
        .add_metadata("b", "2")
        .with_resources(
            Requirements::new()
                .recommend(Resource::new("memory", "128MB"))
                .recommend(Resource::new("timeout", "30s")),
        );
    assert_eq!(a.format_for_display(), b.format_for_display());
    assert_eq!(
        a.format_for_display(),
        "# Function: f\n\n## Resource Requirements\n\n### Recommended Resources\n- memory: 128MB\n- timeout: 30s\n\n## Additional Metadata\n- a: 1\n- b: 2\n"
    );
    assert_eq!(a.format_for_display(), a.format_for_display());
    assert!(a == b);
    assert!(a.resources == b.resources);
    assert_ne!(a, b.clone().add_metadata("a", "9"));
}
