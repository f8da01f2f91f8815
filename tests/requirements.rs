use serverless_rs::{Requirements, Resource};

#[test]
fn test_resource_creation() {
    let resource =
        Resource::new("memory", "128MB").with_description("Memory limit for the function");

    assert_eq!(resource.name, "memory");
    assert_eq!(resource.value, "128MB");
    assert_eq!(
        resource.description,
        Some("Memory limit for the function".to_string())
    );
}

#[test]
fn test_requirements_builder() {
    let requirements = Requirements::new()
        .recommend(Resource::new("memory", "128MB"))
        .recommend(Resource::new("timeout", "30s"))
        .require(Resource::new("cpu", "1x"))
        .platform("aws")
        .platform("cloudflare")
        .env_var("DATABASE_URL")
        .env_var("API_KEY");

    assert_eq!(requirements.recommended.len(), 2);
    assert_eq!(requirements.required.len(), 1);
    assert_eq!(requirements.platforms.len(), 2);
    assert_eq!(requirements.environment.len(), 2);

    assert!(requirements.get_recommended("memory").is_some());
    assert!(requirements.get_recommended("unknown").is_none());
    assert!(requirements.get_required("cpu").is_some());
    assert!(requirements.supports_platform("aws"));
    assert!(!requirements.supports_platform("azure"));
}

#[test]
fn recommendations_accumulate_and_last_write_wins() {
    let r = Requirements::new()
        .recommend(Resource::new("mem", "128MB"))
        .recommend(Resource::new("mem", "256MB"));
    assert_eq!(r.recommended.len(), 1);
    assert_eq!(r.get_recommended("mem").unwrap().value, "256MB");

    let r = r.recommend(Resource::new("timeout", "30s"));
    assert_eq!(r.recommended.len(), 2);
    assert_eq!(r.get_recommended("mem").unwrap().value, "256MB");
    assert_eq!(r.get_recommended("timeout").unwrap().value, "30s");

    let p = Requirements::new().platform("aws").platform("aws");
    assert_eq!(p.platforms, vec!["aws".to_string(), "aws".to_string()]);
}

#[test]
fn required_resources_replace_by_name() {
    let r = Requirements::new()
        .require(Resource::new("cpu", "1x").with_description("one core"))
        .require(Resource::new("cpu", "2x"));
    assert_eq!(r.required.len(), 1);
    let cpu = r.get_required("cpu").unwrap();
    assert_eq!(cpu.value, "2x");
    assert_eq!(cpu.description, None);
    assert!(r.get_recommended("cpu").is_none());
    assert!(Requirements::new().env_var("A").env_var("A").environment.len() == 2);
}
