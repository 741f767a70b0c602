use russh_core::session_profile::{AuthConfig, ProfileCatalog, SessionProfile};

fn profile(name: &str, host: &str, user: &str) -> SessionProfile {
    SessionProfile::new(
        "profile-1".to_string(),
        name.to_string(),
        host.to_string(),
        user.to_string(),
    )
}

#[test]
fn session_profile_creation() {
    let p = profile("My Server", "example.com", "user");

    assert!(!p.id.is_empty());
    assert_eq!(p.name, "My Server");
    assert_eq!(p.host, "example.com");
    assert_eq!(p.username, "user");
    assert_eq!(p.port, 22);
    assert!(p.is_complete());
}

#[test]
fn session_profile_builder() {
    let p = profile("Dev Server", "dev.example.com", "developer")
        .with_port(2222)
        .with_description("Development server".to_string())
        .with_auth(AuthConfig::PublicKey {
            key_path: "~/.ssh/id_rsa".to_string(),
            encrypted: true,
        })
        .with_tag("development".to_string());

    assert_eq!(p.port, 2222);
    assert_eq!(p.description, Some("Development server".to_string()));
    assert!(p.tags.contains(&"development".to_string()));
}

#[test]
fn session_profile_completeness() {
    let complete = profile("Complete", "host.com", "user");
    assert!(complete.is_complete());

    let mut incomplete = complete.clone();
    incomplete.name = String::new();
    assert!(!incomplete.is_complete());
}

#[test]
fn session_profile_usage_tracking() {
    let mut p = profile("Server", "host.com", "user");

    assert_eq!(p.use_count, 0);
    assert!(p.last_used.is_none());

    p.record_use();
    assert_eq!(p.use_count, 1);
    assert!(p.last_used.is_some());

    p.record_use();
    assert_eq!(p.use_count, 2);
}

#[test]
fn empty_profile_name_is_incomplete() {
    let p = profile("", "host.com", "user");
    assert!(!p.is_complete());
}

#[test]
fn empty_host_is_incomplete() {
    let p = profile("Name", "", "user");
    assert!(!p.is_complete());
}

#[test]
fn empty_username_is_incomplete() {
    let p = profile("Name", "host.com", "");
    assert!(!p.is_complete());
}

#[test]
fn usage_tracking_increments() {
    let mut p = profile("Name", "host.com", "user");
    for expected in 1..=5u64 {
        p.record_use();
        assert_eq!(p.use_count, expected);
    }
}

#[test]
fn auth_config_conversions() {
    assert!(!AuthConfig::password_prompt().stores_sensitive_data());
    assert!(
        AuthConfig::Password { password: Some("secret".to_string()) }.stores_sensitive_data()
    );
    assert!(!AuthConfig::agent().stores_sensitive_data());

    assert!(AuthConfig::password_prompt().to_auth_method(None).is_none());
    assert!(AuthConfig::password_prompt().to_auth_method(Some("pw")).is_some());
    assert!(AuthConfig::public_key("/k".to_string(), false).to_auth_method(None).is_some());
    assert!(AuthConfig::agent().to_auth_method(None).is_some());
}

#[test]
fn profile_catalog_rules() {
    let mut catalog = ProfileCatalog::new();
    assert_eq!(catalog.len(), 0);
    assert!(catalog.add(profile("a", "h1", "u")).is_ok());
    assert!(catalog.add(profile("b", "h2", "u")).is_ok());
    assert!(catalog.add(profile("a", "h3", "u")).is_err());
    assert_eq!(catalog.len(), 2);

    assert!(catalog.find("a").is_some());
    assert!(catalog.find("c").is_none());

    let removed = catalog.remove("a").unwrap();
    assert_eq!(removed.host, "h1");
    assert!(catalog.remove("a").is_err());
    assert_eq!(catalog.len(), 1);

    let rebuilt = ProfileCatalog::from_profiles(catalog.list().clone());
    assert!(rebuilt.is_ok());
    let dup = ProfileCatalog::from_profiles(vec![
        profile("x", "h", "u"),
        profile("x", "h", "u"),
    ]);
    assert!(dup.is_err());
}
