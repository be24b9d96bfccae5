use activity_inbox::images::{
    full_res_url, image_delete_url, image_original_url, image_upload_url, pictrs_url,
    relay_action, strip_hop_headers, strip_response_headers, ImagesError, RelayAction,
};
use activity_inbox::settings::{DatabaseConfig, PictrsConfig, Settings, SetupConfig};

#[test]
fn pictrs_url_hands_the_configured_base_through() {
    let r = pictrs_url(Some("http://pictrs:8080".to_string()));
    assert_eq!(r, Ok("http://pictrs:8080".to_string()));
}

#[test]
fn pictrs_url_without_configuration_means_images_disabled() {
    assert_eq!(pictrs_url(None), Err(ImagesError::ImagesDisabled));
}

#[test]
fn upload_url_is_the_image_endpoint() {
    assert_eq!(image_upload_url("http://pictrs:8080"), "http://pictrs:8080/image");
}

#[test]
fn plain_view_serves_the_original() {
    assert_eq!(
        full_res_url("http://pictrs:8080", "abc.png", None, None),
        "http://pictrs:8080/image/original/abc.png"
    );
    assert_eq!(
        image_original_url("http://pictrs:8080", "abc.png"),
        "http://pictrs:8080/image/original/abc.png"
    );
}

#[test]
fn view_with_parameters_processes_the_image() {
    assert_eq!(
        full_res_url(
            "http://pictrs:8080",
            "abc.png",
            Some("webp".to_string()),
            Some("256".to_string())
        ),
        "http://pictrs:8080/image/process.webp?src=abc.png&thumbnail=256"
    );
}

#[test]
fn view_with_thumbnail_only_defaults_to_jpg() {
    assert_eq!(
        full_res_url("http://pictrs:8080", "abc.png", None, Some("128".to_string())),
        "http://pictrs:8080/image/process.jpg?src=abc.png&thumbnail=128"
    );
}

#[test]
fn delete_url_names_token_and_file() {
    assert_eq!(
        image_delete_url("http://pictrs:8080", "tok123", "abc.png"),
        "http://pictrs:8080/image/delete/tok123/abc.png"
    );
}

#[test]
fn forwarded_requests_lose_hop_headers_only() {
    let headers = vec![
        ("accept-encoding".to_string(), "gzip".to_string()),
        ("x-real-ip".to_string(), "10.0.0.1".to_string()),
        ("host".to_string(), "example.com".to_string()),
        ("accept".to_string(), "image/png".to_string()),
    ];
    let kept = strip_hop_headers(headers);
    assert_eq!(
        kept,
        vec![
            ("x-real-ip".to_string(), "10.0.0.1".to_string()),
            ("accept".to_string(), "image/png".to_string()),
        ]
    );
}

#[test]
fn mirrored_responses_lose_the_connection_header_only() {
    let headers = vec![
        ("content-type".to_string(), "image/png".to_string()),
        ("connection".to_string(), "keep-alive".to_string()),
        ("content-length".to_string(), "17".to_string()),
    ];
    let kept = strip_response_headers(headers);
    assert_eq!(
        kept,
        vec![
            ("content-type".to_string(), "image/png".to_string()),
            ("content-length".to_string(), "17".to_string()),
        ]
    );
}

#[test]
fn a_missing_upstream_image_is_answered_not_found_and_all_else_mirrored() {
    assert_eq!(relay_action(404), RelayAction::NotFoundOnly);
    assert_eq!(relay_action(200), RelayAction::Mirror);
    assert_eq!(relay_action(500), RelayAction::Mirror);
}

#[test]
fn database_config_defaults_to_local_postgres() {
    let d = DatabaseConfig::default();
    assert_eq!(d.user, "lemmy");
    assert_eq!(d.password, "password");
    assert_eq!(d.host, "localhost");
    assert_eq!(d.port, 5432);
    assert_eq!(d.database, "lemmy");
    assert_eq!(d.pool_size, 5);
}

#[test]
fn setup_config_starts_empty_and_checks_password_length() {
    let s = SetupConfig::default();
    assert_eq!(s.admin_username, "");
    assert!(s.admin_email.is_none());
    assert!(!s.admin_password_long_enough());
    let filled = SetupConfig {
        admin_username: "admin".to_string(),
        admin_password: "tf6HHDS4RolWfFhk4Rq9".to_string(),
        site_name: "My Instance".to_string(),
        admin_email: None,
    };
    assert!(filled.admin_password_long_enough());
}

#[test]
fn settings_default_serves_federation_over_tls() {
    let s = Settings::default();
    assert_eq!(s.hostname, "unset");
    assert_eq!(s.bind, "0.0.0.0");
    assert_eq!(s.port, 8536);
    assert!(s.tls_enabled);
    assert_eq!(s.pictrs.unwrap().url, "http://pictrs:8080");
    assert!(s.setup.is_none());
    assert!(s.opentelemetry_url.is_none());
    assert_eq!(s.database.pool_size, 5);
}
