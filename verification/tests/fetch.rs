use image_gateway::config::AppConfig;
use image_gateway::handlers::{find_image, GatewayError, BUCKET_NAME};
use image_gateway::util::{AuthError, Role};

#[test]
fn fetching_a_missing_key_is_not_found() {
    let r = find_image("never-uploaded.png", None);
    assert_eq!(r.map(|_| ()), Err(GatewayError::NotFound));
}

#[test]
fn fetched_objects_carry_the_resolved_content_type() {
    let body = b"GIF89a".to_vec();
    let img = find_image("anim.GIF", Some(body.clone())).expect("present object must be served");
    assert_eq!(img.content_type, "image/gif");
    assert_eq!(img.bytes, body);

    let img = find_image("unknown.bin", Some(b"x".to_vec())).expect("served");
    assert_eq!(img.content_type, "application/octet-stream");
}

#[test]
fn status_codes_per_failure_class() {
    assert_eq!(GatewayError::AuthInvalid.status_code(), 400);
    assert_eq!(GatewayError::Forbidden.status_code(), 403);
    assert_eq!(GatewayError::DecodeFailure.status_code(), 400);
    assert_eq!(GatewayError::ValidationFailure.status_code(), 400);
    assert_eq!(GatewayError::BackendFailure.status_code(), 500);
    assert_eq!(GatewayError::NotFound.status_code(), 404);
}

#[test]
fn failure_messages_are_human_readable() {
    assert_eq!(GatewayError::AuthInvalid.message(), "Invalid token");
    assert_eq!(GatewayError::Forbidden.message(), "forbidden");
    assert_eq!(GatewayError::NotFound.message(), "image not found");
    assert!(!GatewayError::ValidationFailure.message().is_empty());
    assert!(!GatewayError::DecodeFailure.message().is_empty());
    assert!(!GatewayError::BackendFailure.message().is_empty());
}

#[test]
fn auth_error_shape() {
    assert_eq!(AuthError::InvalidToken.status_code(), 400);
    assert_eq!(AuthError::InvalidToken.message(), "Invalid token");
}

#[test]
fn roles_allowed_to_upload() {
    assert!(Role::Admin.may_upload());
    assert!(Role::AdminStock.may_upload());
    assert!(!Role::AdminCashier.may_upload());
}

#[test]
fn bucket_is_fixed() {
    assert_eq!(BUCKET_NAME, "products");
}

#[test]
fn config_carries_its_values() {
    let c = AppConfig::new(
        "SECRET-REDACTED".to_owned(),
        "http://localhost:9000".to_owned(),
        "minio-user".to_owned(),
        "SECRET-REDACTED".to_owned(),
    );
    assert_eq!(c.jwt_secret, "SECRET-REDACTED");
    assert_eq!(c.minio_url, "http://localhost:9000");
    assert_eq!(c.minio_access_key, "minio-user");
    assert_eq!(c.minio_secret_key, "SECRET-REDACTED");
}
