use image_gateway::handlers::{
    find_image, upload_image, upload_outcome, GatewayError, Part, UploadDecision, UploadPolicy,
};
use image_gateway::util::{AuthError, Claims, File, Role};

fn admin_claims(role: Role) -> Claims {
    Claims { sub: "user-1".to_owned(), exp: 2_000_000_000, iat: 1_000_000_000, role }
}

fn meta(value: &str) -> Part {
    Part::Text { name: "product_id".to_owned(), value: value.to_owned() }
}

fn payload(bytes: &[u8]) -> Part {
    Part::Binary { name: "file".to_owned(), data: bytes.to_vec() }
}

fn restricted() -> UploadPolicy {
    UploadPolicy { restrict_extensions: true }
}

fn open_policy() -> UploadPolicy {
    UploadPolicy { restrict_extensions: false }
}

#[test]
fn admin_upload_then_fetch_round_trip() {
    let bytes: Vec<u8> = b"17 bytes of image".to_vec();
    assert_eq!(bytes.len(), 17);
    let parts = vec![meta("ce8fa930-fe2d-4ad1-9966-8eb3c3826444.jpeg"), payload(&bytes)];
    let d = upload_image(Ok(admin_claims(Role::Admin)), &parts, false, &restricted());
    match d {
        UploadDecision::Store { key, payload } => {
            assert_eq!(key, "ce8fa930-fe2d-4ad1-9966-8eb3c3826444.jpeg");
            assert_eq!(payload, bytes);
            let fetched = find_image(&key, Some(payload)).expect("stored object must be served");
            assert_eq!(fetched.bytes, bytes);
            assert_eq!(fetched.content_type, "image/jpeg");
        }
        UploadDecision::Reject { error } => panic!("valid upload rejected: {:?}", error),
    }
}

#[test]
fn admin_stock_may_upload_too() {
    let parts = vec![meta("p.png"), payload(b"x")];
    let d = upload_image(Ok(admin_claims(Role::AdminStock)), &parts, false, &restricted());
    assert!(matches!(d, UploadDecision::Store { .. }));
}

#[test]
fn metadata_without_dot_fails_validation() {
    let parts = vec![meta("badname"), payload(b"data")];
    let d = upload_image(Ok(admin_claims(Role::Admin)), &parts, false, &restricted());
    assert!(matches!(d, UploadDecision::Reject { error: GatewayError::ValidationFailure }));
}

#[test]
fn empty_payload_fails_validation() {
    let parts = vec![meta("p.png")];
    let d = upload_image(Ok(admin_claims(Role::Admin)), &parts, false, &restricted());
    assert!(matches!(d, UploadDecision::Reject { error: GatewayError::ValidationFailure }));

    let parts = vec![meta("p.png"), payload(b"")];
    let d = upload_image(Ok(admin_claims(Role::Admin)), &parts, false, &restricted());
    assert!(matches!(d, UploadDecision::Reject { error: GatewayError::ValidationFailure }));
}

#[test]
fn empty_name_fails_validation() {
    let parts = vec![meta(".png"), payload(b"data")];
    let d = upload_image(Ok(admin_claims(Role::Admin)), &parts, false, &restricted());
    assert!(matches!(d, UploadDecision::Reject { error: GatewayError::ValidationFailure }));
}

#[test]
fn disallowed_extension_fails_validation() {
    let parts = vec![meta("prog.exe"), payload(b"MZ")];
    let d = upload_image(Ok(admin_claims(Role::Admin)), &parts, false, &restricted());
    assert!(matches!(d, UploadDecision::Reject { error: GatewayError::ValidationFailure }));
}

#[test]
fn open_policy_accepts_other_extensions() {
    let parts = vec![meta("pic.webp"), payload(b"RIFF")];
    let d = upload_image(Ok(admin_claims(Role::Admin)), &parts, false, &open_policy());
    match d {
        UploadDecision::Store { key, .. } => assert_eq!(key, "pic.webp"),
        UploadDecision::Reject { error } => panic!("open policy rejected: {:?}", error),
    }
}

#[test]
fn path_traversal_keys_are_rejected() {
    for value in ["../evil.png", "a/b.png", "a\\b.png", "..png", "evil..png", "a\nb.png", "a\x7fb.png"] {
        let parts = vec![meta(value), payload(b"data")];
        let d = upload_image(Ok(admin_claims(Role::Admin)), &parts, false, &open_policy());
        assert!(
            matches!(d, UploadDecision::Reject { error: GatewayError::ValidationFailure }),
            "value {:?} must be rejected",
            value
        );
    }
}

#[test]
fn missing_token_is_auth_invalid() {
    let parts = vec![meta("p.png"), payload(b"data")];
    let d = upload_image(Err(AuthError::InvalidToken), &parts, false, &restricted());
    assert!(matches!(d, UploadDecision::Reject { error: GatewayError::AuthInvalid }));
}

#[test]
fn cashier_role_is_forbidden() {
    let parts = vec![meta("p.png"), payload(b"data")];
    let d = upload_image(Ok(admin_claims(Role::AdminCashier)), &parts, false, &restricted());
    assert!(matches!(d, UploadDecision::Reject { error: GatewayError::Forbidden }));
}

#[test]
fn malformed_body_is_a_decode_failure() {
    let parts = vec![meta("p.png")];
    let d = upload_image(Ok(admin_claims(Role::Admin)), &parts, true, &restricted());
    assert!(matches!(d, UploadDecision::Reject { error: GatewayError::DecodeFailure }));
}

#[test]
fn payload_chunks_are_concatenated() {
    let parts = vec![meta("p.png"), payload(b"first-"), payload(b"second")];
    let d = upload_image(Ok(admin_claims(Role::Admin)), &parts, false, &restricted());
    match d {
        UploadDecision::Store { key, payload } => {
            assert_eq!(key, "p.png");
            assert_eq!(payload, b"first-second".to_vec());
        }
        UploadDecision::Reject { error } => panic!("rejected: {:?}", error),
    }
}

#[test]
fn unknown_fields_are_ignored() {
    let parts = vec![
        Part::Text { name: "comment".to_owned(), value: "ignored".to_owned() },
        meta("p.png"),
        Part::Binary { name: "junk".to_owned(), data: b"zzz".to_vec() },
        payload(b"data"),
    ];
    let d = upload_image(Ok(admin_claims(Role::Admin)), &parts, false, &restricted());
    match d {
        UploadDecision::Store { key, payload } => {
            assert_eq!(key, "p.png");
            assert_eq!(payload, b"data".to_vec());
        }
        UploadDecision::Reject { error } => panic!("rejected: {:?}", error),
    }
}

#[test]
fn later_metadata_overwrites_earlier() {
    let parts = vec![meta("first.png"), meta("second.jpg"), payload(b"data")];
    let d = upload_image(Ok(admin_claims(Role::Admin)), &parts, false, &restricted());
    match d {
        UploadDecision::Store { key, .. } => assert_eq!(key, "second.jpg"),
        UploadDecision::Reject { error } => panic!("rejected: {:?}", error),
    }
}

#[test]
fn no_decision_means_no_write() {
    // The spy collaborator: writes happen only when the decision says Store,
    // so counting writes is counting Store decisions.
    let mut writes: Vec<(String, Vec<u8>)> = Vec::new();
    for (auth, value) in [
        (Err(AuthError::InvalidToken), "p.png"),
        (Ok(admin_claims(Role::AdminCashier)), "p.png"),
        (Ok(admin_claims(Role::Admin)), "badname"),
        (Ok(admin_claims(Role::Admin)), "prog.exe"),
    ] {
        let parts = vec![meta(value), payload(b"data")];
        if let UploadDecision::Store { key, payload } =
            upload_image(auth, &parts, false, &restricted())
        {
            writes.push((key, payload));
        }
    }
    assert_eq!(writes.len(), 0);
}

#[test]
fn upload_store_fetch_against_a_spy_store() {
    // A spy collaborator: an in-memory store recording every write.
    let mut store: std::collections::HashMap<String, Vec<u8>> = std::collections::HashMap::new();
    let mut write_calls: usize = 0;

    let body: Vec<u8> = b"\x89PNG\r\n".to_vec();
    let parts = vec![meta("cover.png"), payload(&body)];
    let d = upload_image(Ok(admin_claims(Role::Admin)), &parts, false, &restricted());
    let stored_key = match d {
        UploadDecision::Store { key, payload } => {
            store.insert(key.clone(), payload);
            write_calls += 1;
            key
        }
        UploadDecision::Reject { error } => panic!("rejected: {:?}", error),
    };
    assert_eq!(write_calls, 1);

    let fetched = find_image(&stored_key, store.get(&stored_key).cloned())
        .expect("stored key must be served");
    assert_eq!(fetched.bytes, body);
    assert_eq!(fetched.content_type, "image/png");

    let missing = find_image("other.png", store.get("other.png").cloned());
    assert!(matches!(missing, Err(GatewayError::NotFound)));
}

#[test]
fn same_key_twice_last_write_wins_at_the_store() {
    // Two uploads naming the same key: the core makes no ordering promise,
    // the store's per-key consistency decides; here the second write lands
    // last and is what a later fetch sees.
    let mut store: std::collections::HashMap<String, Vec<u8>> = std::collections::HashMap::new();
    for body in [b"one".to_vec(), b"two".to_vec()] {
        let parts = vec![meta("same.png"), payload(&body)];
        match upload_image(Ok(admin_claims(Role::Admin)), &parts, false, &restricted()) {
            UploadDecision::Store { key, payload } => {
                store.insert(key, payload);
            }
            UploadDecision::Reject { error } => panic!("rejected: {:?}", error),
        }
    }
    let fetched = find_image("same.png", store.get("same.png").cloned()).expect("served");
    assert_eq!(fetched.bytes, b"two".to_vec());
}

#[test]
fn non_ascii_names_are_handled() {
    let parts = vec![meta("café déco.png"), payload(b"data")];
    let d = upload_image(Ok(admin_claims(Role::Admin)), &parts, false, &restricted());
    match d {
        UploadDecision::Store { key, payload } => {
            assert_eq!(key, "café déco.png");
            assert_eq!(payload, b"data".to_vec());
            let fetched = find_image(&key, Some(payload)).expect("served");
            assert_eq!(fetched.content_type, "image/png");
        }
        UploadDecision::Reject { error } => panic!("rejected: {:?}", error),
    }
}

#[test]
fn upload_outcome_classifies_the_write() {
    assert_eq!(upload_outcome("p.png".to_owned(), true), Ok("p.png".to_owned()));
    assert_eq!(upload_outcome("p.png".to_owned(), false), Err(GatewayError::BackendFailure));
}

#[test]
fn file_accumulator_behaviour() {
    let mut f = File::new();
    assert!(!f.is_complete());
    f.file_name("p".to_owned());
    f.ext(".png".to_owned());
    assert!(!f.is_complete());
    f.bytes(b"ab");
    f.bytes(b"cd");
    assert!(f.is_complete());
    assert_eq!(f.file_name, "p");
    assert_eq!(f.ext, ".png");
    assert_eq!(f.bytes, b"abcd".to_vec());
}
