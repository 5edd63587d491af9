use file_cdn::auth::{generate_token, hash_password, verify_password};
use file_cdn::errors::ApiError;
use file_cdn::models::{LoginUser, RegisterUser, UploadPayload};
use file_cdn::service::{
    get_user_files, login_user, make_file_public, register_user, serve_public_file, upload_file,
    Service,
};

fn register(svc: &mut Service, username: &str, email: &str, password: &str) -> String {
    let r = register_user(
        svc,
        RegisterUser {
            username: username.to_string(),
            email: email.to_string(),
            password: password.to_string(),
        },
    );
    r.expect("register should succeed").token
}

fn upload(svc: &mut Service, token: &String, filename: &str, data: &[u8]) -> file_cdn::models::File {
    upload_file(
        svc,
        Some(token),
        Some(UploadPayload { filename: filename.to_string(), data: data.to_vec() }),
    )
    .expect("upload should succeed")
}

#[test]
fn register_issues_token_that_authenticates() {
    let mut svc = Service::new();
    let token = register(&mut svc, "alice", "a@x.com", "pw1");
    assert_eq!(token.len(), 32);
    let files = get_user_files(&svc, Some(&token)).expect("token should authenticate");
    assert!(files.is_empty());
}

#[test]
fn register_succeeds_exactly_once_per_username() {
    let mut svc = Service::new();
    let _ = register(&mut svc, "alice", "a@x.com", "pw1");
    let again = register_user(
        &mut svc,
        RegisterUser {
            username: "alice".to_string(),
            email: "other@x.com".to_string(),
            password: "pw2".to_string(),
        },
    );
    assert_eq!(again.unwrap_err(), ApiError::Conflict);
    assert_eq!(svc.catalog.users.len(), 1);
}

#[test]
fn register_rejects_taken_email() {
    let mut svc = Service::new();
    let _ = register(&mut svc, "alice", "a@x.com", "pw1");
    let again = register_user(
        &mut svc,
        RegisterUser {
            username: "bob".to_string(),
            email: "a@x.com".to_string(),
            password: "pw2".to_string(),
        },
    );
    assert_eq!(again.unwrap_err(), ApiError::Conflict);
}

#[test]
fn login_with_correct_password_authenticates_to_same_user() {
    let mut svc = Service::new();
    let _ = register(&mut svc, "alice", "a@x.com", "pw1");
    let token = login_user(
        &mut svc,
        LoginUser { username: "alice".to_string(), password: "pw1".to_string() },
    )
    .expect("login should succeed")
    .token;
    let f = upload(&mut svc, &token, "a.txt", b"hi");
    assert_eq!(f.user_id, svc.catalog.users[0].id);
}

#[test]
fn login_failures_are_indistinguishable() {
    let mut svc = Service::new();
    let _ = register(&mut svc, "alice", "a@x.com", "pw1");
    let wrong_password = login_user(
        &mut svc,
        LoginUser { username: "alice".to_string(), password: "nope".to_string() },
    )
    .unwrap_err();
    let unknown_user = login_user(
        &mut svc,
        LoginUser { username: "mallory".to_string(), password: "pw1".to_string() },
    )
    .unwrap_err();
    assert_eq!(wrong_password, ApiError::Unauthorized);
    assert_eq!(unknown_user, ApiError::Unauthorized);
    assert_eq!(wrong_password, unknown_user);
}

#[test]
fn listing_never_includes_another_users_files() {
    let mut svc = Service::new();
    let token_a = register(&mut svc, "alice", "a@x.com", "pw1");
    let token_b = register(&mut svc, "bob", "b@x.com", "pw2");
    let file_a = upload(&mut svc, &token_a, "a.txt", b"alpha");
    let _file_b = upload(&mut svc, &token_b, "b.txt", b"beta");
    let listing_b = get_user_files(&svc, Some(&token_b)).unwrap();
    assert_eq!(listing_b.len(), 1);
    assert_eq!(listing_b[0].filename, "b.txt");
    assert!(listing_b.iter().all(|f| f.id != file_a.id));
}

#[test]
fn publish_of_foreign_or_missing_file_reports_identical_not_found() {
    let mut svc = Service::new();
    let token_a = register(&mut svc, "alice", "a@x.com", "pw1");
    let token_b = register(&mut svc, "bob", "b@x.com", "pw2");
    let file_a = upload(&mut svc, &token_a, "a.txt", b"alpha");
    let foreign = make_file_public(&mut svc, Some(&token_b), &file_a.id).unwrap_err();
    let missing = make_file_public(&mut svc, Some(&token_b), &"no-such-id".to_string())
        .unwrap_err();
    assert_eq!(foreign, ApiError::NotFound);
    assert_eq!(missing, ApiError::NotFound);
    assert_eq!(foreign, missing);
    // nothing changed: the file is still private
    assert!(!svc.catalog.files[0].is_public);
}

#[test]
fn upload_publish_read_round_trip_is_byte_identical() {
    let mut svc = Service::new();
    let token = register(&mut svc, "alice", "a@x.com", "pw1");
    let content: Vec<u8> = vec![0u8, 1, 2, 3, 255, 254, 100];
    let f = upload(&mut svc, &token, "blob.bin", &content);
    let _ = make_file_public(&mut svc, Some(&token), &f.id).unwrap();
    let served = serve_public_file(&svc, &f.id).unwrap();
    assert_eq!(served.content, content);
}

#[test]
fn public_read_needs_no_token_and_private_read_is_not_found() {
    let mut svc = Service::new();
    let token = register(&mut svc, "alice", "a@x.com", "pw1");
    let f = upload(&mut svc, &token, "a.txt", b"hello");
    // before publish, the public path reports NotFound
    assert_eq!(serve_public_file(&svc, &f.id).unwrap_err(), ApiError::NotFound);
    let published = make_file_public(&mut svc, Some(&token), &f.id).unwrap();
    assert!(published.is_public);
    assert_eq!(published.public_url.as_deref(), Some(format!("/public/{}", f.id).as_str()));
    // serve_public_file takes no token at all: any caller may read
    let served = serve_public_file(&svc, &f.id).unwrap();
    assert_eq!(served.content, b"hello".to_vec());
    assert_eq!(served.content_type, "text/plain");
}

#[test]
fn full_scenario() {
    let mut svc = Service::new();
    let t1 = register(&mut svc, "alice", "a@x.com", "pw1");
    let r1 = upload(&mut svc, &t1, "a.txt", b"hello");
    assert!(!r1.is_public);
    assert!(r1.public_url.is_none());
    let listing = get_user_files(&svc, Some(&t1)).unwrap();
    assert_eq!(listing.len(), 1);
    assert_eq!(listing[0].id, r1.id);
    assert_eq!(listing[0].filename, "a.txt");
    // raw public read before publish: not found
    assert_eq!(serve_public_file(&svc, &r1.id).unwrap_err(), ApiError::NotFound);
    let r1_published = make_file_public(&mut svc, Some(&t1), &r1.id).unwrap();
    assert!(r1_published.is_public);
    assert!(r1_published.public_url.is_some());
    let served = serve_public_file(&svc, &r1.id).unwrap();
    assert_eq!(served.content, b"hello".to_vec());
}

#[test]
fn upload_without_token_or_payload_is_rejected() {
    let mut svc = Service::new();
    let token = register(&mut svc, "alice", "a@x.com", "pw1");
    let missing_token = upload_file(
        &mut svc,
        None,
        Some(UploadPayload { filename: "a.txt".to_string(), data: b"x".to_vec() }),
    );
    assert_eq!(missing_token.unwrap_err(), ApiError::Unauthorized);
    let bad_token = upload_file(
        &mut svc,
        Some(&"not-a-token".to_string()),
        Some(UploadPayload { filename: "a.txt".to_string(), data: b"x".to_vec() }),
    );
    assert_eq!(bad_token.unwrap_err(), ApiError::Unauthorized);
    let no_payload = upload_file(&mut svc, Some(&token), None);
    assert_eq!(no_payload.unwrap_err(), ApiError::BadRequest);
    assert!(svc.catalog.files.is_empty());
}

#[test]
fn listing_requires_a_valid_token() {
    let svc = Service::new();
    assert_eq!(get_user_files(&svc, None).unwrap_err(), ApiError::Unauthorized);
    assert_eq!(
        get_user_files(&svc, Some(&"ghost".to_string())).unwrap_err(),
        ApiError::Unauthorized
    );
}

#[test]
fn reupload_of_same_filename_wins_at_the_same_path() {
    let mut svc = Service::new();
    let token = register(&mut svc, "alice", "a@x.com", "pw1");
    let first = upload(&mut svc, &token, "a.txt", b"old");
    let second = upload(&mut svc, &token, "a.txt", b"new");
    assert_eq!(first.file_path, second.file_path);
    let _ = make_file_public(&mut svc, Some(&token), &first.id).unwrap();
    let served = serve_public_file(&svc, &first.id).unwrap();
    // both records share one storage path; the last write to it wins
    assert_eq!(served.content, b"new".to_vec());
}

#[test]
fn password_hashing_verifies_and_fails_closed() {
    let digest = hash_password("secret").expect("hashing should succeed");
    assert!(verify_password("secret", &digest));
    assert!(!verify_password("other", &digest));
    // malformed digest: no panic, just false
    assert!(!verify_password("secret", "not-a-digest"));
    assert!(!verify_password("secret", ""));
}

#[test]
fn generated_tokens_are_long_alphanumeric_and_distinct() {
    let a = generate_token();
    let b = generate_token();
    assert_eq!(a.len(), 32);
    assert_eq!(b.len(), 32);
    assert!(a.chars().all(|c| c.is_ascii_alphanumeric()));
    assert_ne!(a, b);
}
