use file_cdn::auth::{create_auth_token, verify_auth_token};
use file_cdn::catalog::Catalog;
use file_cdn::errors::ApiError;
use file_cdn::models::{NewFile, NewUser};
use file_cdn::storage::Storage;
use file_cdn::util::{fresh_id, guess_mime, now_millis, public_url_for, storage_path_for};

fn new_user(username: &str, email: &str) -> NewUser {
    NewUser {
        username: username.to_string(),
        email: email.to_string(),
        password_hash: "digest".to_string(),
    }
}

#[test]
fn insert_user_enforces_all_three_uniqueness_keys() {
    let mut catalog = Catalog::new();
    let now = now_millis();
    catalog.insert_user("u1".to_string(), new_user("alice", "a@x.com"), now).unwrap();
    let same_id = catalog.insert_user("u1".to_string(), new_user("bob", "b@x.com"), now);
    assert_eq!(same_id.unwrap_err(), ApiError::Conflict);
    let same_name = catalog.insert_user("u2".to_string(), new_user("alice", "c@x.com"), now);
    assert_eq!(same_name.unwrap_err(), ApiError::Conflict);
    let same_email = catalog.insert_user("u2".to_string(), new_user("carol", "a@x.com"), now);
    assert_eq!(same_email.unwrap_err(), ApiError::Conflict);
    assert_eq!(catalog.users.len(), 1);
}

#[test]
fn token_rows_resolve_and_collisions_are_internal() {
    let mut catalog = Catalog::new();
    let now = now_millis();
    catalog.insert_user("u1".to_string(), new_user("alice", "a@x.com"), now).unwrap();
    catalog.insert_token("tok".to_string(), "u1".to_string(), now).unwrap();
    assert_eq!(catalog.token_owner(&"tok".to_string()), Some("u1".to_string()));
    assert_eq!(catalog.token_owner(&"other".to_string()), None);
    let collision = catalog.insert_token("tok".to_string(), "u1".to_string(), now);
    assert_eq!(collision.unwrap_err(), ApiError::Internal);
    assert_eq!(catalog.tokens.len(), 1);
}

#[test]
fn files_are_inserted_private_at_the_derived_path() {
    let mut catalog = Catalog::new();
    let now = now_millis();
    catalog.insert_user("u1".to_string(), new_user("alice", "a@x.com"), now).unwrap();
    let nf = NewFile {
        user_id: "u1".to_string(),
        filename: "a.txt".to_string(),
        file_path: storage_path_for(&"u1".to_string(), &"a.txt".to_string()),
        is_public: false,
        public_url: None,
    };
    let f = catalog.insert_file("f1".to_string(), nf, now).unwrap();
    assert_eq!(f.file_path, "files/u1/a.txt");
    assert!(!f.is_public);
    assert!(f.public_url.is_none());
    assert_eq!(catalog.resolve_public(&"f1".to_string()).unwrap_err(), ApiError::NotFound);
    let published = catalog.publish(&"f1".to_string(), &"u1".to_string()).unwrap();
    assert_eq!(published.public_url.as_deref(), Some("/public/f1"));
    assert_eq!(catalog.resolve_public(&"f1".to_string()).unwrap(), "files/u1/a.txt");
}

#[test]
fn issued_tokens_verify_to_their_user() {
    let mut catalog = Catalog::new();
    let now = now_millis();
    catalog.insert_user("u1".to_string(), new_user("alice", "a@x.com"), now).unwrap();
    let issued = create_auth_token(&mut catalog, &"u1".to_string()).unwrap();
    assert_eq!(issued.token.len(), 32);
    assert!(issued.token.chars().all(|c| c.is_ascii_alphanumeric()));
    assert_eq!(verify_auth_token(&catalog, &issued.token).unwrap(), "u1");
    let absent = verify_auth_token(&catalog, &"never-issued".to_string());
    assert_eq!(absent.unwrap_err(), ApiError::Unauthorized);
}

#[test]
fn storage_read_returns_the_last_write() {
    let mut storage = Storage::new();
    assert_eq!(storage.read(&"p".to_string()), None);
    storage.write("p".to_string(), b"one".to_vec());
    storage.write("q".to_string(), b"other".to_vec());
    assert_eq!(storage.read(&"p".to_string()), Some(b"one".to_vec()));
    storage.write("p".to_string(), b"two".to_vec());
    assert_eq!(storage.read(&"p".to_string()), Some(b"two".to_vec()));
    assert_eq!(storage.read(&"q".to_string()), Some(b"other".to_vec()));
}

#[test]
fn derived_locations_are_exact() {
    assert_eq!(storage_path_for(&"uid".to_string(), &"name.txt".to_string()), "files/uid/name.txt");
    assert_eq!(public_url_for(&"fid".to_string()), "/public/fid");
}

#[test]
fn fresh_ids_are_hyphenated_and_distinct() {
    let a = fresh_id();
    let b = fresh_id();
    assert_eq!(a.len(), 36);
    assert_ne!(a, b);
}

#[test]
fn content_type_is_inferred_from_the_path() {
    assert_eq!(guess_mime("files/u/a.txt"), "text/plain");
    assert_eq!(guess_mime("files/u/a.html"), "text/html");
    assert_eq!(guess_mime("files/u/a.unknownext"), "application/octet-stream");
}

#[test]
fn error_statuses_and_messages() {
    assert_eq!(ApiError::Unauthorized.status_code(), 401);
    assert_eq!(ApiError::Conflict.status_code(), 409);
    assert_eq!(ApiError::NotFound.status_code(), 404);
    assert_eq!(ApiError::BadRequest.status_code(), 400);
    assert_eq!(ApiError::Internal.status_code(), 500);
    assert_eq!(ApiError::NotFound.message(), "File not found");
    assert_eq!(ApiError::Conflict.message(), "User already exists");
}
