//! The records the catalog holds — users, files, auth tokens — together with
//! the request and response shapes of the operations, and the ghost views the
//! contracts are stated over.

use vstd::prelude::*;

verus! {

/// A registered account. Created on register; immutable thereafter.
#[derive(Debug)]
pub struct User {
    /// Opaque unique id.
    pub id: String,
    /// Unique across all users.
    pub username: String,
    /// Unique across all users.
    pub email: String,
    /// Opaque digest; never serialized outward.
    pub password_hash: String,
    /// Milliseconds since the Unix epoch.
    pub created_at: i64,
    pub updated_at: i64,
}

/// Ghost view of a [`User`].
pub ghost struct UserV {
    pub id: Seq<char>,
    pub username: Seq<char>,
    pub email: Seq<char>,
    pub password_hash: Seq<char>,
    pub created_at: i64,
    pub updated_at: i64,
}

impl View for User {
    type V = UserV;

    open spec fn view(&self) -> UserV {
        UserV {
            id: self.id@,
            username: self.username@,
            email: self.email@,
            password_hash: self.password_hash@,
            created_at: self.created_at,
            updated_at: self.updated_at,
        }
    }
}

impl Clone for User {
    fn clone(&self) -> (other: Self)
        ensures
            other@ == self@,
    {
        User {
            id: self.id.clone(),
            username: self.username.clone(),
            email: self.email.clone(),
            password_hash: self.password_hash.clone(),
            created_at: self.created_at,
            updated_at: self.updated_at,
        }
    }
}

/// The fields a caller supplies when a user row is inserted; the catalog
/// adds identity and timestamps.
#[derive(Debug)]
pub struct NewUser {
    pub username: String,
    pub email: String,
    pub password_hash: String,
}

/// Ghost view of a [`NewUser`].
pub ghost struct NewUserV {
    pub username: Seq<char>,
    pub email: Seq<char>,
    pub password_hash: Seq<char>,
}

impl View for NewUser {
    type V = NewUserV;

    open spec fn view(&self) -> NewUserV {
        NewUserV {
            username: self.username@,
            email: self.email@,
            password_hash: self.password_hash@,
        }
    }
}

/// A stored file's catalog row. Visibility starts `Private`
/// (`is_public == false`, `public_url == None`) and can only move to
/// `Public`, at which point `public_url` is set.
#[derive(Debug)]
pub struct File {
    /// Opaque unique id.
    pub id: String,
    /// Owning user; always references an existing [`User`].
    pub user_id: String,
    /// User-supplied name.
    pub filename: String,
    /// Derived storage location, namespaced by owner; not user-controlled.
    pub file_path: String,
    pub is_public: bool,
    /// `Some` if and only if `is_public`.
    pub public_url: Option<String>,
    pub created_at: i64,
    pub updated_at: i64,
}

/// Ghost view of a [`File`].
pub ghost struct FileV {
    pub id: Seq<char>,
    pub user_id: Seq<char>,
    pub filename: Seq<char>,
    pub file_path: Seq<char>,
    pub is_public: bool,
    pub public_url: Option<Seq<char>>,
    pub created_at: i64,
    pub updated_at: i64,
}

impl View for File {
    type V = FileV;

    open spec fn view(&self) -> FileV {
        FileV {
            id: self.id@,
            user_id: self.user_id@,
            filename: self.filename@,
            file_path: self.file_path@,
            is_public: self.is_public,
            public_url: match self.public_url {
                Some(url) => Some(url@),
                None => None,
            },
            created_at: self.created_at,
            updated_at: self.updated_at,
        }
    }
}

impl Clone for File {
    fn clone(&self) -> (other: Self)
        ensures
            other@ == self@,
    {
        File {
            id: self.id.clone(),
            user_id: self.user_id.clone(),
            filename: self.filename.clone(),
            file_path: self.file_path.clone(),
            is_public: self.is_public,
            public_url: match &self.public_url {
                Some(url) => Some(url.clone()),
                None => None,
            },
            created_at: self.created_at,
            updated_at: self.updated_at,
        }
    }
}

/// The fields a caller supplies when a file row is inserted; the catalog
/// adds identity and timestamps.
#[derive(Debug)]
pub struct NewFile {
    pub user_id: String,
    pub filename: String,
    pub file_path: String,
    pub is_public: bool,
    pub public_url: Option<String>,
}

/// Ghost view of a [`NewFile`].
pub ghost struct NewFileV {
    pub user_id: Seq<char>,
    pub filename: Seq<char>,
    pub file_path: Seq<char>,
    pub is_public: bool,
    pub public_url: Option<Seq<char>>,
}

impl View for NewFile {
    type V = NewFileV;

    open spec fn view(&self) -> NewFileV {
        NewFileV {
            user_id: self.user_id@,
            filename: self.filename@,
            file_path: self.file_path@,
            is_public: self.is_public,
            public_url: match self.public_url {
                Some(url) => Some(url@),
                None => None,
            },
        }
    }
}

/// One issued bearer token: the token string is the key, the owning user id
/// is total for every token that exists. Never mutated, never deleted.
#[derive(Debug)]
pub struct TokenRecord {
    pub token: String,
    pub user_id: String,
    pub created_at: i64,
}

/// Ghost view of a [`TokenRecord`].
pub ghost struct TokenV {
    pub token: Seq<char>,
    pub user_id: Seq<char>,
    pub created_at: i64,
}

impl View for TokenRecord {
    type V = TokenV;

    open spec fn view(&self) -> TokenV {
        TokenV { token: self.token@, user_id: self.user_id@, created_at: self.created_at }
    }
}

/// Register request body: username, email and the clear-text password.
#[derive(Debug)]
pub struct RegisterUser {
    pub username: String,
    pub email: String,
    pub password: String,
}

/// Login request body.
#[derive(Debug)]
pub struct LoginUser {
    pub username: String,
    pub password: String,
}

/// The bearer token handed back by register and login.
#[derive(Debug)]
pub struct AuthToken {
    pub token: String,
}

/// One uploaded part: the client-supplied filename and the payload bytes.
#[derive(Debug)]
pub struct UploadPayload {
    pub filename: String,
    pub data: Vec<u8>,
}

/// What an unauthenticated public read serves: the bytes and the
/// content type inferred from the storage path.
#[derive(Debug)]
pub struct ServedFile {
    pub content: Vec<u8>,
    pub content_type: String,
}

} // verus!
