//! The six operations the service exposes, one per route of the HTTP
//! boundary: register, login, upload, list, publish, public read. Every
//! protected operation authenticates its bearer token before any catalog
//! mutation; every failure commits no visible change, except the accepted
//! orphaned-bytes gap of upload noted at [`upload_file`].

use vstd::prelude::*;

use crate::auth::{create_auth_token, digest_matches, hash_password, token_char,
    verify_auth_token, verify_password};
use crate::catalog::{
    email_taken, file_at, file_index_by_id, file_owned, file_public, lemma_file_owned_at,
    owner_files, publish_catalog, published, token_user, user_id_taken, user_index_by_name,
    user_named, username_taken, wf, Catalog, CatalogV,
};
use crate::errors::ApiError;
use crate::models::{AuthToken, File, FileV, LoginUser, NewFile, NewUser, RegisterUser, ServedFile,
    UploadPayload};
use crate::storage::{lemma_lookup_push, lookup, EntryV, Storage};
use crate::util::{fresh_id, guess_mime, mime_of, now_millis, public_url_view, storage_path_for,
    storage_path_view};

verus! {

/// The whole service state: the catalog and the byte store. The process
/// serializes catalog access behind one lock held outside this crate, so
/// each operation below is one atomic, linearizable step.
pub struct Service {
    pub catalog: Catalog,
    pub storage: Storage,
}

impl Service {
    /// The state at process start-up: empty catalog, empty store.
    pub fn new() -> (s: Service)
        ensures
            wf(s.catalog@),
            s.catalog@.users.len() == 0,
            s.catalog@.files.len() == 0,
            s.catalog@.tokens.len() == 0,
            s@ == Seq::<EntryV>::empty(),
            files_backed(s.catalog@, s@),
    {
        Service { catalog: Catalog::new(), storage: Storage::new() }
    }
}

impl View for Service {
    type V = Seq<EntryV>;

    open spec fn view(&self) -> Seq<EntryV> {
        self.storage@
    }
}

/// The service-level persistence invariant: every catalog file row's storage
/// path holds bytes in the store — a row never references bytes that failed
/// to persist. The empty state has it, and every operation below preserves
/// it, so any state reached through this interface satisfies it.
pub open spec fn files_backed(c: CatalogV, s: Seq<EntryV>) -> bool {
    forall|i: int| 0 <= i < c.files.len() ==> lookup(s, #[trigger] c.files[i].file_path) is Some
}

/// The invariant reads only the file table and the store, so states that
/// agree on those agree on it.
pub proof fn lemma_files_backed_same(c1: CatalogV, s1: Seq<EntryV>, c2: CatalogV, s2: Seq<EntryV>)
    requires
        files_backed(c1, s1),
        c2.files == c1.files,
        s2 == s1,
    ensures
        files_backed(c2, s2),
{
    assert forall|i: int| 0 <= i < c2.files.len() implies lookup(
        s2,
        #[trigger] c2.files[i].file_path,
    ) is Some by {
        assert(c2.files[i] == c1.files[i]);
        assert(lookup(s1, c1.files[i].file_path) is Some);
    }
}

/// A further write never unbacks a row.
pub proof fn lemma_files_backed_more_storage(c: CatalogV, s: Seq<EntryV>, e: EntryV)
    requires
        files_backed(c, s),
    ensures
        files_backed(c, s.push(e)),
{
    assert forall|i: int| 0 <= i < c.files.len() implies lookup(
        s.push(e),
        #[trigger] c.files[i].file_path,
    ) is Some by {
        assert(lookup(s, c.files[i].file_path) is Some);
        lemma_lookup_push(s, e, c.files[i].file_path);
    }
}

/// One upload step keeps every row backed: the old rows by the old writes,
/// the new row by the write just made at its path.
pub proof fn lemma_files_backed_upload(c: CatalogV, s: Seq<EntryV>, f: FileV, e: EntryV)
    requires
        files_backed(c, s),
        e.path == f.file_path,
    ensures
        files_backed(CatalogV { files: c.files.push(f), ..c }, s.push(e)),
{
    let c2 = CatalogV { files: c.files.push(f), ..c };
    let s2 = s.push(e);
    assert forall|i: int| 0 <= i < c2.files.len() implies lookup(
        s2,
        #[trigger] c2.files[i].file_path,
    ) is Some by {
        lemma_lookup_push(s, e, c2.files[i].file_path);
        if i < c.files.len() {
            assert(c2.files[i] == c.files[i]);
            assert(lookup(s, c.files[i].file_path) is Some);
        } else {
            assert(c2.files[i] == f);
        }
    }
}

/// Publishing rewrites no storage path, so every row stays backed.
pub proof fn lemma_files_backed_publish(
    c: CatalogV,
    s: Seq<EntryV>,
    file_id: Seq<char>,
    user_id: Seq<char>,
)
    requires
        wf(c),
        file_owned(c, file_id, user_id),
        files_backed(c, s),
    ensures
        files_backed(publish_catalog(c, file_id), s),
{
    lemma_file_owned_at(c, file_id, user_id);
    let c2 = publish_catalog(c, file_id);
    let idx = file_index_by_id(c, file_id);
    assert forall|i: int| 0 <= i < c2.files.len() implies lookup(
        s,
        #[trigger] c2.files[i].file_path,
    ) is Some by {
        if i == idx {
            assert(c2.files[i].file_path == c.files[i].file_path);
        } else {
            assert(c2.files[i] == c.files[i]);
        }
        assert(lookup(s, c.files[i].file_path) is Some);
    }
}

/// Register: create a user under a fresh identity and hand back a bearer
/// token. A taken username or email reports `Conflict`; an identity or token
/// collision of the random draws, or a hashing failure, reports `Internal`;
/// either way nothing changes.
pub fn register_user(svc: &mut Service, user_data: RegisterUser) -> (r: Result<AuthToken, ApiError>)
    requires
        wf(old(svc).catalog@),
    ensures
        wf(final(svc).catalog@),
        final(svc).storage@ == old(svc).storage@,
        username_taken(old(svc).catalog@, user_data.username@) || email_taken(
            old(svc).catalog@,
            user_data.email@,
        ) ==> r == Err::<AuthToken, ApiError>(ApiError::Conflict),
        r == Err::<AuthToken, ApiError>(ApiError::Conflict) ==> username_taken(
            old(svc).catalog@,
            user_data.username@,
        ) || email_taken(old(svc).catalog@, user_data.email@),
        !username_taken(old(svc).catalog@, user_data.username@) && !email_taken(
            old(svc).catalog@,
            user_data.email@,
        ) ==> r is Ok || r == Err::<AuthToken, ApiError>(ApiError::Internal),
        r is Err ==> final(svc).catalog@ == old(svc).catalog@ && (r == Err::<AuthToken, ApiError>(
            ApiError::Conflict,
        ) || r == Err::<AuthToken, ApiError>(ApiError::Internal)),
        files_backed(old(svc).catalog@, old(svc).storage@) ==> files_backed(
            final(svc).catalog@,
            final(svc).storage@,
        ),
        r matches Ok(at) ==> {
            &&& !username_taken(old(svc).catalog@, user_data.username@)
            &&& !email_taken(old(svc).catalog@, user_data.email@)
            &&& final(svc).catalog@.users.len() == old(svc).catalog@.users.len() + 1
            &&& final(svc).catalog@.users.drop_last() == old(svc).catalog@.users
            &&& final(svc).catalog@.users.last().username == user_data.username@
            &&& final(svc).catalog@.users.last().email == user_data.email@
            &&& digest_matches(
                user_data.password@,
                final(svc).catalog@.users.last().password_hash,
            )
            &&& final(svc).catalog@.files == old(svc).catalog@.files
            &&& final(svc).catalog@.tokens.len() == old(svc).catalog@.tokens.len() + 1
            &&& final(svc).catalog@.tokens.drop_last() == old(svc).catalog@.tokens
            &&& final(svc).catalog@.tokens.last().token == at.token@
            &&& final(svc).catalog@.tokens.last().user_id == final(svc).catalog@.users.last().id
            &&& at.token@.len() == 32
            &&& forall|i: int| 0 <= i < at.token@.len() ==> token_char(#[trigger] at.token@[i])
            &&& token_user(final(svc).catalog@, at.token@) == Some(
                final(svc).catalog@.users.last().id,
            )
        },
{
    if svc.catalog.contains_username(&user_data.username) || svc.catalog.contains_email(
        &user_data.email,
    ) {
        return Err(ApiError::Conflict);
    }
    let password_hash = match hash_password(user_data.password.as_str()) {
        Ok(digest) => digest,
        Err(e) => {
            return Err(e);
        },
    };
    let id = fresh_id();
    let now = now_millis();
    let nu = NewUser { username: user_data.username, email: user_data.email, password_hash };
    let user = match svc.catalog.insert_user(id, nu, now) {
        Ok(user) => user,
        Err(_) => {
            // the username and email were just checked fresh, so the only key
            // that can have collided is the freshly drawn id: not attributable
            // to caller input
            return Err(ApiError::Internal);
        },
    };
    proof {
        assert(svc.catalog@.users.last() == user@);
        assert(svc.catalog@.users.drop_last() =~= old(svc).catalog@.users);
        assert(user_id_taken(svc.catalog@, user@.id)) by {
            assert(svc.catalog@.users[svc.catalog@.users.len() - 1].id == user@.id);
        }
    }
    match create_auth_token(&mut svc.catalog, &user.id) {
        Ok(at) => {
            proof {
                assert(final(svc).catalog@.users.drop_last() =~= old(svc).catalog@.users);
                if files_backed(old(svc).catalog@, old(svc).storage@) {
                    lemma_files_backed_same(
                        old(svc).catalog@,
                        old(svc).storage@,
                        svc.catalog@,
                        svc.storage@,
                    );
                }
            }
            Ok(at)
        },
        Err(e) => {
            // the register step commits no partial change: the user row
            // inserted above is taken back before the failure is reported
            let _ = svc.catalog.users.pop();
            proof {
                assert(svc.catalog@.users =~= old(svc).catalog@.users);
                assert(svc.catalog@.files =~= old(svc).catalog@.files);
                assert(svc.catalog@.tokens =~= old(svc).catalog@.tokens);
                assert(svc.catalog@ =~= old(svc).catalog@);
            }
            Err(e)
        },
    }
}

/// Login: verify the password of the named user and hand back a fresh
/// bearer token that authenticates to that user's id. An unknown username
/// and a wrong password report the same `Unauthorized`; a token collision of
/// the random draw reports `Internal`; either way nothing changes.
pub fn login_user(svc: &mut Service, login_data: LoginUser) -> (r: Result<AuthToken, ApiError>)
    requires
        wf(old(svc).catalog@),
    ensures
        wf(final(svc).catalog@),
        final(svc).storage@ == old(svc).storage@,
        !username_taken(old(svc).catalog@, login_data.username@) ==> r == Err::<
            AuthToken,
            ApiError,
        >(ApiError::Unauthorized),
        username_taken(old(svc).catalog@, login_data.username@) && !digest_matches(
            login_data.password@,
            user_named(old(svc).catalog@, login_data.username@).password_hash,
        ) ==> r == Err::<AuthToken, ApiError>(ApiError::Unauthorized),
        r is Err ==> final(svc).catalog@ == old(svc).catalog@ && (r == Err::<AuthToken, ApiError>(
            ApiError::Unauthorized,
        ) || r == Err::<AuthToken, ApiError>(ApiError::Internal)),
        r == Err::<AuthToken, ApiError>(ApiError::Internal) ==> username_taken(
            old(svc).catalog@,
            login_data.username@,
        ) && digest_matches(
            login_data.password@,
            user_named(old(svc).catalog@, login_data.username@).password_hash,
        ),
        username_taken(old(svc).catalog@, login_data.username@) && digest_matches(
            login_data.password@,
            user_named(old(svc).catalog@, login_data.username@).password_hash,
        ) ==> r is Ok || r == Err::<AuthToken, ApiError>(ApiError::Internal),
        files_backed(old(svc).catalog@, old(svc).storage@) ==> files_backed(
            final(svc).catalog@,
            final(svc).storage@,
        ),
        r matches Ok(at) ==> {
            &&& username_taken(old(svc).catalog@, login_data.username@)
            &&& digest_matches(
                login_data.password@,
                user_named(old(svc).catalog@, login_data.username@).password_hash,
            )
            &&& final(svc).catalog@.users == old(svc).catalog@.users
            &&& final(svc).catalog@.files == old(svc).catalog@.files
            &&& final(svc).catalog@.tokens.len() == old(svc).catalog@.tokens.len() + 1
            &&& final(svc).catalog@.tokens.drop_last() == old(svc).catalog@.tokens
            &&& final(svc).catalog@.tokens.last().token == at.token@
            &&& final(svc).catalog@.tokens.last().user_id == user_named(
                old(svc).catalog@,
                login_data.username@,
            ).id
            &&& at.token@.len() == 32
            &&& forall|i: int| 0 <= i < at.token@.len() ==> token_char(#[trigger] at.token@[i])
            &&& token_user(final(svc).catalog@, at.token@) == Some(
                user_named(old(svc).catalog@, login_data.username@).id,
            )
        },
{
    let (user_id, password_ok) = match svc.catalog.find_user_by_username(&login_data.username) {
        Some(user) => (
            user.id.clone(),
            verify_password(login_data.password.as_str(), user.password_hash.as_str()),
        ),
        None => {
            return Err(ApiError::Unauthorized);
        },
    };
    if !password_ok {
        return Err(ApiError::Unauthorized);
    }
    proof {
        let c = svc.catalog@;
        let idx = user_index_by_name(c, login_data.username@);
        assert(c.users[idx].id == user_id@);
        assert(user_id_taken(c, user_id@));
    }
    let r = create_auth_token(&mut svc.catalog, &user_id);
    proof {
        if files_backed(old(svc).catalog@, old(svc).storage@) {
            lemma_files_backed_same(
                old(svc).catalog@,
                old(svc).storage@,
                svc.catalog@,
                svc.storage@,
            );
        }
    }
    r
}

/// Upload: authenticate, then durably write the payload bytes at the derived
/// storage path before the catalog row is committed. A missing or invalid
/// token reports `Unauthorized` with nothing changed; an authenticated call
/// without a payload reports `BadRequest` with nothing changed. If the
/// random file id collides, `Internal` is reported with no catalog change —
/// the already-written bytes remain, the one accepted inconsistency.
pub fn upload_file(svc: &mut Service, token: Option<&String>, payload: Option<UploadPayload>) -> (r:
    Result<File, ApiError>)
    requires
        wf(old(svc).catalog@),
    ensures
        wf(final(svc).catalog@),
        r is Err ==> final(svc).catalog@ == old(svc).catalog@,
        token is None ==> r == Err::<File, ApiError>(ApiError::Unauthorized) && final(svc).storage@
            == old(svc).storage@,
        token matches Some(t) && token_user(old(svc).catalog@, t@) is None ==> r == Err::<
            File,
            ApiError,
        >(ApiError::Unauthorized) && final(svc).storage@ == old(svc).storage@,
        token matches Some(t) && token_user(old(svc).catalog@, t@) is Some && payload is None ==> r
            == Err::<File, ApiError>(ApiError::BadRequest) && final(svc).storage@ == old(
            svc,
        ).storage@,
        r is Err ==> r == Err::<File, ApiError>(ApiError::Unauthorized) || r == Err::<
            File,
            ApiError,
        >(ApiError::BadRequest) || r == Err::<File, ApiError>(ApiError::Internal),
        (token matches Some(t) && token_user(old(svc).catalog@, t@) is Some && payload is Some)
            ==> r is Ok || r == Err::<File, ApiError>(ApiError::Internal),
        files_backed(old(svc).catalog@, old(svc).storage@) ==> files_backed(
            final(svc).catalog@,
            final(svc).storage@,
        ),
        r == Err::<File, ApiError>(ApiError::Internal) ==> (token matches Some(t)
            && payload matches Some(p) && token_user(old(svc).catalog@, t@) is Some
            && final(svc).storage@ == old(svc).storage@.push(
            EntryV {
                path: storage_path_view(token_user(old(svc).catalog@, t@).unwrap(), p.filename@),
                data: p.data@,
            },
        )),
        r matches Ok(f) ==> token matches Some(t) && payload matches Some(p) && {
            &&& token_user(old(svc).catalog@, t@) == Some(f@.user_id)
            &&& {
                &&& f@.filename == p.filename@
                &&& f@.file_path == storage_path_view(f@.user_id, p.filename@)
                &&& !f@.is_public
                &&& f@.public_url is None
                &&& final(svc).catalog@.files == old(svc).catalog@.files.push(f@)
                &&& final(svc).catalog@.users == old(svc).catalog@.users
                &&& final(svc).catalog@.tokens == old(svc).catalog@.tokens
                &&& final(svc).storage@ == old(svc).storage@.push(
                    EntryV { path: f@.file_path, data: p.data@ },
                )
                &&& lookup(final(svc).storage@, f@.file_path) == Some(p.data@)
            }
        },
{
    let t = match token {
        Some(t) => t,
        None => {
            return Err(ApiError::Unauthorized);
        },
    };
    let user_id = match verify_auth_token(&svc.catalog, t) {
        Ok(user_id) => user_id,
        Err(e) => {
            return Err(e);
        },
    };
    let p = match payload {
        Some(p) => p,
        None => {
            return Err(ApiError::BadRequest);
        },
    };
    proof {
        let c = svc.catalog@;
        let ti = crate::catalog::token_index(c, t@);
        assert(c.tokens[ti].user_id == user_id@);
        assert(user_id_taken(c, c.tokens[ti].user_id));
    }
    let file_path = storage_path_for(&user_id, &p.filename);
    // ordering: the bytes are durable before the catalog row is committed,
    // so no row can ever reference bytes that failed to persist
    svc.storage.write(file_path.clone(), p.data);
    let id = fresh_id();
    let now = now_millis();
    let nf = NewFile {
        user_id,
        filename: p.filename,
        file_path,
        is_public: false,
        public_url: None,
    };
    let r = svc.catalog.insert_file(id, nf, now);
    proof {
        let ghost entry = EntryV { path: nf.file_path@, data: p.data@ };
        if files_backed(old(svc).catalog@, old(svc).storage@) {
            if r is Ok {
                lemma_files_backed_upload(
                    old(svc).catalog@,
                    old(svc).storage@,
                    svc.catalog@.files.last(),
                    entry,
                );
                lemma_files_backed_same(
                    CatalogV {
                        files: old(svc).catalog@.files.push(svc.catalog@.files.last()),
                        ..old(svc).catalog@
                    },
                    old(svc).storage@.push(entry),
                    svc.catalog@,
                    svc.storage@,
                );
            } else {
                lemma_files_backed_more_storage(old(svc).catalog@, old(svc).storage@, entry);
                lemma_files_backed_same(
                    old(svc).catalog@,
                    old(svc).storage@.push(entry),
                    svc.catalog@,
                    svc.storage@,
                );
            }
        }
    }
    r
}

/// List: authenticate, then return every file record the resolved user
/// owns, in catalog order — the empty sequence, not an error, when there
/// are none. A missing or invalid token reports `Unauthorized`.
pub fn get_user_files(svc: &Service, token: Option<&String>) -> (r: Result<Vec<File>, ApiError>)
    requires
        wf(svc.catalog@),
    ensures
        r is Ok <==> (token matches Some(t) && token_user(svc.catalog@, t@) is Some),
        r is Err ==> r == Err::<Vec<File>, ApiError>(ApiError::Unauthorized),
        r matches Ok(files) ==> token matches Some(t) && files@.map_values(|f: File| f@)
            == owner_files(svc.catalog@, token_user(svc.catalog@, t@).unwrap()),
{
    let t = match token {
        Some(t) => t,
        None => {
            return Err(ApiError::Unauthorized);
        },
    };
    let user_id = match verify_auth_token(&svc.catalog, t) {
        Ok(user_id) => user_id,
        Err(e) => {
            return Err(e);
        },
    };
    Ok(svc.catalog.files_of(&user_id))
}

/// Publish: authenticate, then run the one visibility transition on a file
/// the resolved user owns. A file that is missing or owned by someone else
/// reports the identical `NotFound` — never `Forbidden`, so nothing leaks
/// about foreign files. Nothing changes on failure.
pub fn make_file_public(svc: &mut Service, token: Option<&String>, file_id: &String) -> (r: Result<
    File,
    ApiError,
>)
    requires
        wf(old(svc).catalog@),
    ensures
        wf(final(svc).catalog@),
        final(svc).storage@ == old(svc).storage@,
        r is Err ==> final(svc).catalog@ == old(svc).catalog@,
        files_backed(old(svc).catalog@, old(svc).storage@) ==> files_backed(
            final(svc).catalog@,
            final(svc).storage@,
        ),
        token is None ==> r == Err::<File, ApiError>(ApiError::Unauthorized),
        token matches Some(t) && token_user(old(svc).catalog@, t@) is None ==> r == Err::<
            File,
            ApiError,
        >(ApiError::Unauthorized),
        token matches Some(t) ==> (token_user(old(svc).catalog@, t@) is Some ==> {
            &&& r is Ok <==> file_owned(
                old(svc).catalog@,
                file_id@,
                token_user(old(svc).catalog@, t@).unwrap(),
            )
            &&& !file_owned(
                old(svc).catalog@,
                file_id@,
                token_user(old(svc).catalog@, t@).unwrap(),
            ) ==> r == Err::<File, ApiError>(ApiError::NotFound)
        }),
        r matches Ok(f) ==> {
            &&& final(svc).catalog@ == publish_catalog(old(svc).catalog@, file_id@)
            &&& f@ == published(file_at(old(svc).catalog@, file_id@))
            &&& f@.is_public
            &&& f@.public_url == Some(public_url_view(file_id@))
            &&& file_public(final(svc).catalog@, file_id@)
        },
{
    let t = match token {
        Some(t) => t,
        None => {
            return Err(ApiError::Unauthorized);
        },
    };
    let user_id = match verify_auth_token(&svc.catalog, t) {
        Ok(user_id) => user_id,
        Err(e) => {
            return Err(e);
        },
    };
    let r = svc.catalog.publish(file_id, &user_id);
    proof {
        if files_backed(old(svc).catalog@, old(svc).storage@) && r is Ok {
            lemma_files_backed_publish(
                old(svc).catalog@,
                old(svc).storage@,
                file_id@,
                user_id@,
            );
        }
    }
    r
}

/// Public read: no token required. Serves the bytes and inferred content
/// type of a file that is public and whose bytes exist in the store; a
/// private file and a missing one report the identical `NotFound`, so
/// existence never leaks to unauthenticated callers.
pub fn serve_public_file(svc: &Service, file_id: &String) -> (r: Result<ServedFile, ApiError>)
    requires
        wf(svc.catalog@),
    ensures
        r is Ok <==> file_public(svc.catalog@, file_id@) && lookup(
            svc.storage@,
            file_at(svc.catalog@, file_id@).file_path,
        ) is Some,
        r is Err ==> r == Err::<ServedFile, ApiError>(ApiError::NotFound),
        files_backed(svc.catalog@, svc.storage@) && file_public(svc.catalog@, file_id@) ==> r
            is Ok,
        r matches Ok(served) ==> {
            &&& lookup(svc.storage@, file_at(svc.catalog@, file_id@).file_path) == Some(
                served.content@,
            )
            &&& served.content_type@ == mime_of(file_at(svc.catalog@, file_id@).file_path)
        },
{
    let file_path = match svc.catalog.resolve_public(file_id) {
        Ok(file_path) => file_path,
        Err(_) => {
            return Err(ApiError::NotFound);
        },
    };
    let content = match svc.storage.read(&file_path) {
        Some(content) => content,
        None => {
            proof {
                if files_backed(svc.catalog@, svc.storage@) {
                    let idx = file_index_by_id(svc.catalog@, file_id@);
                    assert(lookup(svc.storage@, svc.catalog@.files[idx].file_path) is Some);
                }
            }
            return Err(ApiError::NotFound);
        },
    };
    let content_type = guess_mime(file_path.as_str());
    Ok(ServedFile { content, content_type })
}

} // verus!
