//! The catalog: the single durable record of users, files and auth tokens.
//! Every operation on it is atomic with respect to the others — the process
//! serializes access behind one lock (held outside this crate) — so each
//! method here describes one linearizable catalog step.

use vstd::prelude::*;

use crate::errors::ApiError;
use crate::models::{File, FileV, NewFile, NewUser, TokenRecord, TokenV, User, UserV};
use crate::util::{public_url_for, public_url_view, storage_path_view};

verus! {

/// Ghost view of the whole catalog: the three tables.
#[verifier::ext_equal]
pub ghost struct CatalogV {
    pub users: Seq<UserV>,
    pub files: Seq<FileV>,
    pub tokens: Seq<TokenV>,
}

/// Some user row carries this username.
pub open spec fn username_taken(c: CatalogV, username: Seq<char>) -> bool {
    exists|i: int| 0 <= i < c.users.len() && c.users[i].username == username
}

/// Some user row carries this email.
pub open spec fn email_taken(c: CatalogV, email: Seq<char>) -> bool {
    exists|i: int| 0 <= i < c.users.len() && c.users[i].email == email
}

/// Some user row carries this id.
pub open spec fn user_id_taken(c: CatalogV, id: Seq<char>) -> bool {
    exists|i: int| 0 <= i < c.users.len() && c.users[i].id == id
}

/// Some file row carries this id.
pub open spec fn file_id_taken(c: CatalogV, id: Seq<char>) -> bool {
    exists|i: int| 0 <= i < c.files.len() && c.files[i].id == id
}

/// Some token row carries this token string.
pub open spec fn token_taken(c: CatalogV, token: Seq<char>) -> bool {
    exists|i: int| 0 <= i < c.tokens.len() && c.tokens[i].token == token
}

/// The index of the user row carrying this username (meaningful when
/// [`username_taken`] holds; unique under [`wf`]).
pub open spec fn user_index_by_name(c: CatalogV, username: Seq<char>) -> int {
    choose|i: int| 0 <= i < c.users.len() && c.users[i].username == username
}

/// The user row carrying this username.
pub open spec fn user_named(c: CatalogV, username: Seq<char>) -> UserV {
    c.users[user_index_by_name(c, username)]
}

/// The index of the file row carrying this id (meaningful when
/// [`file_id_taken`] holds; unique under [`wf`]).
pub open spec fn file_index_by_id(c: CatalogV, id: Seq<char>) -> int {
    choose|i: int| 0 <= i < c.files.len() && c.files[i].id == id
}

/// The file row carrying this id.
pub open spec fn file_at(c: CatalogV, id: Seq<char>) -> FileV {
    c.files[file_index_by_id(c, id)]
}

/// The index of the token row carrying this token string (meaningful when
/// [`token_taken`] holds; unique under [`wf`]).
pub open spec fn token_index(c: CatalogV, token: Seq<char>) -> int {
    choose|i: int| 0 <= i < c.tokens.len() && c.tokens[i].token == token
}

/// Token resolution is a total function on the tokens that exist: the owning
/// user id of the row keyed by this token string, or `None` if absent.
pub open spec fn token_user(c: CatalogV, token: Seq<char>) -> Option<Seq<char>> {
    if token_taken(c, token) {
        Some(c.tokens[token_index(c, token)].user_id)
    } else {
        None
    }
}

/// The file exists and is owned by this user — the condition `publish`
/// requires; a missing id and a foreign owner are indistinguishable.
pub open spec fn file_owned(c: CatalogV, file_id: Seq<char>, user_id: Seq<char>) -> bool {
    exists|i: int| 0 <= i < c.files.len() && c.files[i].id == file_id && c.files[i].user_id == user_id
}

/// The file exists and is public — the condition the unauthenticated read
/// gate admits; a private file and a missing one are indistinguishable.
pub open spec fn file_public(c: CatalogV, file_id: Seq<char>) -> bool {
    exists|i: int| 0 <= i < c.files.len() && c.files[i].id == file_id && c.files[i].is_public
}

/// The rows of a file table owned by one user, in table order.
pub open spec fn owned_filter(files: Seq<FileV>, user_id: Seq<char>) -> Seq<FileV> {
    files.filter(|f: FileV| f.user_id == user_id)
}

/// The rows owned by one user, in catalog order.
pub open spec fn owner_files(c: CatalogV, user_id: Seq<char>) -> Seq<FileV> {
    owned_filter(c.files, user_id)
}

/// How one filtering step extends the owned rows.
pub proof fn lemma_owned_filter_push(files: Seq<FileV>, f: FileV, user_id: Seq<char>)
    ensures
        owned_filter(files.push(f), user_id) == if f.user_id == user_id {
            owned_filter(files, user_id).push(f)
        } else {
            owned_filter(files, user_id)
        },
{
    reveal(Seq::filter);
    assert(files.push(f).drop_last() =~= files);
    assert(files.push(f).last() == f);
}

/// Every row `owned_filter` keeps is owned by the given user.
pub proof fn lemma_owned_filter_owned(files: Seq<FileV>, user_id: Seq<char>, i: int)
    requires
        0 <= i < owned_filter(files, user_id).len(),
    ensures
        owned_filter(files, user_id)[i].user_id == user_id,
{
    files.lemma_filter_pred(|f: FileV| f.user_id == user_id, i);
}

/// A file row after the one visibility transition the state machine has:
/// `Private` to `Public`, with the public URL derived from the file id.
pub open spec fn published(f: FileV) -> FileV {
    FileV { is_public: true, public_url: Some(public_url_view(f.id)), ..f }
}

/// The whole catalog after publishing one file: only that row changes.
pub open spec fn publish_catalog(c: CatalogV, file_id: Seq<char>) -> CatalogV {
    CatalogV {
        files: c.files.update(file_index_by_id(c, file_id), published(file_at(c, file_id))),
        ..c
    }
}

/// Per-row file invariant: the owner exists, the path is the derived one,
/// and visibility and public URL are never independently inconsistent.
pub open spec fn file_ok(c: CatalogV, f: FileV) -> bool {
    &&& user_id_taken(c, f.user_id)
    &&& f.is_public <==> f.public_url is Some
    &&& f.is_public ==> f.public_url == Some(public_url_view(f.id))
    &&& f.file_path == storage_path_view(f.user_id, f.filename)
}

/// Catalog well-formedness: uniqueness of every key and both foreign-key
/// obligations. Constructors establish it; every operation preserves it.
pub open spec fn wf(c: CatalogV) -> bool {
    &&& forall|i: int, j: int|
        #![trigger c.users[i], c.users[j]]
        0 <= i < j < c.users.len() ==> c.users[i].id != c.users[j].id
            && c.users[i].username != c.users[j].username && c.users[i].email != c.users[j].email
    &&& forall|i: int, j: int|
        #![trigger c.files[i], c.files[j]]
        0 <= i < j < c.files.len() ==> c.files[i].id != c.files[j].id
    &&& forall|i: int, j: int|
        #![trigger c.tokens[i], c.tokens[j]]
        0 <= i < j < c.tokens.len() ==> c.tokens[i].token != c.tokens[j].token
    &&& forall|i: int| #![trigger c.tokens[i]]
        0 <= i < c.tokens.len() ==> user_id_taken(c, c.tokens[i].user_id)
    &&& forall|i: int| #![trigger c.files[i]]
        0 <= i < c.files.len() ==> file_ok(c, c.files[i])
}

/// Any row found with a given username is the row [`user_named`] denotes.
pub proof fn lemma_user_row_unique(c: CatalogV, i: int)
    requires
        wf(c),
        0 <= i < c.users.len(),
    ensures
        username_taken(c, c.users[i].username),
        user_index_by_name(c, c.users[i].username) == i,
        user_named(c, c.users[i].username) == c.users[i],
{
    let name = c.users[i].username;
    assert(username_taken(c, name));
    let j = user_index_by_name(c, name);
    if i != j {
        assert(c.users[i].username != c.users[j].username || c.users[i] == c.users[j]);
    }
}

/// Any row found with a given file id is the row [`file_at`] denotes.
pub proof fn lemma_file_row_unique(c: CatalogV, i: int)
    requires
        wf(c),
        0 <= i < c.files.len(),
    ensures
        file_id_taken(c, c.files[i].id),
        file_index_by_id(c, c.files[i].id) == i,
        file_at(c, c.files[i].id) == c.files[i],
{
    let id = c.files[i].id;
    assert(file_id_taken(c, id));
    let j = file_index_by_id(c, id);
    if i != j {
        assert(c.files[i].id != c.files[j].id || c.files[i] == c.files[j]);
    }
}

/// Any row found with a given token string is the row [`token_user`] reads.
pub proof fn lemma_token_row_unique(c: CatalogV, i: int)
    requires
        wf(c),
        0 <= i < c.tokens.len(),
    ensures
        token_taken(c, c.tokens[i].token),
        token_index(c, c.tokens[i].token) == i,
        token_user(c, c.tokens[i].token) == Some(c.tokens[i].user_id),
{
    let t = c.tokens[i].token;
    assert(token_taken(c, t));
    let j = token_index(c, t);
    if i != j {
        assert(c.tokens[i].token != c.tokens[j].token || c.tokens[i] == c.tokens[j]);
    }
}

/// Adding a user under fresh keys keeps the catalog well-formed.
pub proof fn lemma_insert_user_wf(c: CatalogV, u: UserV)
    requires
        wf(c),
        !user_id_taken(c, u.id),
        !username_taken(c, u.username),
        !email_taken(c, u.email),
    ensures
        wf(CatalogV { users: c.users.push(u), ..c }),
{
    let c2 = CatalogV { users: c.users.push(u), ..c };
    let n = c.users.len() as int;
    assert forall|i: int, j: int|
        #![trigger c2.users[i], c2.users[j]]
        0 <= i < j < c2.users.len() implies c2.users[i].id != c2.users[j].id
        && c2.users[i].username != c2.users[j].username && c2.users[i].email
        != c2.users[j].email by {
        if j < n {
            assert(c2.users[i] == c.users[i] && c2.users[j] == c.users[j]);
        } else {
            assert(c2.users[j] == u);
            assert(c2.users[i] == c.users[i]);
            assert(!(0 <= i < n && c.users[i].id == u.id));
            assert(!(0 <= i < n && c.users[i].username == u.username));
            assert(!(0 <= i < n && c.users[i].email == u.email));
        }
    }
    assert forall|i: int| #![trigger c2.tokens[i]]
        0 <= i < c2.tokens.len() implies user_id_taken(c2, c2.tokens[i].user_id) by {
        assert(user_id_taken(c, c.tokens[i].user_id));
        let w = choose|w: int| 0 <= w < c.users.len() && c.users[w].id == c.tokens[i].user_id;
        assert(c2.users[w].id == c2.tokens[i].user_id);
    }
    assert forall|i: int| #![trigger c2.files[i]]
        0 <= i < c2.files.len() implies file_ok(c2, c2.files[i]) by {
        assert(file_ok(c, c.files[i]));
        let w = choose|w: int| 0 <= w < c.users.len() && c.users[w].id == c.files[i].user_id;
        assert(c2.users[w].id == c2.files[i].user_id);
    }
}

/// Adding a token under a fresh token string, for an existing user, keeps
/// the catalog well-formed.
pub proof fn lemma_insert_token_wf(c: CatalogV, t: TokenV)
    requires
        wf(c),
        !token_taken(c, t.token),
        user_id_taken(c, t.user_id),
    ensures
        wf(CatalogV { tokens: c.tokens.push(t), ..c }),
{
    let c2 = CatalogV { tokens: c.tokens.push(t), ..c };
    let n = c.tokens.len() as int;
    assert forall|i: int, j: int|
        #![trigger c2.tokens[i], c2.tokens[j]]
        0 <= i < j < c2.tokens.len() implies c2.tokens[i].token != c2.tokens[j].token by {
        if j < n {
            assert(c2.tokens[i] == c.tokens[i] && c2.tokens[j] == c.tokens[j]);
        } else {
            assert(c2.tokens[j] == t);
            assert(c2.tokens[i] == c.tokens[i]);
            assert(!(0 <= i < n && c.tokens[i].token == t.token));
        }
    }
    assert forall|i: int| #![trigger c2.tokens[i]]
        0 <= i < c2.tokens.len() implies user_id_taken(c2, c2.tokens[i].user_id) by {
        if i < n {
            assert(c2.tokens[i] == c.tokens[i]);
            assert(user_id_taken(c, c.tokens[i].user_id));
            let w = choose|w: int| 0 <= w < c.users.len() && c.users[w].id == c.tokens[i].user_id;
            assert(c2.users[w].id == c2.tokens[i].user_id);
        } else {
            assert(c2.tokens[i] == t);
            let w = choose|w: int| 0 <= w < c.users.len() && c.users[w].id == t.user_id;
            assert(c2.users[w].id == c2.tokens[i].user_id);
        }
    }
    assert forall|i: int| #![trigger c2.files[i]]
        0 <= i < c2.files.len() implies file_ok(c2, c2.files[i]) by {
        assert(file_ok(c, c.files[i]));
        let w = choose|w: int| 0 <= w < c.users.len() && c.users[w].id == c.files[i].user_id;
        assert(c2.users[w].id == c2.files[i].user_id);
    }
}

/// Adding a file row under a fresh file id, owned by an existing user, with
/// the derived path and private visibility, keeps the catalog well-formed.
pub proof fn lemma_insert_file_wf(c: CatalogV, f: FileV)
    requires
        wf(c),
        !file_id_taken(c, f.id),
        user_id_taken(c, f.user_id),
        !f.is_public,
        f.public_url is None,
        f.file_path == storage_path_view(f.user_id, f.filename),
    ensures
        wf(CatalogV { files: c.files.push(f), ..c }),
{
    let c2 = CatalogV { files: c.files.push(f), ..c };
    let n = c.files.len() as int;
    assert forall|i: int, j: int|
        #![trigger c2.files[i], c2.files[j]]
        0 <= i < j < c2.files.len() implies c2.files[i].id != c2.files[j].id by {
        if j < n {
            assert(c2.files[i] == c.files[i] && c2.files[j] == c.files[j]);
        } else {
            assert(c2.files[j] == f);
            assert(c2.files[i] == c.files[i]);
            assert(!(0 <= i < n && c.files[i].id == f.id));
        }
    }
    assert forall|i: int| #![trigger c2.tokens[i]]
        0 <= i < c2.tokens.len() implies user_id_taken(c2, c2.tokens[i].user_id) by {
        assert(user_id_taken(c, c.tokens[i].user_id));
        let w = choose|w: int| 0 <= w < c.users.len() && c.users[w].id == c.tokens[i].user_id;
        assert(c2.users[w].id == c2.tokens[i].user_id);
    }
    assert forall|i: int| #![trigger c2.files[i]]
        0 <= i < c2.files.len() implies file_ok(c2, c2.files[i]) by {
        if i < n {
            assert(c2.files[i] == c.files[i]);
            assert(file_ok(c, c.files[i]));
            let w = choose|w: int| 0 <= w < c.users.len() && c.users[w].id == c.files[i].user_id;
            assert(c2.users[w].id == c2.files[i].user_id);
        } else {
            assert(c2.files[i] == f);
            let w = choose|w: int| 0 <= w < c.users.len() && c.users[w].id == f.user_id;
            assert(c2.users[w].id == c2.files[i].user_id);
        }
    }
}

/// Under well-formedness, an owned file is the row `file_at` denotes.
pub proof fn lemma_file_owned_at(c: CatalogV, file_id: Seq<char>, user_id: Seq<char>)
    requires
        wf(c),
        file_owned(c, file_id, user_id),
    ensures
        file_id_taken(c, file_id),
        file_at(c, file_id).id == file_id,
        file_at(c, file_id).user_id == user_id,
{
    let w = choose|w: int|
        0 <= w < c.files.len() && c.files[w].id == file_id && c.files[w].user_id == user_id;
    lemma_file_row_unique(c, w);
}

/// Publishing an owned file keeps the catalog well-formed, makes the file
/// public, and changes nothing about the row but its visibility fields.
pub proof fn lemma_publish_wf(c: CatalogV, file_id: Seq<char>, user_id: Seq<char>)
    requires
        wf(c),
        file_owned(c, file_id, user_id),
    ensures
        wf(publish_catalog(c, file_id)),
        file_public(publish_catalog(c, file_id), file_id),
        file_at(publish_catalog(c, file_id), file_id) == published(file_at(c, file_id)),
        publish_catalog(c, file_id).users == c.users,
        publish_catalog(c, file_id).tokens == c.tokens,
{
    lemma_file_owned_at(c, file_id, user_id);
    let c2 = publish_catalog(c, file_id);
    let idx = file_index_by_id(c, file_id);
    let f2 = published(file_at(c, file_id));
    assert(c2.files == c.files.update(idx, f2));
    assert(c2.files[idx] == f2);
    assert forall|i: int, j: int|
        #![trigger c2.files[i], c2.files[j]]
        0 <= i < j < c2.files.len() implies c2.files[i].id != c2.files[j].id by {
        assert(c2.files[i].id == c.files[i].id && c2.files[j].id == c.files[j].id);
    }
    assert forall|i: int| #![trigger c2.tokens[i]]
        0 <= i < c2.tokens.len() implies user_id_taken(c2, c2.tokens[i].user_id) by {
        assert(user_id_taken(c, c.tokens[i].user_id));
        let w = choose|w: int| 0 <= w < c.users.len() && c.users[w].id == c.tokens[i].user_id;
        assert(c2.users[w].id == c2.tokens[i].user_id);
    }
    assert forall|i: int| #![trigger c2.files[i]]
        0 <= i < c2.files.len() implies file_ok(c2, c2.files[i]) by {
        assert(file_ok(c, c.files[i]));
        let w = choose|w: int| 0 <= w < c.users.len() && c.users[w].id == c.files[i].user_id;
        assert(c2.users[w].id == c2.files[i].user_id);
        if i == idx {
            assert(c2.files[i] == f2);
        } else {
            assert(c2.files[i] == c.files[i]);
        }
    }
    lemma_file_row_unique(c2, idx);
}

/// The durable record of users, files and auth tokens.
pub struct Catalog {
    pub users: Vec<User>,
    pub files: Vec<File>,
    pub tokens: Vec<TokenRecord>,
}

impl View for Catalog {
    type V = CatalogV;

    open spec fn view(&self) -> CatalogV {
        CatalogV {
            users: self.users@.map_values(|u: User| u@),
            files: self.files@.map_values(|f: File| f@),
            tokens: self.tokens@.map_values(|t: TokenRecord| t@),
        }
    }
}

impl Catalog {
    /// An empty catalog, as process start-up establishes it.
    pub fn new() -> (c: Catalog)
        ensures
            c@.users == Seq::<UserV>::empty(),
            c@.files == Seq::<FileV>::empty(),
            c@.tokens == Seq::<TokenV>::empty(),
            wf(c@),
    {
        let c = Catalog { users: Vec::new(), files: Vec::new(), tokens: Vec::new() };
        proof {
            assert(c@.users =~= Seq::<UserV>::empty());
            assert(c@.files =~= Seq::<FileV>::empty());
            assert(c@.tokens =~= Seq::<TokenV>::empty());
        }
        c
    }

    /// Whether some user row carries this username.
    pub fn contains_username(&self, username: &String) -> (r: bool)
        ensures
            r == username_taken(self@, username@),
    {
        let n = self.users.len();
        let mut i: usize = 0;
        while i < n
            invariant
                0 <= i <= n,
                n == self.users.len(),
                forall|k: int| 0 <= k < i ==> self@.users[k].username != username@,
            decreases n - i,
        {
            if self.users[i].username == *username {
                proof {
                    assert(self@.users[i as int].username == username@);
                }
                return true;
            }
            i += 1;
        }
        false
    }

    /// Whether some user row carries this email.
    pub fn contains_email(&self, email: &String) -> (r: bool)
        ensures
            r == email_taken(self@, email@),
    {
        let n = self.users.len();
        let mut i: usize = 0;
        while i < n
            invariant
                0 <= i <= n,
                n == self.users.len(),
                forall|k: int| 0 <= k < i ==> self@.users[k].email != email@,
            decreases n - i,
        {
            if self.users[i].email == *email {
                proof {
                    assert(self@.users[i as int].email == email@);
                }
                return true;
            }
            i += 1;
        }
        false
    }

    /// Whether some user row carries this id.
    pub fn contains_user_id(&self, id: &String) -> (r: bool)
        ensures
            r == user_id_taken(self@, id@),
    {
        let n = self.users.len();
        let mut i: usize = 0;
        while i < n
            invariant
                0 <= i <= n,
                n == self.users.len(),
                forall|k: int| 0 <= k < i ==> self@.users[k].id != id@,
            decreases n - i,
        {
            if self.users[i].id == *id {
                proof {
                    assert(self@.users[i as int].id == id@);
                }
                return true;
            }
            i += 1;
        }
        false
    }

    /// Whether some file row carries this id.
    pub fn contains_file_id(&self, id: &String) -> (r: bool)
        ensures
            r == file_id_taken(self@, id@),
    {
        let n = self.files.len();
        let mut i: usize = 0;
        while i < n
            invariant
                0 <= i <= n,
                n == self.files.len(),
                forall|k: int| 0 <= k < i ==> self@.files[k].id != id@,
            decreases n - i,
        {
            if self.files[i].id == *id {
                proof {
                    assert(self@.files[i as int].id == id@);
                }
                return true;
            }
            i += 1;
        }
        false
    }

    /// Whether some token row carries this token string.
    pub fn contains_token(&self, token: &String) -> (r: bool)
        ensures
            r == token_taken(self@, token@),
    {
        let n = self.tokens.len();
        let mut i: usize = 0;
        while i < n
            invariant
                0 <= i <= n,
                n == self.tokens.len(),
                forall|k: int| 0 <= k < i ==> self@.tokens[k].token != token@,
            decreases n - i,
        {
            if self.tokens[i].token == *token {
                proof {
                    assert(self@.tokens[i as int].token == token@);
                }
                return true;
            }
            i += 1;
        }
        false
    }

    /// The user row carrying this username, if any.
    pub fn find_user_by_username(&self, username: &String) -> (r: Option<&User>)
        requires
            wf(self@),
        ensures
            match r {
                Some(u) => username_taken(self@, username@) && u@ == user_named(self@, username@),
                None => !username_taken(self@, username@),
            },
    {
        let n = self.users.len();
        let mut i: usize = 0;
        while i < n
            invariant
                wf(self@),
                0 <= i <= n,
                n == self.users.len(),
                forall|k: int| 0 <= k < i ==> self@.users[k].username != username@,
            decreases n - i,
        {
            if self.users[i].username == *username {
                proof {
                    assert(self@.users[i as int].username == username@);
                    lemma_user_row_unique(self@, i as int);
                }
                return Some(&self.users[i]);
            }
            i += 1;
        }
        None
    }

    /// The owning user id of this token, if the token exists: the token
    /// authority's lookup.
    pub fn token_owner(&self, token: &String) -> (r: Option<String>)
        requires
            wf(self@),
        ensures
            match r {
                Some(uid) => token_user(self@, token@) == Some(uid@),
                None => token_user(self@, token@) is None,
            },
    {
        let n = self.tokens.len();
        let mut i: usize = 0;
        while i < n
            invariant
                wf(self@),
                0 <= i <= n,
                n == self.tokens.len(),
                forall|k: int| 0 <= k < i ==> self@.tokens[k].token != token@,
            decreases n - i,
        {
            if self.tokens[i].token == *token {
                proof {
                    assert(self@.tokens[i as int].token == token@);
                    lemma_token_row_unique(self@, i as int);
                }
                return Some(self.tokens[i].user_id.clone());
            }
            i += 1;
        }
        None
    }

    /// One catalog step of register: insert a user row under a caller-chosen
    /// id, or report `Conflict` — and change nothing — when the id, the
    /// username or the email is already taken.
    pub fn insert_user(&mut self, id: String, nu: NewUser, now: i64) -> (r: Result<User, ApiError>)
        requires
            wf(old(self)@),
        ensures
            wf(final(self)@),
            r is Ok <==> !user_id_taken(old(self)@, id@) && !username_taken(
                old(self)@,
                nu.username@,
            ) && !email_taken(old(self)@, nu.email@),
            r matches Ok(u) ==> {
                &&& u@ == (UserV {
                    id: id@,
                    username: nu.username@,
                    email: nu.email@,
                    password_hash: nu.password_hash@,
                    created_at: now,
                    updated_at: now,
                })
                &&& final(self)@.users == old(self)@.users.push(u@)
                &&& final(self)@.files == old(self)@.files
                &&& final(self)@.tokens == old(self)@.tokens
            },
            r is Err ==> final(self)@ == old(self)@ && r == Err::<User, ApiError>(
                ApiError::Conflict,
            ),
    {
        if self.contains_user_id(&id) || self.contains_username(&nu.username)
            || self.contains_email(&nu.email) {
            return Err(ApiError::Conflict);
        }
        let u = User {
            id,
            username: nu.username,
            email: nu.email,
            password_hash: nu.password_hash,
            created_at: now,
            updated_at: now,
        };
        let result = u.clone();
        proof {
            lemma_insert_user_wf(self@, u@);
        }
        self.users.push(u);
        proof {
            assert(self@.users =~= old(self)@.users.push(result@));
            assert(self@.files =~= old(self)@.files);
            assert(self@.tokens =~= old(self)@.tokens);
            assert(self@ =~= (CatalogV { users: old(self)@.users.push(result@), ..old(self)@ }));
        }
        Ok(result)
    }

    /// One catalog step of token issuance: insert a token row for an existing
    /// user, or report `Internal` — and change nothing — when the token
    /// string is already present.
    pub fn insert_token(&mut self, token: String, user_id: String, now: i64) -> (r: Result<
        (),
        ApiError,
    >)
        requires
            wf(old(self)@),
            user_id_taken(old(self)@, user_id@),
        ensures
            wf(final(self)@),
            r is Ok <==> !token_taken(old(self)@, token@),
            r is Ok ==> {
                &&& final(self)@.tokens == old(self)@.tokens.push(
                    TokenV { token: token@, user_id: user_id@, created_at: now },
                )
                &&& final(self)@.users == old(self)@.users
                &&& final(self)@.files == old(self)@.files
            },
            r is Err ==> final(self)@ == old(self)@ && r == Err::<(), ApiError>(
                ApiError::Internal,
            ),
    {
        if self.contains_token(&token) {
            return Err(ApiError::Internal);
        }
        let t = TokenRecord { token, user_id, created_at: now };
        proof {
            lemma_insert_token_wf(self@, t@);
        }
        self.tokens.push(t);
        proof {
            assert(self@.tokens =~= old(self)@.tokens.push(
                TokenV { token: t.token@, user_id: t.user_id@, created_at: now },
            ));
            assert(self@.users =~= old(self)@.users);
            assert(self@.files =~= old(self)@.files);
            assert(self@ =~= (CatalogV { tokens: old(self)@.tokens.push(t@), ..old(self)@ }));
        }
        Ok(())
    }

    /// One catalog step of upload: insert a file row under a caller-chosen
    /// id for an existing owner, private and at the derived storage path, or
    /// report `Internal` — and change nothing — when the id is taken.
    pub fn insert_file(&mut self, id: String, nf: NewFile, now: i64) -> (r: Result<File, ApiError>)
        requires
            wf(old(self)@),
            user_id_taken(old(self)@, nf.user_id@),
            !nf.is_public,
            nf.public_url is None,
            nf.file_path@ == storage_path_view(nf.user_id@, nf.filename@),
        ensures
            wf(final(self)@),
            r is Ok <==> !file_id_taken(old(self)@, id@),
            r matches Ok(f) ==> {
                &&& f@ == (FileV {
                    id: id@,
                    user_id: nf.user_id@,
                    filename: nf.filename@,
                    file_path: nf.file_path@,
                    is_public: false,
                    public_url: None,
                    created_at: now,
                    updated_at: now,
                })
                &&& final(self)@.files == old(self)@.files.push(f@)
                &&& final(self)@.users == old(self)@.users
                &&& final(self)@.tokens == old(self)@.tokens
            },
            r is Err ==> final(self)@ == old(self)@ && r == Err::<File, ApiError>(
                ApiError::Internal,
            ),
    {
        if self.contains_file_id(&id) {
            return Err(ApiError::Internal);
        }
        let f = File {
            id,
            user_id: nf.user_id,
            filename: nf.filename,
            file_path: nf.file_path,
            is_public: false,
            public_url: None,
            created_at: now,
            updated_at: now,
        };
        let result = f.clone();
        proof {
            lemma_insert_file_wf(self@, f@);
        }
        self.files.push(f);
        proof {
            assert(self@.files =~= old(self)@.files.push(result@));
            assert(self@.users =~= old(self)@.users);
            assert(self@.tokens =~= old(self)@.tokens);
            assert(self@ =~= (CatalogV { files: old(self)@.files.push(result@), ..old(self)@ }));
        }
        Ok(result)
    }

    /// All file rows owned by one user, in catalog order; the empty vector —
    /// not an error — when there are none.
    pub fn files_of(&self, user_id: &String) -> (r: Vec<File>)
        ensures
            r@.map_values(|f: File| f@) == owner_files(self@, user_id@),
    {
        let mut out: Vec<File> = Vec::new();
        let n = self.files.len();
        let mut i: usize = 0;
        proof {
            assert(out@.map_values(|f: File| f@) =~= owned_filter(
                self@.files.take(0),
                user_id@,
            )) by {
                reveal(Seq::filter);
                assert(self@.files.take(0) =~= Seq::<FileV>::empty());
            }
        }
        while i < n
            invariant
                0 <= i <= n,
                n == self.files.len(),
                out@.map_values(|f: File| f@) == owned_filter(self@.files.take(i as int), user_id@),
            decreases n - i,
        {
            let ghost pre = out@.map_values(|f: File| f@);
            if self.files[i].user_id == *user_id {
                out.push(self.files[i].clone());
                proof {
                    assert(out@.map_values(|f: File| f@) =~= pre.push(self@.files[i as int]));
                }
            }
            proof {
                lemma_owned_filter_push(
                    self@.files.take(i as int),
                    self@.files[i as int],
                    user_id@,
                );
                assert(self@.files.take(i as int + 1) =~= self@.files.take(i as int).push(
                    self@.files[i as int],
                ));
            }
            i += 1;
        }
        proof {
            assert(self@.files.take(n as int) =~= self@.files);
        }
        out
    }

    /// The one visibility transition: mark a file public and set its public
    /// URL, provided the file exists and the requesting user owns it. A
    /// missing id and a foreign owner both report the same `NotFound`, so the
    /// answer never leaks whether the file exists under another owner.
    pub fn publish(&mut self, file_id: &String, user_id: &String) -> (r: Result<File, ApiError>)
        requires
            wf(old(self)@),
        ensures
            wf(final(self)@),
            r is Ok <==> file_owned(old(self)@, file_id@, user_id@),
            r matches Ok(f) ==> {
                &&& final(self)@ == publish_catalog(old(self)@, file_id@)
                &&& f@ == published(file_at(old(self)@, file_id@))
                &&& f@.is_public
                &&& f@.public_url == Some(public_url_view(file_id@))
                &&& file_public(final(self)@, file_id@)
            },
            r is Err ==> final(self)@ == old(self)@ && r == Err::<File, ApiError>(
                ApiError::NotFound,
            ),
    {
        let n = self.files.len();
        let mut i: usize = 0;
        while i < n
            invariant
                wf(self@),
                self@ == old(self)@,
                0 <= i <= n,
                n == self.files.len(),
                forall|k: int|
                    0 <= k < i ==> !(self@.files[k].id == file_id@ && self@.files[k].user_id
                        == user_id@),
            decreases n - i,
        {
            if self.files[i].id == *file_id && self.files[i].user_id == *user_id {
                proof {
                    assert(self@.files[i as int].id == file_id@ && self@.files[i as int].user_id
                        == user_id@);
                    assert(file_owned(self@, file_id@, user_id@));
                    lemma_file_row_unique(self@, i as int);
                    lemma_publish_wf(self@, file_id@, user_id@);
                }
                let url = public_url_for(file_id);
                let mut row = self.files[i].clone();
                row.is_public = true;
                row.public_url = Some(url);
                let result = row.clone();
                proof {
                    assert(result@ == published(file_at(old(self)@, file_id@)));
                }
                self.files[i] = row;
                proof {
                    assert(self@.files =~= old(self)@.files.update(i as int, result@));
                    assert(self@ =~= publish_catalog(old(self)@, file_id@));
                }
                return Ok(result);
            }
            i += 1;
        }
        Err(ApiError::NotFound)
    }

    /// The unauthenticated read gate: the storage path of a file that exists
    /// and is public. A private file and a missing one both report the same
    /// `NotFound`, so existence never leaks to unauthenticated callers.
    pub fn resolve_public(&self, file_id: &String) -> (r: Result<String, ApiError>)
        requires
            wf(self@),
        ensures
            r is Ok <==> file_public(self@, file_id@),
            r matches Ok(path) ==> file_id_taken(self@, file_id@) && path@ == file_at(
                self@,
                file_id@,
            ).file_path,
            r is Err ==> r == Err::<String, ApiError>(ApiError::NotFound),
    {
        let n = self.files.len();
        let mut i: usize = 0;
        while i < n
            invariant
                wf(self@),
                0 <= i <= n,
                n == self.files.len(),
                forall|k: int| 0 <= k < i ==> self@.files[k].id != file_id@,
            decreases n - i,
        {
            if self.files[i].id == *file_id {
                proof {
                    assert(self@.files[i as int].id == file_id@);
                    lemma_file_row_unique(self@, i as int);
                }
                if self.files[i].is_public {
                    proof {
                        assert(file_public(self@, file_id@));
                    }
                    return Ok(self.files[i].file_path.clone());
                } else {
                    proof {
                        if file_public(self@, file_id@) {
                            let j = choose|j: int|
                                0 <= j < self@.files.len() && self@.files[j].id == file_id@
                                    && self@.files[j].is_public;
                            assert(self@.files[j].id == self@.files[i as int].id);
                            assert(j == i as int);
                        }
                    }
                    return Err(ApiError::NotFound);
                }
            }
            i += 1;
        }
        Err(ApiError::NotFound)
    }
}

} // verus!
