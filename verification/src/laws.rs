//! The system-wide guarantees, each proved once and for all over the ghost
//! model the operations' contracts are stated in: registration uniqueness,
//! that issued tokens authenticate, per-user isolation of listings, and the
//! upload–publish–read round trip.

use vstd::prelude::*;

use crate::catalog::{
    email_taken, file_at, file_id_taken, file_owned, file_public, lemma_file_row_unique,
    lemma_insert_file_wf,
    lemma_insert_token_wf, lemma_owned_filter_owned, lemma_publish_wf, lemma_token_row_unique,
    owner_files, publish_catalog, token_taken, token_user, user_id_taken, username_taken, wf,
    CatalogV,
};
use crate::models::{FileV, TokenV, UserV};
use crate::service::files_backed;
use crate::storage::{lemma_lookup_push, lookup, EntryV};
use crate::util::storage_path_view;

verus! {

/// Registering a user takes its username and email: once a register step has
/// pushed the new user row, any further register under the same username or
/// email reports `Conflict`, because `insert_user`'s contract maps a taken
/// username or email — and nothing else it accepts — to `Conflict`.
pub proof fn lemma_register_takes_identity(c: CatalogV, u: UserV)
    ensures
        username_taken(CatalogV { users: c.users.push(u), ..c }, u.username),
        email_taken(CatalogV { users: c.users.push(u), ..c }, u.email),
{
    let c2 = CatalogV { users: c.users.push(u), ..c };
    assert(c2.users[c.users.len() as int] == u);
}

/// A freshly issued token authenticates to exactly the user it was issued
/// for: after a token row for `t.user_id` is pushed under an unused token
/// string, resolving that string yields `Some(t.user_id)` — so the token a
/// successful register or login returns authenticates to that user's id.
pub proof fn lemma_issued_token_authenticates(c: CatalogV, t: TokenV)
    requires
        wf(c),
        !token_taken(c, t.token),
        user_id_taken(c, t.user_id),
    ensures
        wf(CatalogV { tokens: c.tokens.push(t), ..c }),
        token_user(CatalogV { tokens: c.tokens.push(t), ..c }, t.token) == Some(t.user_id),
{
    lemma_insert_token_wf(c, t);
    let c2 = CatalogV { tokens: c.tokens.push(t), ..c };
    assert(c2.tokens[c.tokens.len() as int] == t);
    lemma_token_row_unique(c2, c.tokens.len() as int);
}

/// Listing isolation: whatever the catalog holds, the listing of one user
/// contains only rows owned by that user — never a row of any other user.
pub proof fn lemma_list_isolation(c: CatalogV, user_a: Seq<char>, user_b: Seq<char>)
    requires
        user_a != user_b,
    ensures
        forall|i: int|
            0 <= i < owner_files(c, user_b).len() ==> #[trigger] owner_files(
                c,
                user_b,
            )[i].user_id != user_a,
{
    assert forall|i: int| 0 <= i < owner_files(c, user_b).len() implies #[trigger] owner_files(
        c,
        user_b,
    )[i].user_id != user_a by {
        lemma_owned_filter_owned(c.files, user_b, i);
    }
}

/// Publish, then resolve: once the owner has published a file, the file is
/// public and resolves to the storage path it always had — and since the
/// read gate's contract depends on the catalog alone, the resolution holds
/// for any caller, token or no token.
pub proof fn lemma_publish_then_resolve(c: CatalogV, file_id: Seq<char>, user_id: Seq<char>)
    requires
        wf(c),
        file_owned(c, file_id, user_id),
    ensures
        wf(publish_catalog(c, file_id)),
        file_public(publish_catalog(c, file_id), file_id),
        file_at(publish_catalog(c, file_id), file_id).file_path == file_at(c, file_id).file_path,
{
    lemma_publish_wf(c, file_id, user_id);
}

/// A public file is always served: in any state where every catalog row's
/// path holds bytes in the store — true of the empty state and preserved by
/// every operation — a published file's storage path resolves to bytes, so
/// the token-free public read returns them.
pub proof fn lemma_public_files_are_served(c: CatalogV, s: Seq<EntryV>, file_id: Seq<char>)
    requires
        wf(c),
        files_backed(c, s),
        file_public(c, file_id),
    ensures
        lookup(s, file_at(c, file_id).file_path) is Some,
{
    let w = choose|w: int| 0 <= w < c.files.len() && c.files[w].id == file_id && c.files[w].is_public;
    lemma_file_row_unique(c, w);
    assert(lookup(s, c.files[w].file_path) is Some);
}

/// The upload–publish–read round trip: upload a file with content `data`,
/// publish it as its owner, and the public read path serves exactly `data`
/// — the bytes come back byte-identical.
pub proof fn lemma_upload_publish_round_trip(
    c: CatalogV,
    s: Seq<EntryV>,
    f: FileV,
    data: Seq<u8>,
)
    requires
        wf(c),
        user_id_taken(c, f.user_id),
        !file_id_taken(c, f.id),
        !f.is_public,
        f.public_url is None,
        f.file_path == storage_path_view(f.user_id, f.filename),
    ensures
        ({
            // the catalog and store after the upload step
            let c1 = CatalogV { files: c.files.push(f), ..c };
            let s1 = s.push(EntryV { path: f.file_path, data });
            // the catalog after the owner published the file
            let c2 = publish_catalog(c1, f.id);
            &&& wf(c2)
            &&& file_public(c2, f.id)
            &&& lookup(s1, file_at(c2, f.id).file_path) == Some(data)
        }),
{
    lemma_insert_file_wf(c, f);
    let c1 = CatalogV { files: c.files.push(f), ..c };
    assert(c1.files[c.files.len() as int] == f);
    assert(file_owned(c1, f.id, f.user_id));
    lemma_file_row_unique(c1, c.files.len() as int);
    lemma_publish_wf(c1, f.id, f.user_id);
    let s1 = s.push(EntryV { path: f.file_path, data });
    lemma_lookup_push(s, EntryV { path: f.file_path, data }, f.file_path);
}

} // verus!
