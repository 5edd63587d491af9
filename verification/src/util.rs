//! Fresh identities, wall-clock time, content-type inference, and the two
//! derived locations of the system: the storage path of an upload and the
//! public URL of a published file.

use vstd::prelude::*;
use vstd::string::StringExecFns;

verus! {

/// The content type that path-based inference assigns to a storage path.
/// The result depends on the path alone.
pub uninterp spec fn mime_of(path: Seq<char>) -> Seq<char>;

/// Relies on uuid's `Uuid::new_v4` and its hyphenated rendering: a freshly
/// drawn random identifier. Nothing is promised beyond its length, which the
/// hyphenated format fixes at 36 characters; in particular two calls may or
/// may not collide.
#[verifier::external_body]
pub fn fresh_id() -> (id: String)
    ensures
        id@.len() == 36,
{
    uuid::Uuid::new_v4().to_string()
}

/// Relies on chrono's `Utc::now`: the current wall-clock time as milliseconds
/// since the Unix epoch. Nothing is promised of the value.
#[verifier::external_body]
pub fn now_millis() -> i64 {
    chrono::Utc::now().timestamp_millis()
}

/// Relies on mime_guess's `from_path` with the documented
/// `application/octet-stream` fallback: the inferred content type is a
/// function of the path alone, named here by [`mime_of`].
#[verifier::external_body]
pub fn guess_mime(path: &str) -> (mime: String)
    ensures
        mime@ == mime_of(path@),
{
    mime_guess::from_path(path).first_or_octet_stream().essence_str().to_owned()
}

/// Where an upload's bytes live: `files/<owner id>/<filename>`, namespaced by
/// the owning user so that different users can never collide on a path.
pub open spec fn storage_path_view(user_id: Seq<char>, filename: Seq<char>) -> Seq<char> {
    "files/"@ + user_id + "/"@ + filename
}

/// The stable public URL a published file is served at: `/public/<file id>`,
/// a function of the file id alone — guessable by design, since `public`
/// implies no further access control.
pub open spec fn public_url_view(file_id: Seq<char>) -> Seq<char> {
    "/public/"@ + file_id
}

/// Builds the storage path of an upload, exactly as
/// [`storage_path_view`] states it.
pub fn storage_path_for(user_id: &String, filename: &String) -> (path: String)
    ensures
        path@ == storage_path_view(user_id@, filename@),
{
    let mut path = "files/".to_owned();
    path.append(user_id.as_str());
    path.append("/");
    path.append(filename.as_str());
    proof {
        assert(path@ == storage_path_view(user_id@, filename@));
    }
    path
}

/// Builds the public URL of a file id, exactly as [`public_url_view`]
/// states it.
pub fn public_url_for(file_id: &String) -> (url: String)
    ensures
        url@ == public_url_view(file_id@),
{
    let mut url = "/public/".to_owned();
    url.append(file_id.as_str());
    url
}

} // verus!
