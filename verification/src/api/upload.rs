//! Upload links: issuing one for a file to be, and answering a request made
//! with one. What happens on the channel that such a request opens is the
//! matter of `session`.

use crate::api::{is_illegal_path, served_path, IssueError, Rejection, Target};
use crate::safe_path::{accepts, normalize_web_path_as_file};
use crate::state::{
    after_lookup, all_taken, is_draw, is_first_free, lookup_outcome, LinkTable, ResolveError, UploadInfo,
    LINK_LIFETIME, MAX_TRIES,
};
use crate::token::{format_token, fresh_tokens, hyphenated, parsed_uuid};
use vstd::prelude::*;

pub mod laws;
pub mod session;

verus! {

/// `actix_web::Error`, as the caller got it when the channel could not be
/// opened. It is carried through as it is; nothing is known of what it
/// holds.
#[verifier::external_type_specification]
#[verifier::external_body]
pub struct ExActixError(actix_web::Error);

/// Why an upload request fails before its channel is open.
#[derive(Debug)]
pub enum UploadError {
    /// The link is no token.
    ParseUuid(uuid::Error),
    /// The link names no grant, or one that has expired. The two are not
    /// told apart.
    LinkNotExists,
    /// The file could not be created with its size.
    PrepareFile(std::io::Error),
    /// The channel could not be opened.
    WebSocket(actix_web::Error),
}

impl UploadError {
    /// The HTTP status that the error is answered with.
    pub open spec fn status(self) -> u16 {
        match self {
            UploadError::ParseUuid(_) => 400,
            UploadError::LinkNotExists => 404,
            UploadError::PrepareFile(_) => 500,
            UploadError::WebSocket(_) => 500,
        }
    }

    pub fn status_code(&self) -> (code: u16)
        ensures
            code == self.status(),
    {
        match self {
            UploadError::ParseUuid(_) => 400,
            UploadError::LinkNotExists => 404,
            UploadError::PrepareFile(_) => 500,
            UploadError::WebSocket(_) => 500,
        }
    }
}

/// What an upload request for `token` at `now` is answered with.
pub open spec fn upload_outcome(m: Map<u128, UploadInfo>, token: u128, now: u64) -> Result<
    UploadInfo,
    UploadError,
> {
    match lookup_outcome(m, token, now) {
        Ok(grant) => Ok(grant),
        Err(_) => Err(UploadError::LinkNotExists),
    }
}

/// Answers an upload request made with the link `uuid` at the instant
/// `now`: the grant whose file is to be created, or why there is none.
///
/// A grant that has expired is removed. One that holds stays in the table: a
/// second request with the same link gets it again, until it expires or is
/// revoked.
pub fn upload(uuid: &str, now: u64, uploads: &mut LinkTable<UploadInfo>) -> (r: Result<
    UploadInfo,
    UploadError,
>)
    ensures
        match parsed_uuid(uuid@) {
            None => r matches Err(UploadError::ParseUuid(_)) && final(uploads)@ == old(uploads)@,
            Some(token) => {
                &&& r == upload_outcome(old(uploads)@, token, now)
                &&& final(uploads)@ == after_lookup(old(uploads)@, token, now)
            },
        },
{
    match uploads.resolve(uuid, now) {
        Ok(grant) => Ok(grant),
        Err(ResolveError::MalformedToken(e)) => Err(UploadError::ParseUuid(e)),
        Err(ResolveError::NotFound) => Err(UploadError::LinkNotExists),
        Err(ResolveError::Expired) => Err(UploadError::LinkNotExists),
    }
}

/// Whether `r` and `after` are what issuing an upload link gives when the
/// tokens tried are `candidates`.
pub open spec fn is_upload_issue(
    before: Map<u128, UploadInfo>,
    path: Seq<char>,
    size: u64,
    target: Target,
    now: u64,
    candidates: Seq<u128>,
    r: Result<String, IssueError>,
    after: Map<u128, UploadInfo>,
) -> bool {
    if !accepts(path) {
        after == before && r is Err && is_illegal_path(r->Err_0, path)
    } else if target != Target::Missing {
        after == before && r == Err::<String, IssueError>(
            IssueError::PathRejected(Rejection::AlreadyExists),
        )
    } else if all_taken(before.dom(), candidates) {
        after == before && r == Err::<String, IssueError>(IssueError::AllocationExhausted)
    } else {
        exists|i: int|
            {
                &&& #[trigger] is_first_free(before.dom(), candidates, i)
                &&& r is Ok
                &&& r->Ok_0@ == hyphenated(candidates[i])
                &&& parsed_uuid(r->Ok_0@) == Some(candidates[i])
                &&& after == before.insert(candidates[i], after[candidates[i]])
                &&& after[candidates[i]].file@ == served_path(path)
                &&& after[candidates[i]].size == size
                &&& after[candidates[i]].expires == now + LINK_LIFETIME
            }
    }
}

/// Issues an upload link for a file of `size` bytes at `web_path`, trying
/// the tokens of `candidates`.
///
/// `target` is what the caller found at the place that
/// `normalize_web_path_as_file` gives for `web_path`: a link is issued only
/// where nothing is there. The link lasts `LINK_LIFETIME` from `now`.
pub fn issue_upload(
    web_path: &str,
    size: u64,
    target: Target,
    now: u64,
    candidates: &Vec<u128>,
    uploads: &mut LinkTable<UploadInfo>,
) -> (r: Result<String, IssueError>)
    requires
        now + LINK_LIFETIME <= u64::MAX,
    ensures
        is_upload_issue(
            old(uploads)@,
            web_path@,
            size,
            target,
            now,
            candidates@,
            r,
            final(uploads)@,
        ),
{
    let path = match normalize_web_path_as_file(web_path) {
        Err(e) => {
            return Err(IssueError::PathRejected(Rejection::Illegal(e)));
        },
        Ok(path) => path,
    };
    match target {
        Target::Missing => {},
        _ => {
            return Err(IssueError::PathRejected(Rejection::AlreadyExists));
        },
    }
    let grant = UploadInfo { file: path.joined(), size, expires: now + LINK_LIFETIME };
    match uploads.allocate_from(candidates, grant) {
        Err(_) => Err(IssueError::AllocationExhausted),
        Ok(token) => {
            let text = format_token(token);
            proof {
                let i = choose|i: int|
                    is_first_free(old(uploads)@.dom(), candidates@, i) && candidates@[i] == token;
                assert(is_first_free(old(uploads)@.dom(), candidates@, i));
            }
            Ok(text)
        },
    }
}

/// Issues an upload link for `web_path` under a token drawn at random.
pub fn gen_upload_uuid(
    web_path: &str,
    size: u64,
    target: Target,
    now: u64,
    uploads: &mut LinkTable<UploadInfo>,
) -> (r: Result<String, IssueError>)
    requires
        now + LINK_LIFETIME <= u64::MAX,
    ensures
        exists|drawn: Seq<u128>|
            is_draw(drawn) && #[trigger] is_upload_issue(
                old(uploads)@,
                web_path@,
                size,
                target,
                now,
                drawn,
                r,
                final(uploads)@,
            ),
{
    let drawn = fresh_tokens(MAX_TRIES);
    issue_upload(web_path, size, target, now, &drawn, uploads)
}

/// No link is issued for a path that is not accepted, nor for one that
/// names something that exists: the table stays as it is.
pub proof fn lemma_upload_needs_a_free_place(
    before: Map<u128, UploadInfo>,
    path: Seq<char>,
    size: u64,
    target: Target,
    now: u64,
    candidates: Seq<u128>,
    r: Result<String, IssueError>,
    after: Map<u128, UploadInfo>,
)
    requires
        is_upload_issue(before, path, size, target, now, candidates, r, after),
        !accepts(path) || target != Target::Missing,
    ensures
        r matches Err(IssueError::PathRejected(_)),
        after == before,
{
}

} // verus!
