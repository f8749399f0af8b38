//! Download links: issuing one for a file, and answering a request made
//! with one.

use crate::api::{is_illegal_path, served_path, IssueError, Rejection, Target};
use crate::safe_path::{accepts, normalize_web_path_as_file};
use crate::state::{
    after_lookup, all_taken, is_draw, is_first_free, lookup_outcome, DownloadInfo, LinkTable, ResolveError,
    LINK_LIFETIME, MAX_TRIES,
};
use crate::token::{format_token, fresh_tokens, hyphenated, parsed_uuid};
use vstd::prelude::*;

verus! {

/// Why a download request fails.
#[derive(Debug)]
pub enum DownloadError {
    /// The link is no token.
    ParseUuid(uuid::Error),
    /// The link names no grant, or one that has expired. The two are not
    /// told apart.
    LinkNotExists,
    /// The file could not be served.
    ServeFile(std::io::Error),
}

impl DownloadError {
    /// The HTTP status that the error is answered with.
    pub open spec fn status(self) -> u16 {
        match self {
            DownloadError::ParseUuid(_) => 400,
            DownloadError::LinkNotExists => 404,
            DownloadError::ServeFile(_) => 500,
        }
    }

    pub fn status_code(&self) -> (code: u16)
        ensures
            code == self.status(),
    {
        match self {
            DownloadError::ParseUuid(_) => 400,
            DownloadError::LinkNotExists => 404,
            DownloadError::ServeFile(_) => 500,
        }
    }
}

/// What a download request for `token` at `now` is answered with.
pub open spec fn download_outcome(
    m: Map<u128, DownloadInfo>,
    token: u128,
    now: u64,
) -> Result<DownloadInfo, DownloadError> {
    match lookup_outcome(m, token, now) {
        Ok(grant) => Ok(grant),
        Err(_) => Err(DownloadError::LinkNotExists),
    }
}

/// Answers a download request made with the link `uuid` at the instant
/// `now`: the grant to serve, or why there is none. A grant that has
/// expired is removed.
pub fn download(uuid: &str, now: u64, downloads: &mut LinkTable<DownloadInfo>) -> (r: Result<
    DownloadInfo,
    DownloadError,
>)
    ensures
        match parsed_uuid(uuid@) {
            None => r matches Err(DownloadError::ParseUuid(_)) && final(downloads)@ == old(
                downloads,
            )@,
            Some(token) => {
                &&& r == download_outcome(old(downloads)@, token, now)
                &&& final(downloads)@ == after_lookup(old(downloads)@, token, now)
            },
        },
{
    match downloads.resolve(uuid, now) {
        Ok(grant) => Ok(grant),
        Err(ResolveError::MalformedToken(e)) => Err(DownloadError::ParseUuid(e)),
        Err(ResolveError::NotFound) => Err(DownloadError::LinkNotExists),
        Err(ResolveError::Expired) => Err(DownloadError::LinkNotExists),
    }
}

/// Whether `r` and `after` are what issuing a download link gives when the
/// tokens tried are `candidates`.
pub open spec fn is_download_issue(
    before: Map<u128, DownloadInfo>,
    path: Seq<char>,
    target: Target,
    now: u64,
    candidates: Seq<u128>,
    r: Result<String, IssueError>,
    after: Map<u128, DownloadInfo>,
) -> bool {
    if !accepts(path) {
        after == before && r is Err && is_illegal_path(r->Err_0, path)
    } else if target == Target::Missing {
        after == before && r == Err::<String, IssueError>(
            IssueError::PathRejected(Rejection::NotFound),
        )
    } else if target == Target::Other {
        after == before && r == Err::<String, IssueError>(
            IssueError::PathRejected(Rejection::NotAFile),
        )
    } else if all_taken(before.dom(), candidates) {
        after == before && r == Err::<String, IssueError>(IssueError::AllocationExhausted)
    } else {
        exists|i: int|
            {
                &&& #[trigger] is_first_free(before.dom(), candidates, i)
                &&& r is Ok
                &&& r->Ok_0@ == hyphenated(candidates[i])
                &&& parsed_uuid(r->Ok_0@) == Some(candidates[i])
                &&& after == before.insert(candidates[i], after[candidates[i]])
                &&& after[candidates[i]].file@ == served_path(path)
                &&& after[candidates[i]].expires == now + LINK_LIFETIME
            }
    }
}

/// Issues a download link for `web_path`, trying the tokens of `candidates`.
///
/// `target` is what the caller found at the place that
/// `normalize_web_path_as_file` gives for `web_path`. The link lasts
/// `LINK_LIFETIME` from `now`.
pub fn issue_download(
    web_path: &str,
    target: Target,
    now: u64,
    candidates: &Vec<u128>,
    downloads: &mut LinkTable<DownloadInfo>,
) -> (r: Result<String, IssueError>)
    requires
        now + LINK_LIFETIME <= u64::MAX,
    ensures
        is_download_issue(
            old(downloads)@,
            web_path@,
            target,
            now,
            candidates@,
            r,
            final(downloads)@,
        ),
{
    let path = match normalize_web_path_as_file(web_path) {
        Err(e) => {
            return Err(IssueError::PathRejected(Rejection::Illegal(e)));
        },
        Ok(path) => path,
    };
    match target {
        Target::File => {},
        Target::Missing => {
            return Err(IssueError::PathRejected(Rejection::NotFound));
        },
        Target::Other => {
            return Err(IssueError::PathRejected(Rejection::NotAFile));
        },
    }
    let grant = DownloadInfo { file: path.joined(), expires: now + LINK_LIFETIME };
    match downloads.allocate_from(candidates, grant) {
        Err(_) => Err(IssueError::AllocationExhausted),
        Ok(token) => {
            let text = format_token(token);
            proof {
                let i = choose|i: int|
                    is_first_free(old(downloads)@.dom(), candidates@, i) && candidates@[i]
                        == token;
                assert(is_first_free(old(downloads)@.dom(), candidates@, i));
            }
            Ok(text)
        },
    }
}

/// Issues a download link for `web_path` under a token drawn at random.
pub fn gen_download_uuid(
    web_path: &str,
    target: Target,
    now: u64,
    downloads: &mut LinkTable<DownloadInfo>,
) -> (r: Result<String, IssueError>)
    requires
        now + LINK_LIFETIME <= u64::MAX,
    ensures
        exists|drawn: Seq<u128>|
            is_draw(drawn) && #[trigger] is_download_issue(
                old(downloads)@,
                web_path@,
                target,
                now,
                drawn,
                r,
                final(downloads)@,
            ),
{
    let drawn = fresh_tokens(MAX_TRIES);
    issue_download(web_path, target, now, &drawn, downloads)
}

/// A link that was found expired is answered with `LinkNotExists` then and
/// at every later request, whatever other requests come between.
pub proof fn lemma_expired_link_stays_invalid(
    m: Map<u128, DownloadInfo>,
    token: u128,
    now: u64,
    steps: Seq<(u128, u64)>,
    later: u64,
)
    requires
        m.contains_key(token),
        now >= m[token].expires,
    ensures
        download_outcome(m, token, now) == Err::<DownloadInfo, DownloadError>(
            DownloadError::LinkNotExists,
        ),
        download_outcome(
            crate::state::after_lookups(after_lookup(m, token, now), steps),
            token,
            later,
        ) == Err::<DownloadInfo, DownloadError>(DownloadError::LinkNotExists),
{
    crate::state::lemma_expired_never_resolves_again(m, token, now, steps, later);
}

/// A link that was issued is answered with its grant, and stays, at every
/// instant before `LINK_LIFETIME` has passed. The text of the link is what is
/// looked up.
pub proof fn lemma_issued_link_resolves(
    before: Map<u128, DownloadInfo>,
    path: Seq<char>,
    target: Target,
    now: u64,
    candidates: Seq<u128>,
    r: Result<String, IssueError>,
    after: Map<u128, DownloadInfo>,
    at: u64,
)
    requires
        is_download_issue(before, path, target, now, candidates, r, after),
        r is Ok,
        at < now + LINK_LIFETIME,
    ensures
        parsed_uuid(r->Ok_0@) is Some,
        download_outcome(after, parsed_uuid(r->Ok_0@)->Some_0, at) is Ok,
        download_outcome(after, parsed_uuid(r->Ok_0@)->Some_0, at)->Ok_0.file@ == served_path(path),
        after_lookup(after, parsed_uuid(r->Ok_0@)->Some_0, at) == after,
{
}

/// No link is issued for a path that is not accepted, nor for one that
/// names no regular file: the table stays as it is.
pub proof fn lemma_download_needs_a_file(
    before: Map<u128, DownloadInfo>,
    path: Seq<char>,
    target: Target,
    now: u64,
    candidates: Seq<u128>,
    r: Result<String, IssueError>,
    after: Map<u128, DownloadInfo>,
)
    requires
        is_download_issue(before, path, target, now, candidates, r, after),
        !accepts(path) || target != Target::File,
    ensures
        r matches Err(IssueError::PathRejected(_)),
        after == before,
{
}

} // verus!
