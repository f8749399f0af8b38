use filelink::api::download::{download, gen_download_uuid, issue_download, DownloadError};
use filelink::api::upload::{gen_upload_uuid, issue_upload, upload, UploadError};
use filelink::api::{IssueError, Rejection, Target};
use filelink::safe_path::PathError;
use filelink::state::{DownloadInfo, LinkTable, UploadInfo, LINK_LIFETIME};
use filelink::token::parse_token;

const TOKEN: u128 = 0x550e8400e29b41d4a716446655440000;
const TEXT: &str = "550e8400-e29b-41d4-a716-446655440000";

#[test]
fn download_link_is_issued_for_a_file() {
    let mut table = LinkTable::new();
    let link = issue_download("reports/../reports/q1.csv", Target::File, 1000, &vec![TOKEN], &mut table);
    assert_eq!(link, Ok(TEXT.to_string()));
    assert_eq!(
        table.lookup(TOKEN, 1000),
        Ok(DownloadInfo { file: "files/reports/q1.csv".to_string(), expires: 1000 + LINK_LIFETIME })
    );
}

#[test]
fn download_link_needs_an_existing_file() {
    let mut table = LinkTable::new();
    for (target, why) in [(Target::Missing, Rejection::NotFound), (Target::Other, Rejection::NotAFile)] {
        assert_eq!(
            issue_download("a/b", target, 0, &vec![TOKEN], &mut table),
            Err(IssueError::PathRejected(why))
        );
    }
    assert_eq!(
        gen_download_uuid("a/b", Target::Missing, 0, &mut table),
        Err(IssueError::PathRejected(Rejection::NotFound))
    );
    assert_eq!(
        gen_download_uuid("a/b", Target::Other, 0, &mut table),
        Err(IssueError::PathRejected(Rejection::NotAFile))
    );
    assert_eq!(table.len(), 0);
}

#[test]
fn upload_link_needs_a_free_place() {
    let mut table = LinkTable::new();
    for target in [Target::File, Target::Other] {
        assert_eq!(
            issue_upload("a/b", 10, target, 0, &vec![TOKEN], &mut table),
            Err(IssueError::PathRejected(Rejection::AlreadyExists))
        );
        assert_eq!(
            gen_upload_uuid("a/b", 10, target, 0, &mut table),
            Err(IssueError::PathRejected(Rejection::AlreadyExists))
        );
    }
    assert_eq!(table.len(), 0);
}

#[test]
fn illegal_path_gets_no_link() {
    let mut downloads = LinkTable::new();
    let mut uploads = LinkTable::new();
    let expected = Err(IssueError::PathRejected(Rejection::Illegal(PathError::IllegalCharacter {
        ch: '*',
        position: 0,
        segment: "*.csv".to_string(),
    })));
    assert_eq!(issue_download("reports/*.csv", Target::File, 0, &vec![TOKEN], &mut downloads), expected);
    assert_eq!(issue_upload("reports/*.csv", 1, Target::Missing, 0, &vec![TOKEN], &mut uploads), expected);
    assert_eq!(gen_download_uuid("reports/*.csv", Target::File, 0, &mut downloads), expected);
    assert_eq!(gen_upload_uuid("reports/*.csv", 1, Target::Missing, 0, &mut uploads), expected);
    assert_eq!(downloads.len(), 0);
    assert_eq!(uploads.len(), 0);
}

#[test]
fn illegal_path_is_reported_before_the_target() {
    let mut table = LinkTable::new();
    let r = issue_download("a/.../b", Target::Missing, 0, &vec![TOKEN], &mut table);
    assert_eq!(
        r,
        Err(IssueError::PathRejected(Rejection::Illegal(PathError::IllegalSegment {
            segment: "...".to_string()
        })))
    );
}

#[test]
fn issuing_gives_up_when_every_candidate_is_taken() {
    let mut table = LinkTable::new();
    issue_upload("a", 1, Target::Missing, 0, &vec![TOKEN], &mut table).unwrap();
    let candidates = vec![TOKEN; 20];
    assert_eq!(
        issue_upload("b", 1, Target::Missing, 0, &candidates, &mut table),
        Err(IssueError::AllocationExhausted)
    );
    assert_eq!(table.len(), 1);
    assert_eq!(table.lookup(TOKEN, 0).unwrap().file, "files/a");
}

#[test]
fn upload_link_keeps_path_size_and_expiry() {
    let mut table = LinkTable::new();
    let link = issue_upload(" reports / q1.csv", 100, Target::Missing, 5, &vec![TOKEN], &mut table);
    assert_eq!(link, Ok(TEXT.to_string()));
    assert_eq!(
        upload(TEXT, 6, &mut table).unwrap(),
        UploadInfo { file: "files/reports/q1.csv".to_string(), size: 100, expires: 5 + LINK_LIFETIME }
    );
}

#[test]
fn random_links_resolve_until_they_expire() {
    let mut downloads = LinkTable::new();
    let mut uploads = LinkTable::new();
    let d = gen_download_uuid("a/b.txt", Target::File, 10, &mut downloads).unwrap();
    let u = gen_upload_uuid("a/c.txt", 7, Target::Missing, 10, &mut uploads).unwrap();
    assert_ne!(d, u);
    assert_eq!(d.len(), 36);
    assert!(parse_token(&d).is_ok());
    assert_eq!(download(&d, 10 + LINK_LIFETIME - 1, &mut downloads).unwrap().file, "files/a/b.txt");
    assert_eq!(upload(&u, 11, &mut uploads).unwrap().size, 7);
    assert!(matches!(download(&d, 10 + LINK_LIFETIME, &mut downloads), Err(DownloadError::LinkNotExists)));
    assert!(matches!(upload(&u, u64::MAX, &mut uploads), Err(UploadError::LinkNotExists)));
}

#[test]
fn two_links_never_share_a_token() {
    let mut table = LinkTable::new();
    let mut seen = std::collections::HashSet::new();
    for i in 0..300 {
        let link = gen_download_uuid(&format!("dir/file{}", i), Target::File, 0, &mut table).unwrap();
        assert!(seen.insert(link));
    }
    assert_eq!(table.len(), 300);
}

#[test]
fn download_link_can_be_used_again() {
    let mut table = LinkTable::new();
    issue_download("a", Target::File, 0, &vec![TOKEN], &mut table).unwrap();
    for now in [0, 1, LINK_LIFETIME - 1] {
        assert_eq!(download(TEXT, now, &mut table).unwrap().file, "files/a");
    }
    assert_eq!(table.len(), 1);
}

#[test]
fn upload_grant_stays_after_it_was_handed_out() {
    let mut table = LinkTable::new();
    issue_upload("a", 3, Target::Missing, 0, &vec![TOKEN], &mut table).unwrap();
    assert!(upload(TEXT, 1, &mut table).is_ok());
    assert!(upload(TEXT, 2, &mut table).is_ok());
    // the owner may make the link single-use by revoking it
    assert!(table.revoke(TOKEN).is_some());
    assert!(matches!(upload(TEXT, 3, &mut table), Err(UploadError::LinkNotExists)));
}

#[test]
fn expired_download_link_stays_invalid() {
    let mut table = LinkTable::new();
    issue_download("a", Target::File, 0, &vec![TOKEN], &mut table).unwrap();
    for now in [LINK_LIFETIME, LINK_LIFETIME + 1, 0, u64::MAX] {
        assert!(matches!(download(TEXT, now, &mut table), Err(DownloadError::LinkNotExists)));
    }
    assert_eq!(table.len(), 0);
}

#[test]
fn unknown_and_malformed_links_are_told_apart() {
    let mut downloads: LinkTable<DownloadInfo> = LinkTable::new();
    let mut uploads: LinkTable<UploadInfo> = LinkTable::new();
    let unknown = download(TEXT, 0, &mut downloads).unwrap_err();
    let malformed = download("no-token", 0, &mut downloads).unwrap_err();
    assert!(matches!(unknown, DownloadError::LinkNotExists));
    assert!(matches!(malformed, DownloadError::ParseUuid(_)));
    assert_eq!(unknown.status_code(), 404);
    assert_eq!(malformed.status_code(), 400);
    let unknown = upload(TEXT, 0, &mut uploads).unwrap_err();
    let malformed = upload("", 0, &mut uploads).unwrap_err();
    assert!(matches!(unknown, UploadError::LinkNotExists));
    assert!(matches!(malformed, UploadError::ParseUuid(_)));
    assert_eq!(unknown.status_code(), 404);
    assert_eq!(malformed.status_code(), 400);
}

#[test]
fn failures_while_serving_are_server_errors() {
    let io = || std::io::Error::new(std::io::ErrorKind::Other, "disk");
    assert_eq!(DownloadError::ServeFile(io()).status_code(), 500);
    assert_eq!(UploadError::PrepareFile(io()).status_code(), 500);
    let channel = actix_web::error::ErrorBadRequest("no upgrade");
    assert_eq!(UploadError::WebSocket(channel).status_code(), 500);
}
