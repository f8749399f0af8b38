use filelink::state::{
    AllocationExhausted, DownloadInfo, Grant, LinkTable, ResolveError, UploadInfo, LINK_LIFETIME,
    MAX_TRIES,
};
use filelink::token::format_token;

fn grant(file: &str, expires: u64) -> DownloadInfo {
    DownloadInfo { file: file.to_string(), expires }
}

#[test]
fn link_lasts_twenty_four_hours() {
    assert_eq!(LINK_LIFETIME, 24 * 60 * 60 * 1000);
    assert_eq!(MAX_TRIES, 20);
}

#[test]
fn new_table_is_empty() {
    let table: LinkTable<DownloadInfo> = LinkTable::new();
    assert_eq!(table.len(), 0);
    assert!(!table.contains(7));
    assert!(table.tokens().is_empty());
}

#[test]
fn grant_is_copied_field_by_field() {
    let g = UploadInfo { file: "files/a".to_string(), size: 9, expires: 42 };
    assert_eq!(g.duplicate(), g);
    assert_eq!(g.expires_at(), 42);
    let d = grant("files/b", 5);
    assert_eq!(d.duplicate(), d);
    assert_eq!(d.expires_at(), 5);
}

#[test]
fn first_free_candidate_is_taken() {
    let mut table = LinkTable::new();
    assert_eq!(table.allocate_from(&vec![1, 2, 3], grant("a", 10)), Ok(1));
    assert_eq!(table.allocate_from(&vec![1, 2, 3], grant("b", 10)), Ok(2));
    assert_eq!(table.allocate_from(&vec![2, 1, 2, 3], grant("c", 10)), Ok(3));
    assert_eq!(table.len(), 3);
    assert_eq!(table.lookup(2, 0), Ok(grant("b", 10)));
    let mut tokens = table.tokens();
    tokens.sort();
    assert_eq!(tokens, vec![1, 2, 3]);
}

#[test]
fn allocation_gives_up_after_twenty_collisions() {
    let mut table = LinkTable::new();
    assert_eq!(table.allocate_from(&vec![0], grant("zero", 10)), Ok(0));
    assert_eq!(table.allocate_from(&vec![1], grant("one", 10)), Ok(1));
    // a token space of two values, both taken: twenty tries, then the
    // twenty-first candidate, though free, is not looked at
    let mut candidates: Vec<u128> = (0..20).map(|i| i % 2).collect();
    candidates.push(2);
    assert_eq!(table.allocate_from(&candidates, grant("x", 10)), Err(AllocationExhausted));
    assert_eq!(table.len(), 2);
    assert!(!table.contains(2));
    // the twentieth try still counts
    let mut candidates: Vec<u128> = (0..19).map(|i| i % 2).collect();
    candidates.push(2);
    assert_eq!(table.allocate_from(&candidates, grant("x", 10)), Ok(2));
}

#[test]
fn allocation_without_candidates_gives_up() {
    let mut table = LinkTable::new();
    assert_eq!(table.allocate_from(&vec![], grant("x", 10)), Err(AllocationExhausted));
    assert_eq!(table.len(), 0);
}

#[test]
fn random_allocations_differ() {
    let mut table = LinkTable::new();
    let mut seen = std::collections::HashSet::new();
    for i in 0..500u64 {
        let token = table.allocate(grant("f", i)).unwrap();
        assert!(seen.insert(token));
        assert!(table.contains(token));
    }
    assert_eq!(table.len(), 500);
}

#[test]
fn lookup_leaves_a_live_grant_in_place() {
    let mut table = LinkTable::new();
    table.allocate_from(&vec![5], grant("files/a", 100)).unwrap();
    assert_eq!(table.lookup(5, 0), Ok(grant("files/a", 100)));
    assert_eq!(table.lookup(5, 99), Ok(grant("files/a", 100)));
    assert_eq!(table.len(), 1);
}

#[test]
fn grant_expires_at_its_instant() {
    let mut table = LinkTable::new();
    table.allocate_from(&vec![5], grant("files/a", 100)).unwrap();
    assert_eq!(table.lookup(5, 100), Err(ResolveError::Expired));
    assert_eq!(table.len(), 0);
}

#[test]
fn expired_grant_never_resolves_again() {
    let mut table = LinkTable::new();
    table.allocate_from(&vec![5], grant("files/a", 100)).unwrap();
    table.allocate_from(&vec![6], grant("files/b", 1000)).unwrap();
    assert_eq!(table.lookup(5, 250), Err(ResolveError::Expired));
    assert_eq!(table.lookup(6, 250), Ok(grant("files/b", 1000)));
    assert_eq!(table.lookup(5, 251), Err(ResolveError::NotFound));
    assert_eq!(table.lookup(5, 0), Err(ResolveError::NotFound));
    assert_eq!(table.lookup(5, u64::MAX), Err(ResolveError::NotFound));
}

#[test]
fn unknown_token_is_not_found() {
    let mut table: LinkTable<DownloadInfo> = LinkTable::new();
    assert_eq!(table.lookup(1, 0), Err(ResolveError::NotFound));
    assert_eq!(
        table.resolve("550e8400-e29b-41d4-a716-446655440000", 0),
        Err(ResolveError::NotFound)
    );
}

#[test]
fn malformed_token_is_told_apart_from_unknown() {
    let mut table: LinkTable<DownloadInfo> = LinkTable::new();
    let unknown = table.resolve("550e8400-e29b-41d4-a716-446655440000", 0).unwrap_err();
    let malformed = table.resolve("550e8400-e29b-41d4-a716", 0).unwrap_err();
    assert_eq!(unknown, ResolveError::NotFound);
    assert!(matches!(malformed, ResolveError::MalformedToken(_)));
    assert_ne!(unknown, malformed);
}

#[test]
fn resolve_reads_the_token_from_text() {
    let mut table = LinkTable::new();
    let token: u128 = 0x550e8400e29b41d4a716446655440000;
    table.allocate_from(&vec![token], grant("files/a", 100)).unwrap();
    assert_eq!(table.resolve(&format_token(token), 99), Ok(grant("files/a", 100)));
    assert_eq!(table.resolve("550E8400E29B41D4A716446655440000", 99), Ok(grant("files/a", 100)));
    assert_eq!(table.resolve(&format_token(token), 100), Err(ResolveError::Expired));
    assert_eq!(table.resolve(&format_token(token), 0), Err(ResolveError::NotFound));
}

#[test]
fn revoke_takes_the_grant_out() {
    let mut table = LinkTable::new();
    table.allocate_from(&vec![5], grant("files/a", 100)).unwrap();
    assert_eq!(table.revoke(6), None);
    assert_eq!(table.revoke(5), Some(grant("files/a", 100)));
    assert_eq!(table.revoke(5), None);
    assert_eq!(table.lookup(5, 0), Err(ResolveError::NotFound));
}

#[test]
fn sweep_removes_what_has_expired() {
    let mut table = LinkTable::new();
    for i in 0..10u64 {
        table.allocate_from(&vec![i as u128], grant("f", 100 + i)).unwrap();
    }
    assert_eq!(table.sweep(99), 0);
    assert_eq!(table.len(), 10);
    assert_eq!(table.sweep(104), 5);
    assert_eq!(table.len(), 5);
    for i in 0..10u64 {
        assert_eq!(table.contains(i as u128), i >= 5);
    }
    assert_eq!(table.sweep(104), 0);
    assert_eq!(table.sweep(u64::MAX), 5);
    assert_eq!(table.len(), 0);
}

#[test]
fn nothing_expires_without_a_lookup_or_a_sweep() {
    let mut table = LinkTable::new();
    table.allocate_from(&vec![5], grant("files/a", 100)).unwrap();
    table.allocate_from(&vec![6], grant("files/b", 100)).unwrap();
    assert_eq!(table.lookup(6, 500), Err(ResolveError::Expired));
    assert!(table.contains(5));
    assert_eq!(table.len(), 1);
}

#[test]
fn an_expired_token_is_still_taken() {
    let mut table = LinkTable::new();
    table.allocate_from(&vec![5], grant("files/a", 100)).unwrap();
    // no lookup has removed the expired grant, so its token is not free
    assert_eq!(table.allocate_from(&vec![5, 6], grant("files/b", 900)), Ok(6));
}
