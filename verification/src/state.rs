//! The link registry: tables from tokens to grants, each grant with the
//! instant at which it expires.
//!
//! Instants are milliseconds on a clock that the caller reads; the tables
//! never read a clock themselves. An expired grant stays in its table until
//! it is looked up, revoked or swept.

use crate::token::{fresh_tokens, is_random_token, parse_token, parsed_uuid};
use std::collections::HashMap;
use vstd::prelude::*;
use vstd::std_specs::iter::IteratorSpec;

verus! {

/// How long a link lasts: 24 hours, in milliseconds.
pub const LINK_LIFETIME: u64 = 86_400_000;

/// How many tokens are tried before an allocation gives up.
pub const MAX_TRIES: usize = 20;

/// What a table keeps for a token.
pub trait Grant: Sized {
    /// The instant from which the grant no longer holds.
    spec fn expiry(&self) -> u64;

    fn expires_at(&self) -> (t: u64)
        ensures
            t == self.expiry(),
    ;

    /// A copy of the grant.
    fn duplicate(&self) -> (g: Self)
        ensures
            g == *self,
    ;
}

/// Leave to read one file.
#[derive(Debug, PartialEq, Eq)]
pub struct DownloadInfo {
    /// The file, as a path below the working directory, joined by slashes.
    pub file: String,
    pub expires: u64,
}

/// Leave to create one file of a given size and fill it.
#[derive(Debug, PartialEq, Eq)]
pub struct UploadInfo {
    /// The file, as a path below the working directory, joined by slashes.
    pub file: String,
    /// The size that the file is created with, in bytes.
    pub size: u64,
    pub expires: u64,
}

impl Grant for DownloadInfo {
    open spec fn expiry(&self) -> u64 {
        self.expires
    }

    fn expires_at(&self) -> (t: u64) {
        self.expires
    }

    fn duplicate(&self) -> (g: Self) {
        DownloadInfo { file: self.file.clone(), expires: self.expires }
    }
}

impl Grant for UploadInfo {
    open spec fn expiry(&self) -> u64 {
        self.expires
    }

    fn expires_at(&self) -> (t: u64) {
        self.expires
    }

    fn duplicate(&self) -> (g: Self) {
        UploadInfo { file: self.file.clone(), size: self.size, expires: self.expires }
    }
}

/// Why a token did not resolve.
#[derive(Debug, PartialEq, Eq)]
pub enum ResolveError {
    /// The text is no token.
    MalformedToken(uuid::Error),
    /// No grant is kept for the token.
    NotFound,
    /// The grant had expired; it has been removed.
    Expired,
}

/// Twenty tokens in a row were taken already.
#[derive(Debug, PartialEq, Eq)]
pub struct AllocationExhausted;

/// What looking up `token` at `now` in `m` gives.
pub open spec fn lookup_outcome<G: Grant>(m: Map<u128, G>, token: u128, now: u64) -> Result<
    G,
    ResolveError,
> {
    if !m.contains_key(token) {
        Err(ResolveError::NotFound)
    } else if now >= m[token].expiry() {
        Err(ResolveError::Expired)
    } else {
        Ok(m[token])
    }
}

/// The table after looking up `token` at `now`: an expired grant is gone,
/// anything else stays.
pub open spec fn after_lookup<G: Grant>(m: Map<u128, G>, token: u128, now: u64) -> Map<u128, G> {
    if m.contains_key(token) && now >= m[token].expiry() {
        m.remove(token)
    } else {
        m
    }
}

/// `i` is the first of the tries among `candidates` that `taken` does not
/// hold.
pub open spec fn is_first_free(taken: Set<u128>, candidates: Seq<u128>, i: int) -> bool {
    &&& 0 <= i < candidates.len()
    &&& i < MAX_TRIES
    &&& !taken.contains(candidates[i])
    &&& forall|j: int| 0 <= j < i ==> taken.contains(#[trigger] candidates[j])
}

/// Each of the tries among `candidates` is in `taken`.
pub open spec fn all_taken(taken: Set<u128>, candidates: Seq<u128>) -> bool {
    forall|j: int| 0 <= j < candidates.len() && j < MAX_TRIES ==> taken.contains(#[trigger] candidates[j])
}

/// Whether `r` and `after` are what allocating `grant` in `before` gives
/// when the tokens tried are `candidates`: the grant is kept under the first
/// free one, or nothing changes where none of the tries is free.
pub open spec fn is_allocation<G: Grant>(
    before: Map<u128, G>,
    candidates: Seq<u128>,
    grant: G,
    r: Result<u128, AllocationExhausted>,
    after: Map<u128, G>,
) -> bool {
    match r {
        Ok(token) => {
            &&& exists|i: int|
                is_first_free(before.dom(), candidates, i) && candidates[i] == token
            &&& after == before.insert(token, grant)
        },
        Err(_) => all_taken(before.dom(), candidates) && after == before,
    }
}

/// What one draw for an allocation is: `MAX_TRIES` tokens, each marked as a
/// random UUID.
pub open spec fn is_draw(drawn: Seq<u128>) -> bool {
    &&& drawn.len() == MAX_TRIES
    &&& forall|i: int| 0 <= i < drawn.len() ==> is_random_token(#[trigger] drawn[i])
}

/// The grants of `m` that still hold at `now`.
pub open spec fn live_part<G: Grant>(m: Map<u128, G>, now: u64) -> Map<u128, G> {
    m.restrict(Set::new(|t: u128| m.contains_key(t) && now < m[t].expiry()))
}

/// The tokens among `seen` whose grants in `m` have expired at `now`.
spec fn expired_among<G: Grant>(m: Map<u128, G>, now: u64, seen: Seq<u128>) -> Set<u128> {
    Set::new(|t: u128| seen.contains(t) && m.contains_key(t) && now >= m[t].expiry())
}

/// A table of grants by token. Its view is the map it holds. Nothing but
/// its own functions changes it.
pub struct LinkTable<G: Grant> {
    entries: HashMap<u128, G>,
}

impl<G: Grant> View for LinkTable<G> {
    type V = Map<u128, G>;

    closed spec fn view(&self) -> Map<u128, G> {
        self.entries@
    }
}

impl<G: Grant> LinkTable<G> {
    /// A table without grants.
    pub fn new() -> (table: Self)
        ensures
            table@ == Map::<u128, G>::empty(),
    {
        LinkTable { entries: HashMap::new() }
    }

    /// The number of grants kept, expired ones included.
    pub fn len(&self) -> (n: usize)
        ensures
            n == self@.len(),
    {
        broadcast use vstd::std_specs::hash::group_hash_axioms;

        self.entries.len()
    }

    /// Whether a grant is kept for `token`, expired or not.
    pub fn contains(&self, token: u128) -> (r: bool)
        ensures
            r == self@.contains_key(token),
    {
        broadcast use vstd::std_specs::hash::group_hash_axioms;

        self.entries.contains_key(&token)
    }

    /// Keeps `grant` under the first of the first `MAX_TRIES` candidates that
    /// is not taken yet, and gives up where each of them is taken.
    pub fn allocate_from(&mut self, candidates: &Vec<u128>, grant: G) -> (r: Result<
        u128,
        AllocationExhausted,
    >)
        ensures
            is_allocation(old(self)@, candidates@, grant, r, final(self)@),
    {
        broadcast use vstd::std_specs::hash::group_hash_axioms;

        let mut i: usize = 0;
        while i < candidates.len() && i < MAX_TRIES
            invariant
                i <= candidates.len(),
                i <= MAX_TRIES,
                *self == *old(self),
                forall|j: int| 0 <= j < i ==> self@.dom().contains(#[trigger] candidates@[j]),
            decreases candidates.len() - i,
        {
            let token = candidates[i];
            if !self.entries.contains_key(&token) {
                self.entries.insert(token, grant);
                assert(is_first_free(old(self)@.dom(), candidates@, i as int));
                return Ok(token);
            }
            i += 1;
        }
        Err(AllocationExhausted)
    }

    /// Keeps `grant` under a token drawn at random. `MAX_TRIES` tokens are
    /// drawn, and the first that is free is taken.
    pub fn allocate(&mut self, grant: G) -> (r: Result<u128, AllocationExhausted>)
        ensures
            exists|drawn: Seq<u128>|
                is_draw(drawn) && #[trigger] is_allocation(
                    old(self)@,
                    drawn,
                    grant,
                    r,
                    final(self)@,
                ),
    {
        let drawn = fresh_tokens(MAX_TRIES);
        self.allocate_from(&drawn, grant)
    }

    /// Looks `token` up at the instant `now`. A grant that still holds is
    /// handed out as a copy and stays; one that has expired is removed.
    pub fn lookup(&mut self, token: u128, now: u64) -> (r: Result<G, ResolveError>)
        ensures
            r == lookup_outcome(old(self)@, token, now),
            final(self)@ == after_lookup(old(self)@, token, now),
    {
        broadcast use vstd::std_specs::hash::group_hash_axioms;

        let live = match self.entries.get(&token) {
            None => {
                return Err(ResolveError::NotFound);
            },
            Some(grant) => if now < grant.expires_at() {
                Some(grant.duplicate())
            } else {
                None
            },
        };
        match live {
            Some(grant) => Ok(grant),
            None => {
                self.entries.remove(&token);
                Err(ResolveError::Expired)
            },
        }
    }

    /// Reads `text` as a token and looks it up at the instant `now`.
    pub fn resolve(&mut self, text: &str, now: u64) -> (r: Result<G, ResolveError>)
        ensures
            match parsed_uuid(text@) {
                None => r matches Err(ResolveError::MalformedToken(_)) && final(self)@ == old(
                    self,
                )@,
                Some(token) => {
                    &&& r == lookup_outcome(old(self)@, token, now)
                    &&& final(self)@ == after_lookup(old(self)@, token, now)
                },
            },
    {
        match parse_token(text) {
            Err(e) => Err(ResolveError::MalformedToken(e)),
            Ok(token) => self.lookup(token, now),
        }
    }

    /// Takes the grant of `token` out of the table, if there is one.
    pub fn revoke(&mut self, token: u128) -> (r: Option<G>)
        ensures
            final(self)@ == old(self)@.remove(token),
            match r {
                Some(grant) => old(self)@.contains_key(token) && grant == old(self)@[token],
                None => !old(self)@.contains_key(token),
            },
    {
        broadcast use vstd::std_specs::hash::group_hash_axioms;

        self.entries.remove(&token)
    }

    /// The tokens that grants are kept for, each once, in no particular
    /// order.
    pub fn tokens(&self) -> (list: Vec<u128>)
        ensures
            list@.to_set() == self@.dom(),
            list@.no_duplicates(),
    {
        broadcast use vstd::std_specs::hash::group_hash_axioms;

        let mut list: Vec<u128> = Vec::new();
        let ghost all: Seq<u128> = self.entries.keys().remaining().unref();
        for token in it: self.entries.keys()
            invariant
                it.seq().unref() == all,
                list@ == all.take(it.index()),
        {
            proof {
                assert(all.take(it.index() + 1) =~= all.take(it.index()).push(*token));
            }
            list.push(*token);
        }
        proof {
            assert(list@ =~= all);
            assert(all.no_duplicates()) by {
                let refs = self.entries.keys().remaining();
                assert forall|i: int, j: int|
                    0 <= i < all.len() && 0 <= j < all.len() && i != j implies all[i] != all[j] by {
                    assert(refs[i] != refs[j]);
                }
            }
        }
        list
    }

    /// Removes every grant that has expired at `now`, and says how many
    /// there were. Nothing calls this by itself: grants otherwise leave the
    /// table only when they are looked up or revoked.
    pub fn sweep(&mut self, now: u64) -> (removed: usize)
        ensures
            final(self)@ == live_part(old(self)@, now),
            removed == old(self)@.len() - final(self)@.len(),
    {
        broadcast use vstd::std_specs::hash::group_hash_axioms;

        let before = self.entries.len();
        let list = self.tokens();
        let mut i: usize = 0;
        while i < list.len()
            invariant
                i <= list.len(),
                self@ == old(self)@.remove_keys(expired_among(old(self)@, now, list@.take(i as int))),
            decreases list.len() - i,
        {
            let token = list[i];
            let expired = match self.entries.get(&token) {
                Some(grant) => now >= grant.expires_at(),
                None => false,
            };
            let ghost seen = list@.take(i as int);
            let ghost more = list@.take(i + 1);
            if expired {
                self.entries.remove(&token);
            }
            proof {
                assert(more =~= seen.push(token));
                assert forall|t: u128| more.contains(t) <==> seen.contains(t) || t == token by {
                    if seen.contains(t) {
                        let j = choose|j: int| 0 <= j < seen.len() && seen[j] == t;
                        assert(more[j] == t);
                    }
                    if t == token {
                        assert(more[i as int] == t);
                    }
                }
                assert(self@ =~= old(self)@.remove_keys(expired_among(old(self)@, now, more)));
            }
            i += 1;
        }
        proof {
            assert(list@.take(list.len() as int) =~= list@);
            assert forall|t: u128| old(self)@.contains_key(t) implies list@.contains(t) by {
                assert(list@.to_set().contains(t));
            }
            assert(self@ =~= live_part(old(self)@, now));
            vstd::set_lib::lemma_len_subset(self@.dom(), old(self)@.dom());
        }
        let after = self.entries.len();
        before - after
    }
}

/// The table after the lookups `steps`, each a token and the instant of its
/// lookup, made one after the other.
pub open spec fn after_lookups<G: Grant>(m: Map<u128, G>, steps: Seq<(u128, u64)>) -> Map<u128, G>
    decreases steps.len(),
{
    if steps.len() == 0 {
        m
    } else {
        after_lookup(after_lookups(m, steps.drop_last()), steps.last().0, steps.last().1)
    }
}

/// Lookups add nothing to a table and change no grant in it.
pub proof fn lemma_lookups_only_remove<G: Grant>(m: Map<u128, G>, steps: Seq<(u128, u64)>)
    ensures
        forall|t: u128| #[trigger]
            after_lookups(m, steps).contains_key(t) ==> m.contains_key(t) && after_lookups(
                m,
                steps,
            )[t] == m[t],
    decreases steps.len(),
{
    if steps.len() > 0 {
        lemma_lookups_only_remove(m, steps.drop_last());
        let before = after_lookups(m, steps.drop_last());
        let after = after_lookups(m, steps);
        assert forall|t: u128| #[trigger] after.contains_key(t) implies m.contains_key(t)
            && after[t] == m[t] by {
            assert(before.contains_key(t));
        }
    }
}

/// Expiry is final. The lookup that finds a grant expired reports `Expired`
/// and removes it; after that, and after whatever other lookups, a lookup of
/// the same token at any instant reports `NotFound`. No lookup finds the
/// grant again.
pub proof fn lemma_expired_never_resolves_again<G: Grant>(
    m: Map<u128, G>,
    token: u128,
    now: u64,
    steps: Seq<(u128, u64)>,
    later: u64,
)
    requires
        m.contains_key(token),
        now >= m[token].expiry(),
    ensures
        lookup_outcome(m, token, now) == Err::<G, ResolveError>(ResolveError::Expired),
        lookup_outcome(after_lookups(after_lookup(m, token, now), steps), token, later) == Err::<
            G,
            ResolveError,
        >(ResolveError::NotFound),
{
    lemma_lookups_only_remove(after_lookup(m, token, now), steps);
}

/// While nothing is removed, a grant that has expired stays expired: a
/// lookup at any later instant fails as well.
pub proof fn lemma_expiry_is_monotone<G: Grant>(m: Map<u128, G>, token: u128, now: u64, later: u64)
    requires
        now <= later,
        lookup_outcome(m, token, now) is Err,
    ensures
        lookup_outcome(m, token, later) is Err,
{
}

/// A grant is found from the instant it is kept until just before it
/// expires, and the lookup leaves it in place.
pub proof fn lemma_live_grant_resolves<G: Grant>(m: Map<u128, G>, token: u128, grant: G, now: u64)
    requires
        now < grant.expiry(),
    ensures
        lookup_outcome(m.insert(token, grant), token, now) == Ok::<G, ResolveError>(grant),
        after_lookup(m.insert(token, grant), token, now) == m.insert(token, grant),
{
}

/// An allocation gives up exactly where each of the tokens tried is taken,
/// and a token it hands out was free before.
pub proof fn lemma_allocation_fails_only_when_exhausted<G: Grant>(
    before: Map<u128, G>,
    candidates: Seq<u128>,
    grant: G,
    r: Result<u128, AllocationExhausted>,
    after: Map<u128, G>,
)
    requires
        is_allocation(before, candidates, grant, r, after),
    ensures
        r is Err <==> all_taken(before.dom(), candidates),
        r matches Ok(token) ==> !before.contains_key(token) && after.contains_key(token)
            && after[token] == grant,
{
}

/// Two allocations, one after the other with whatever lookups between them,
/// give different tokens unless the grant of the first has been removed
/// meanwhile.
pub proof fn lemma_allocations_differ<G: Grant>(
    start: Map<u128, G>,
    first_tries: Seq<u128>,
    first_grant: G,
    first: Result<u128, AllocationExhausted>,
    between: Map<u128, G>,
    steps: Seq<(u128, u64)>,
    second_tries: Seq<u128>,
    second_grant: G,
    second: Result<u128, AllocationExhausted>,
    end: Map<u128, G>,
)
    requires
        is_allocation(start, first_tries, first_grant, first, between),
        is_allocation(after_lookups(between, steps), second_tries, second_grant, second, end),
        first is Ok,
        second is Ok,
        after_lookups(between, steps).contains_key(first->Ok_0),
    ensures
        first->Ok_0 != second->Ok_0,
{
}

} // verus!
