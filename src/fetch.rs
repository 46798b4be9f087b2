use vstd::prelude::*;
use crate::cache::{
    holds_id, lookup_matches, stored_after_put, valid_spec, CacheEntry,
    Database,
};
use crate::pokemon::{normalized_from, PokeApiPokemonResponse, Pokemon};

verus! {

/// Hours that a cached record is trusted on the fetch-through path.
pub const CACHE_TTL_HOURS: i64 = 24;

/// What the remote provider answered to a request for one record.
#[derive(Debug)]
pub enum FetchOutcome {
    /// A success status and a body that parsed into a provider record.
    Received(PokeApiPokemonResponse),
    /// The provider could not be reached; the transport's message.
    Unreachable(String),
    /// The provider answered with a status other than success.
    Status(u16),
    /// The body did not parse into a provider record; the parser's message.
    Unparsable(String),
}

/// Why a record could not be had from the provider.
#[derive(Debug, Clone, PartialEq, Eq)]
pub enum FetchError {
    /// The provider was unreachable.
    Transport(String),
    /// The provider answered with a status other than success.
    Status(u16),
    /// The response did not have the expected shape.
    Schema(String),
}

/// The result of completing a fetch with the provider's answer: a success
/// yields the normalized record and stores it at `now`; a failure is passed
/// on and nothing is stored.
pub open spec fn fetch_completed(
    before: Seq<CacheEntry>,
    after: Seq<CacheEntry>,
    outcome: FetchOutcome,
    now: i64,
    r: Result<Pokemon, FetchError>,
) -> bool {
    match outcome {
        FetchOutcome::Received(resp) => r is Ok && normalized_from(r->Ok_0, resp) && stored_after_put(
            before,
            after,
            r->Ok_0,
            Some(now),
        ),
        FetchOutcome::Unreachable(m) => r == Err::<Pokemon, FetchError>(FetchError::Transport(m))
            && after == before,
        FetchOutcome::Status(code) => r == Err::<Pokemon, FetchError>(FetchError::Status(code))
            && after == before,
        FetchOutcome::Unparsable(m) => r == Err::<Pokemon, FetchError>(FetchError::Schema(m))
            && after == before,
    }
}

impl Database {
    /// Whether a record of the id is stored, fresh or not.
    pub fn is_cached(&self, id: u32) -> (r: bool)
        requires
            self.well_formed(),
        ensures
            r == holds_id(self@, id),
    {
        let found = self.get_cached_pokemon(id);
        found.is_some()
    }

    /// The first step of the fetch-through read: a copy of the cached record
    /// when it is valid at `now` for `ttl_hours`, else nothing.
    pub fn fresh_cached_pokemon(&self, id: u32, ttl_hours: i64, now: i64) -> (r: Option<
        Pokemon,
    >)
        requires
            self.well_formed(),
        ensures
            valid_spec(self@, id, ttl_hours as int, now as int) ==> lookup_matches(self@, id, r),
            !valid_spec(self@, id, ttl_hours as int, now as int) ==> r is None,
    {
        if self.is_pokemon_cache_valid(id, ttl_hours, now) {
            self.get_cached_pokemon(id)
        } else {
            None
        }
    }

    /// The last step of the fetch-through read: a received record is
    /// normalized, stored with the write time `now` and returned; a failure
    /// is returned as the matching error and stores nothing.
    pub fn complete_fetch(&mut self, outcome: FetchOutcome, now: i64) -> (r: Result<
        Pokemon,
        FetchError,
    >)
        requires
            old(self).well_formed(),
        ensures
            final(self).well_formed(),
            fetch_completed(old(self)@, final(self)@, outcome, now, r),
            final(self).same_roster(old(self)),
    {
        match outcome {
            FetchOutcome::Received(resp) => {
                let pokemon = Pokemon::from_pokeapi_response(resp);
                self.cache_pokemon(&pokemon, now);
                Ok(pokemon)
            },
            FetchOutcome::Unreachable(m) => Err(FetchError::Transport(m)),
            FetchOutcome::Status(code) => Err(FetchError::Status(code)),
            FetchOutcome::Unparsable(m) => Err(FetchError::Schema(m)),
        }
    }
}

/// The last id of the species that an initial load of a generation covers;
/// generation 1 and anything unknown cover the first 151.
pub open spec fn generation_limit_spec(generation: Option<u32>) -> u32 {
    match generation {
        Some(2) => 251,
        Some(3) => 386,
        Some(4) => 493,
        Some(5) => 649,
        _ => 151,
    }
}

/// The last id that an initial load of the generation covers.
pub fn generation_limit(generation: Option<u32>) -> (r: u32)
    ensures
        r == generation_limit_spec(generation),
{
    match generation {
        Some(2) => 251,
        Some(3) => 386,
        Some(4) => 493,
        Some(5) => 649,
        _ => 151,
    }
}

/// The number of species a complete cache holds when no bound is given.
pub const DEFAULT_DEX_SIZE: u32 = 1010;

/// The number of species a complete cache holds: the given bound, else
/// the default.
pub fn expected_dex_size(max_id: Option<u32>) -> (r: u32)
    ensures
        r == (match max_id {
            Some(n) => n,
            None => DEFAULT_DEX_SIZE,
        }),
{
    match max_id {
        Some(n) => n,
        None => DEFAULT_DEX_SIZE,
    }
}

/// The tally of a bulk load: records loaded, failures, and the ids that
/// failed, in order.
#[derive(Debug)]
pub struct BulkLoadSummary {
    pub loaded: u64,
    pub errors: u64,
    pub failed_ids: Vec<u32>,
}

impl BulkLoadSummary {
    /// A tally of nothing.
    pub fn new() -> (r: Self)
        ensures
            r.loaded == 0,
            r.errors == 0,
            r.failed_ids@.len() == 0,
    {
        BulkLoadSummary { loaded: 0, errors: 0, failed_ids: Vec::new() }
    }

    /// Counts the outcome of loading one id.
    pub fn record(&mut self, id: u32, outcome: &Result<Pokemon, FetchError>)
        requires
            old(self).loaded < u64::MAX,
            old(self).errors < u64::MAX,
        ensures
            outcome is Ok ==> final(self).loaded == old(self).loaded + 1 && final(self).errors
                == old(self).errors && final(self).failed_ids@ == old(self).failed_ids@,
            outcome is Err ==> final(self).loaded == old(self).loaded && final(self).errors
                == old(self).errors + 1 && final(self).failed_ids@ == old(self).failed_ids@.push(id),
    {
        match outcome {
            Ok(_) => {
                self.loaded = self.loaded + 1;
            },
            Err(_) => {
                self.errors = self.errors + 1;
                self.failed_ids.push(id);
            },
        }
    }
}

/// A bulk load of ids taken in order; ids already cached when their turn
/// comes are skipped.
#[derive(Debug)]
pub struct BulkLoad {
    pub ids: Vec<u32>,
    /// The position of the next id to look at.
    pub next: usize,
    pub summary: BulkLoadSummary,
}

/// What a bulk load does next.
#[derive(Debug, Clone, Copy, PartialEq, Eq)]
pub enum BulkStep {
    /// Fetch the record of the id, then record the outcome.
    Fetch(u32),
    /// Every id has been looked at.
    Finished,
}

impl BulkLoad {
    /// A load of the ids, in order, with nothing tallied yet.
    pub fn new(ids: Vec<u32>) -> (r: Self)
        ensures
            r.ids@ == ids@,
            r.next == 0,
            r.summary.loaded == 0,
            r.summary.errors == 0,
            r.summary.failed_ids@.len() == 0,
    {
        BulkLoad { ids, next: 0, summary: BulkLoadSummary::new() }
    }

    /// Moves past the ids that are cached and names the first one that is
    /// not, or says that none is left.
    pub fn next_step(&mut self, db: &Database) -> (r: BulkStep)
        requires
            db.well_formed(),
        ensures
            final(self).ids == old(self).ids,
            final(self).summary == old(self).summary,
            forall|k: int|
                old(self).next <= k < final(self).next - 1 ==> holds_id(
                    db@,
                    #[trigger] old(self).ids@[k],
                ),
            match r {
                BulkStep::Fetch(id) => {
                    &&& old(self).next < final(self).next <= old(self).ids@.len()
                    &&& old(self).ids@[final(self).next - 1] == id
                    &&& !holds_id(db@, id)
                },
                BulkStep::Finished => {
                    &&& final(self).next >= old(self).ids@.len()
                    &&& forall|k: int|
                        old(self).next <= k < old(self).ids@.len() ==> holds_id(
                            db@,
                            #[trigger] old(self).ids@[k],
                        )
                },
            },
    {
        let start = self.next;
        while self.next < self.ids.len()
            invariant
                self.ids == old(self).ids,
                self.summary == old(self).summary,
                start == old(self).next,
                self.next >= start,
                db.well_formed(),
                forall|k: int| start <= k < self.next ==> holds_id(db@, #[trigger] self.ids@[k]),
            decreases self.ids.len() - self.next,
        {
            let id = self.ids[self.next];
            self.next = self.next + 1;
            if !db.is_cached(id) {
                return BulkStep::Fetch(id);
            }
        }
        BulkStep::Finished
    }

    /// Counts the outcome of loading one id.
    pub fn record(&mut self, id: u32, outcome: &Result<Pokemon, FetchError>)
        requires
            old(self).summary.loaded < u64::MAX,
            old(self).summary.errors < u64::MAX,
        ensures
            final(self).ids == old(self).ids,
            final(self).next == old(self).next,
            outcome is Ok ==> final(self).summary.loaded == old(self).summary.loaded + 1
                && final(self).summary.errors == old(self).summary.errors
                && final(self).summary.failed_ids@ == old(self).summary.failed_ids@,
            outcome is Err ==> final(self).summary.loaded == old(self).summary.loaded
                && final(self).summary.errors == old(self).summary.errors + 1
                && final(self).summary.failed_ids@ == old(self).summary.failed_ids@.push(id),
    {
        self.summary.record(id, outcome);
    }
}

} // verus!
