use vstd::prelude::*;
use crate::cache::{
    batch_spec, filtered_count_spec, records_match, search_hits, text_of, CacheEntry, Database,
};
use crate::fetch::FetchError;
use crate::pokemon::{PokeApiResource, Pokemon};
use crate::text::{
    contains_seq, contains_text, id_from_url, lower_of, lowercase, parse_u32, parsed_u32,
    second_last_segment,
};

verus! {

/// One page of records for the host application.
#[derive(Debug)]
pub struct PokemonListResponse {
    pub pokemon: Vec<Pokemon>,
    pub total_count: u32,
    pub has_more: bool,
}

/// The provider's listing of the species of one type.
#[derive(Debug, Clone, PartialEq, Eq)]
pub struct PokeApiTypeResponse {
    pub pokemon: Vec<PokeApiTypePokemon>,
}

/// One species in the provider's listing of a type.
#[derive(Debug, Clone, PartialEq, Eq)]
pub struct PokeApiTypePokemon {
    pub pokemon: PokeApiResource,
    pub slot: u8,
}

/// The size of the cache, and the time it was measured in seconds since the
/// Unix epoch.
#[derive(Debug, Clone, Copy, PartialEq, Eq)]
pub struct CacheStats {
    pub cached_pokemon_count: u64,
    pub last_updated: i64,
}

/// The most species a name search fetches.
pub const MAX_SEARCH_RESULTS: usize = 20;

/// A count held to 32 bits.
pub open spec fn count_u32(n: int) -> u32 {
    if n > u32::MAX {
        u32::MAX
    } else {
        n as u32
    }
}

/// What the cache answers to a listing request: nothing when the filtered
/// page holds no record; otherwise that page, the number of records that
/// match both filters, and whether records remain after the page.
pub open spec fn cached_listing_spec(
    s: Seq<CacheEntry>,
    offset: u32,
    limit: u32,
    type_filter: Option<Seq<char>>,
    query: Option<Seq<char>>,
    r: Option<PokemonListResponse>,
) -> bool {
    let page = batch_spec(s, offset as int, limit as int, type_filter, query);
    let total = filtered_count_spec(s, type_filter, query);
    &&& page.len() == 0 ==> r is None
    &&& page.len() > 0 ==> {
        &&& r is Some
        &&& records_match(r->0.pokemon@, page)
        &&& r->0.total_count == count_u32(total as int)
        &&& r->0.has_more == ((offset as int) + (limit as int) < total)
    }
}

/// Where the records of a listing come from.
#[derive(Debug)]
pub enum ListingPlan {
    /// The cache answered.
    Cached(PokemonListResponse),
    /// Fetch the provider's listing of the type.
    FetchType(String),
    /// Fetch the provider's general listing.
    FetchGeneral,
    /// Answer with no records.
    Empty,
}

/// How a search query is answered.
#[derive(Debug, Clone, PartialEq, Eq)]
pub enum SearchPlan {
    /// The query is a number: fetch that one record.
    ById(u32),
    /// Match the query against the species names.
    ByName,
}

/// A query that reads as a number names a record by id; any other is
/// matched against names.
pub fn plan_search(query: &str) -> (r: SearchPlan)
    ensures
        r == (match parsed_u32(query@) {
            Some(id) => SearchPlan::ById(id),
            None => SearchPlan::ByName,
        }),
{
    match parse_u32(query) {
        Some(id) => SearchPlan::ById(id),
        None => SearchPlan::ByName,
    }
}

/// The answer to a search by id: the record when it could be had, else no
/// records.
pub fn search_result_by_id(outcome: Result<Pokemon, FetchError>) -> (r: Vec<Pokemon>)
    ensures
        match outcome {
            Ok(p) => r@ == seq![p],
            Err(_) => r@.len() == 0,
        },
{
    match outcome {
        Ok(p) => vec![p],
        Err(_) => Vec::new(),
    }
}

/// The ids read from the links of the resources, skipping links without one.
pub open spec fn resource_ids_spec(s: Seq<PokeApiResource>) -> Seq<u32>
    decreases s.len(),
{
    if s.len() == 0 {
        Seq::empty()
    } else {
        let prev = resource_ids_spec(s.drop_last());
        match second_last_segment(s.last().url@) {
            Some(seg) => match parsed_u32(seg) {
                Some(id) => prev.push(id),
                None => prev,
            },
            None => prev,
        }
    }
}

/// The species whose name holds the lower-cased query, in order.
pub open spec fn species_matching(s: Seq<PokeApiResource>, lowered: Seq<char>) -> Seq<
    PokeApiResource,
>
    decreases s.len(),
{
    if s.len() == 0 {
        Seq::empty()
    } else if contains_seq(lower_of(s.last().name@), lowered) {
        species_matching(s.drop_last(), lowered).push(s.last())
    } else {
        species_matching(s.drop_last(), lowered)
    }
}

/// The records whose lower-cased name holds the lower-cased query, in order.
pub open spec fn records_matching(s: Seq<Pokemon>, query: Seq<char>) -> Seq<Pokemon>
    decreases s.len(),
{
    if s.len() == 0 {
        Seq::empty()
    } else if contains_seq(lower_of(s.last().name@), lower_of(query)) {
        records_matching(s.drop_last(), query).push(s.last())
    } else {
        records_matching(s.drop_last(), query)
    }
}

/// At most `n` leading items.
pub open spec fn take_at_most<A>(s: Seq<A>, n: int) -> Seq<A> {
    if s.len() <= n {
        s
    } else {
        s.subrange(0, n)
    }
}

/// Whether records remain after the page that ends at `offset + limit`.
pub fn has_more_after(offset: u32, limit: u32, total: u64) -> (r: bool)
    ensures
        r == ((offset as int) + (limit as int) < (total as int)),
{
    (offset as u64 + limit as u64) < total
}

fn to_count(n: usize) -> (r: u32)
    ensures
        r == count_u32(n as int),
{
    if n > u32::MAX as usize {
        u32::MAX
    } else {
        n as u32
    }
}

/// The ids in the links of the resources, in order; a link whose
/// second-to-last piece is not a number is skipped.
pub fn resource_ids(resources: &[PokeApiResource]) -> (r: Vec<u32>)
    ensures
        r@ == resource_ids_spec(resources@),
{
    let mut r: Vec<u32> = Vec::new();
    let mut i: usize = 0;
    while i < resources.len()
        invariant
            i <= resources@.len(),
            r@ == resource_ids_spec(resources@.subrange(0, i as int)),
        decreases resources.len() - i,
    {
        assert(resources@.subrange(0, i + 1).drop_last() =~= resources@.subrange(0, i as int));
        assert(resources@.subrange(0, i + 1).last() == resources@[i as int]);
        match id_from_url(resources[i].url.as_str()) {
            Some(id) => r.push(id),
            None => {},
        }
        i = i + 1;
    }
    assert(resources@.subrange(0, i as int) =~= resources@);
    r
}

/// The ids of the first twenty species whose name holds the query, both
/// lower-cased, in listing order.
pub fn matching_species_ids(species: &[PokeApiResource], query: &str) -> (r: Vec<u32>)
    ensures
        r@ == resource_ids_spec(
            take_at_most(species_matching(species@, lower_of(query@)), MAX_SEARCH_RESULTS as int),
        ),
{
    let lowered = lowercase(query);
    let mut picked: Vec<PokeApiResource> = Vec::new();
    let mut i: usize = 0;
    while i < species.len()
        invariant
            i <= species@.len(),
            lowered@ == lower_of(query@),
            picked@ == take_at_most(
                species_matching(species@.subrange(0, i as int), lowered@),
                MAX_SEARCH_RESULTS as int,
            ),
        decreases species.len() - i,
    {
        let ghost pre = species@.subrange(0, i as int);
        assert(species@.subrange(0, i + 1).drop_last() =~= pre);
        assert(species@.subrange(0, i + 1).last() == species@[i as int]);
        let name = lowercase(species[i].name.as_str());
        if contains_text(name.as_str(), lowered.as_str()) {
            let ghost m = species_matching(pre, lowered@);
            assert(species_matching(species@.subrange(0, i + 1), lowered@) == m.push(
                species@[i as int],
            ));
            if picked.len() < MAX_SEARCH_RESULTS {
                picked.push(PokeApiResource {
                    name: species[i].name.clone(),
                    url: species[i].url.clone(),
                });
                assert(picked@ =~= take_at_most(m.push(species@[i as int]), MAX_SEARCH_RESULTS as int));
            } else {
                assert(take_at_most(m.push(species@[i as int]), MAX_SEARCH_RESULTS as int)
                    =~= take_at_most(m, MAX_SEARCH_RESULTS as int));
            }
        }
        i = i + 1;
    }
    assert(species@.subrange(0, i as int) =~= species@);
    resource_ids(picked.as_slice())
}

/// The ids of the species on one page of a type listing: `offset` skipped,
/// at most `limit` taken, links without an id skipped.
pub fn type_page_ids(entries: &[PokeApiTypePokemon], offset: u32, limit: u32) -> (r: Vec<u32>)
    ensures
        r@ == resource_ids_spec(
            take_at_most(
                entries@.subrange(
                    if offset < entries@.len() {
                        offset as int
                    } else {
                        entries@.len() as int
                    },
                    entries@.len() as int,
                ),
                limit as int,
            ).map_values(|e: PokeApiTypePokemon| e.pokemon),
        ),
{
    let start: usize = if (offset as usize) < entries.len() {
        offset as usize
    } else {
        entries.len()
    };
    let ghost rest = entries@.subrange(start as int, entries@.len() as int);
    let ghost taken = take_at_most(rest, limit as int);
    let mut refs: Vec<PokeApiResource> = Vec::new();
    let mut i: usize = start;
    while i < entries.len() && ((i - start) as u64) < limit as u64
        invariant
            start <= i <= entries@.len(),
            rest == entries@.subrange(start as int, entries@.len() as int),
            taken == take_at_most(rest, limit as int),
            i - start <= limit,
            refs@ == entries@.subrange(start as int, i as int).map_values(
                |e: PokeApiTypePokemon| e.pokemon,
            ),
        decreases entries.len() - i,
    {
        refs.push(PokeApiResource {
            name: entries[i].pokemon.name.clone(),
            url: entries[i].pokemon.url.clone(),
        });
        assert(entries@.subrange(start as int, i + 1).map_values(|e: PokeApiTypePokemon| e.pokemon)
            =~= entries@.subrange(start as int, i as int).map_values(
            |e: PokeApiTypePokemon| e.pokemon,
        ).push(entries@[i as int].pokemon));
        i = i + 1;
    }
    assert(taken =~= entries@.subrange(start as int, i as int));
    resource_ids(refs.as_slice())
}

/// The records whose name holds the query (ignoring case), in order; with
/// no query, all of them.
pub fn keep_name_matches(pokemon: Vec<Pokemon>, search_query: &Option<String>) -> (r: Vec<
    Pokemon,
>)
    ensures
        match search_query {
            Some(q) => r@ == records_matching(pokemon@, q@),
            None => r@ == pokemon@,
        },
{
    match search_query {
        None => pokemon,
        Some(q) => {
            let lowered = lowercase(q.as_str());
            let ghost all = pokemon@;
            let mut rest = pokemon;
            let mut kept: Vec<Pokemon> = Vec::new();
            let ghost mut k: int = 0;
            while rest.len() > 0
                invariant
                    lowered@ == lower_of(q@),
                    0 <= k <= all.len(),
                    rest@ == all.subrange(k, all.len() as int),
                    kept@ == records_matching(all.subrange(0, k), q@),
                decreases rest.len(),
            {
                let p = rest.remove(0);
                assert(p == all[k]);
                assert(all.subrange(0, k + 1).drop_last() =~= all.subrange(0, k));
                assert(all.subrange(0, k + 1).last() == p);
                let name = lowercase(p.name.as_str());
                if contains_text(name.as_str(), lowered.as_str()) {
                    kept.push(p);
                }
                assert(rest@ =~= all.subrange(k + 1, all.len() as int));
                proof {
                    k = k + 1;
                }
            }
            assert(all.subrange(0, k) =~= all);
            kept
        },
    }
}

impl Database {
    /// The cache's answer to a listing request: nothing when the filtered
    /// page holds no record; otherwise that page, the number of records that
    /// match both filters, and whether records remain after the page.
    pub fn cached_listing(
        &self,
        offset: u32,
        limit: u32,
        type_filter: Option<String>,
        search_query: Option<String>,
    ) -> (r: Option<PokemonListResponse>)
        requires
            self.well_formed(),
        ensures
            cached_listing_spec(
                self@,
                offset,
                limit,
                text_of(type_filter),
                text_of(search_query),
                r,
            ),
    {
        let tf = type_filter.clone();
        let q = search_query.clone();
        let pokemon = self.get_pokemon_batch_filtered(offset, limit, type_filter, search_query);
        if pokemon.len() == 0 {
            return None;
        }
        let total = self.get_pokemon_count_filtered(tf, q);
        Some(PokemonListResponse {
            pokemon,
            total_count: to_count(total),
            has_more: has_more_after(offset, limit, total as u64),
        })
    }

    /// The plan of a listing: the cache's answer when it has one; else the
    /// provider's listing of the type when a type is asked for, and its
    /// general listing otherwise.
    pub fn plan_listing(
        &self,
        offset: u32,
        limit: u32,
        type_filter: Option<String>,
        search_query: Option<String>,
    ) -> (r: ListingPlan)
        requires
            self.well_formed(),
        ensures
            match r {
                ListingPlan::Cached(l) => cached_listing_spec(
                    self@,
                    offset,
                    limit,
                    text_of(type_filter),
                    text_of(search_query),
                    Some(l),
                ),
                ListingPlan::FetchType(t) => cached_listing_spec(
                    self@,
                    offset,
                    limit,
                    text_of(type_filter),
                    text_of(search_query),
                    None,
                ) && type_filter == Some(t),
                ListingPlan::FetchGeneral => cached_listing_spec(
                    self@,
                    offset,
                    limit,
                    text_of(type_filter),
                    text_of(search_query),
                    None,
                ) && type_filter is None,
                ListingPlan::Empty => false,
            },
    {
        let tf = type_filter.clone();
        match self.cached_listing(offset, limit, type_filter, search_query) {
            Some(l) => ListingPlan::Cached(l),
            None => match tf {
                Some(t) => ListingPlan::FetchType(t),
                None => ListingPlan::FetchGeneral,
            },
        }
    }

    /// The plan of a listing that falls back on the provider only when no
    /// filter is given: the cache's answer when it has one; else the
    /// provider's general listing without filters, and no records with them.
    pub fn plan_listing_unfiltered_fallback(
        &self,
        offset: u32,
        limit: u32,
        type_filter: Option<String>,
        search_query: Option<String>,
    ) -> (r: ListingPlan)
        requires
            self.well_formed(),
        ensures
            match r {
                ListingPlan::Cached(l) => cached_listing_spec(
                    self@,
                    offset,
                    limit,
                    text_of(type_filter),
                    text_of(search_query),
                    Some(l),
                ),
                ListingPlan::FetchGeneral => cached_listing_spec(
                    self@,
                    offset,
                    limit,
                    text_of(type_filter),
                    text_of(search_query),
                    None,
                ) && type_filter is None && search_query is None,
                ListingPlan::Empty => cached_listing_spec(
                    self@,
                    offset,
                    limit,
                    text_of(type_filter),
                    text_of(search_query),
                    None,
                ) && (type_filter is Some || search_query is Some),
                ListingPlan::FetchType(_) => false,
            },
    {
        let unfiltered = type_filter.is_none() && search_query.is_none();
        match self.cached_listing(offset, limit, type_filter, search_query) {
            Some(l) => ListingPlan::Cached(l),
            None => if unfiltered {
                ListingPlan::FetchGeneral
            } else {
                ListingPlan::Empty
            },
        }
    }

    /// The number of stored records, measured at `now`.
    pub fn get_cache_stats(&self, now: i64) -> (r: CacheStats)
        ensures
            r.cached_pokemon_count == self@.len(),
            r.last_updated == now,
    {
        CacheStats { cached_pokemon_count: self.get_cached_pokemon_count() as u64, last_updated: now }
    }
}

/// Counting the records that match both filters agrees with listing them:
/// a page from the start that is long enough to hold every name match
/// holds exactly as many records as the count gives.
pub proof fn lemma_count_agrees_with_batch(
    s: Seq<CacheEntry>,
    type_filter: Option<Seq<char>>,
    query: Option<Seq<char>>,
    limit: int,
)
    requires
        limit >= search_hits(s, query).len(),
    ensures
        batch_spec(s, 0, limit, type_filter, query).len() == filtered_count_spec(
            s,
            type_filter,
            query,
        ),
{
    let h = search_hits(s, query);
    assert(crate::cache::page(h, 0, limit) =~= h);
}

/// A listing of records fetched from the provider's general listing, which
/// counts `count` species in all.
pub fn api_listing(pokemon: Vec<Pokemon>, count: u32, offset: u32, limit: u32) -> (r:
    PokemonListResponse)
    ensures
        r.pokemon@ == pokemon@,
        r.total_count == count,
        r.has_more == ((offset as int) + (limit as int) < (count as int)),
{
    PokemonListResponse { pokemon, total_count: count, has_more: has_more_after(offset, limit, count as u64) }
}

/// A listing of records fetched from a type listing: all of them, with
/// nothing further.
pub fn type_listing(pokemon: Vec<Pokemon>) -> (r: PokemonListResponse)
    ensures
        r.total_count == count_u32(pokemon@.len() as int),
        r.has_more == false,
        r.pokemon@ == pokemon@,
{
    let n = to_count(pokemon.len());
    PokemonListResponse { pokemon, total_count: n, has_more: false }
}

/// The listing with no records.
pub fn empty_listing() -> (r: PokemonListResponse)
    ensures
        r.pokemon@.len() == 0,
        r.total_count == 0,
        r.has_more == false,
{
    PokemonListResponse { pokemon: Vec::new(), total_count: 0, has_more: false }
}

} // verus!
