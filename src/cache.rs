use vstd::prelude::*;
use crate::pokemon::Pokemon;
use crate::text::{contains_seq, contains_text, lower_of, lowercase, same_text};

verus! {

/// Seconds in one hour.
pub const SECONDS_PER_HOUR: i64 = 3600;

/// One stored record: the record, its name kept beside it for searching, and
/// the time of its last write in seconds since the Unix epoch, unknown when
/// a stored time could not be read.
#[derive(Debug)]
pub struct CacheEntry {
    pub id: u32,
    pub name: String,
    pub pokemon: Pokemon,
    pub last_updated: Option<i64>,
}

impl CacheEntry {
    /// Same id, name and write time, and a copy of the record.
    pub open spec fn same_entry(&self, other: &CacheEntry) -> bool {
        &&& self.id == other.id
        &&& self.name == other.name
        &&& self.pokemon.same_record(&other.pokemon)
        &&& self.last_updated == other.last_updated
    }
}

impl Clone for CacheEntry {
    fn clone(&self) -> (r: Self)
        ensures
            r.same_entry(self),
    {
        CacheEntry {
            id: self.id,
            name: self.name.clone(),
            pokemon: self.pokemon.clone(),
            last_updated: self.last_updated,
        }
    }
}

/// Entries are ordered by strictly ascending id, so each id occurs at most
/// once, and each entry is keyed by its record's id and name.
pub open spec fn entries_well_formed(s: Seq<CacheEntry>) -> bool {
    &&& forall|i: int, j: int| 0 <= i < j < s.len() ==> s[i].id < s[j].id
    &&& forall|i: int|
        0 <= i < s.len() ==> s[i].id == (#[trigger] s[i]).pokemon.id && s[i].name
            == s[i].pokemon.name
}

/// Whether some entry has the id.
pub open spec fn holds_id(s: Seq<CacheEntry>, id: u32) -> bool {
    exists|i: int| 0 <= i < s.len() && (#[trigger] s[i]).id == id
}

/// The entry with the id, if any.
pub open spec fn entry_of(s: Seq<CacheEntry>, id: u32) -> Option<CacheEntry> {
    if holds_id(s, id) {
        Some(s[choose|i: int| 0 <= i < s.len() && (#[trigger] s[i]).id == id])
    } else {
        None
    }
}

/// An entry written at `last_updated` is fresh at `now` for a time-to-live of
/// `max_age_hours` while less than that many hours have passed; an entry of
/// unknown write time is never fresh.
pub open spec fn is_fresh(last_updated: Option<i64>, now: int, max_age_hours: int) -> bool {
    match last_updated {
        Some(t) => now - t < max_age_hours * 3600,
        None => false,
    }
}

/// Whether the entry of the id exists and is fresh.
pub open spec fn valid_spec(s: Seq<CacheEntry>, id: u32, max_age_hours: int, now: int) -> bool {
    match entry_of(s, id) {
        Some(e) => is_fresh(e.last_updated, now, max_age_hours),
        None => false,
    }
}

/// The fresh entries, in order.
pub open spec fn fresh_entries(s: Seq<CacheEntry>, now: int, max_age_hours: int) -> Seq<
    CacheEntry,
>
    decreases s.len(),
{
    if s.len() == 0 {
        Seq::empty()
    } else if is_fresh(s.last().last_updated, now, max_age_hours) {
        fresh_entries(s.drop_last(), now, max_age_hours).push(s.last())
    } else {
        fresh_entries(s.drop_last(), now, max_age_hours)
    }
}

/// The entries that are no longer fresh, in order.
pub open spec fn stale_entries(s: Seq<CacheEntry>, now: int, max_age_hours: int) -> Seq<
    CacheEntry,
>
    decreases s.len(),
{
    if s.len() == 0 {
        Seq::empty()
    } else if is_fresh(s.last().last_updated, now, max_age_hours) {
        stale_entries(s.drop_last(), now, max_age_hours)
    } else {
        stale_entries(s.drop_last(), now, max_age_hours).push(s.last())
    }
}

/// `after` is `before` with the record stored under its id with the write
/// time `written`: that id maps to a copy of the record, every other id is
/// unchanged.
pub open spec fn stored_after_put(
    before: Seq<CacheEntry>,
    after: Seq<CacheEntry>,
    pokemon: Pokemon,
    written: Option<i64>,
) -> bool {
    &&& entries_well_formed(after)
    &&& after.len() == before.len() + if holds_id(before, pokemon.id) {
        0int
    } else {
        1int
    }
    &&& match entry_of(after, pokemon.id) {
        Some(e) => e.pokemon.same_record(&pokemon) && e.last_updated == written,
        None => false,
    }
    &&& forall|id: u32| id != pokemon.id ==> #[trigger] entry_of(after, id) == entry_of(before, id)
}

/// Records are copies of the records of the entries, one for one and in order.
pub open spec fn records_match(r: Seq<Pokemon>, es: Seq<CacheEntry>) -> bool {
    &&& r.len() == es.len()
    &&& forall|i: int| 0 <= i < r.len() ==> (#[trigger] r[i]).same_record(&es[i].pokemon)
}

/// The entries whose id lies in `[lo, hi]`, in order.
pub open spec fn entries_in_range(s: Seq<CacheEntry>, lo: int, hi: int) -> Seq<CacheEntry>
    decreases s.len(),
{
    if s.len() == 0 {
        Seq::empty()
    } else if lo <= s.last().id && s.last().id <= hi {
        entries_in_range(s.drop_last(), lo, hi).push(s.last())
    } else {
        entries_in_range(s.drop_last(), lo, hi)
    }
}

/// The characters of an optional filter text.
pub open spec fn text_of(o: Option<String>) -> Option<Seq<char>> {
    match o {
        Some(t) => Some(t@),
        None => None,
    }
}

/// Whether the stored name holds the query, both lower-cased; with no query
/// every entry matches.
pub open spec fn name_matches(e: CacheEntry, query: Option<Seq<char>>) -> bool {
    match query {
        Some(q) => contains_seq(lower_of(e.name@), lower_of(q)),
        None => true,
    }
}

/// Whether some type tag of the record equals the filter, both lower-cased;
/// with no filter every record matches.
pub open spec fn has_type(p: Pokemon, type_filter: Option<Seq<char>>) -> bool {
    match type_filter {
        Some(t) => exists|i: int|
            0 <= i < p.types@.len() && lower_of((#[trigger] p.types@[i]).name@) == lower_of(t),
        None => true,
    }
}

/// The entries whose name matches the query, in order.
pub open spec fn search_hits(s: Seq<CacheEntry>, query: Option<Seq<char>>) -> Seq<CacheEntry>
    decreases s.len(),
{
    if s.len() == 0 {
        Seq::empty()
    } else if name_matches(s.last(), query) {
        search_hits(s.drop_last(), query).push(s.last())
    } else {
        search_hits(s.drop_last(), query)
    }
}

/// The entries whose record has the type, in order.
pub open spec fn type_hits(s: Seq<CacheEntry>, type_filter: Option<Seq<char>>) -> Seq<CacheEntry>
    decreases s.len(),
{
    if s.len() == 0 {
        Seq::empty()
    } else if has_type(s.last().pokemon, type_filter) {
        type_hits(s.drop_last(), type_filter).push(s.last())
    } else {
        type_hits(s.drop_last(), type_filter)
    }
}

/// At most `limit` entries, starting at position `offset`.
pub open spec fn page(s: Seq<CacheEntry>, offset: int, limit: int) -> Seq<CacheEntry> {
    let lo = if offset < s.len() {
        offset
    } else {
        s.len() as int
    };
    let hi = if offset + limit < s.len() {
        offset + limit
    } else {
        s.len() as int
    };
    s.subrange(lo, hi)
}

/// One page of the entries that match the query, ordered by id, with the
/// type filter applied to that page afterwards.
pub open spec fn batch_spec(
    s: Seq<CacheEntry>,
    offset: int,
    limit: int,
    type_filter: Option<Seq<char>>,
    query: Option<Seq<char>>,
) -> Seq<CacheEntry> {
    type_hits(page(search_hits(s, query), offset, limit), type_filter)
}

/// The number of entries that match both the query and the type filter.
pub open spec fn filtered_count_spec(
    s: Seq<CacheEntry>,
    type_filter: Option<Seq<char>>,
    query: Option<Seq<char>>,
) -> nat {
    type_hits(search_hits(s, query), type_filter).len()
}

/// What a lookup of the id returns: a copy of the stored record, or nothing.
pub open spec fn lookup_matches(s: Seq<CacheEntry>, id: u32, r: Option<Pokemon>) -> bool {
    match entry_of(s, id) {
        Some(e) => r is Some && r->0.same_record(&e.pokemon),
        None => r is None,
    }
}

proof fn lemma_entry_at(s: Seq<CacheEntry>, i: int)
    requires
        entries_well_formed(s),
        0 <= i < s.len(),
    ensures
        entry_of(s, s[i].id) == Some(s[i]),
{
    assert(holds_id(s, s[i].id));
    let j = choose|j: int| 0 <= j < s.len() && (#[trigger] s[j]).id == s[i].id;
    if j < i {
        assert(s[j].id < s[i].id);
    } else if j > i {
        assert(s[i].id < s[j].id);
    }
}

proof fn lemma_fresh_len(s: Seq<CacheEntry>, now: int, h: int)
    ensures
        fresh_entries(s, now, h).len() + stale_entries(s, now, h).len() == s.len(),
    decreases s.len(),
{
    if s.len() > 0 {
        lemma_fresh_len(s.drop_last(), now, h);
    }
}

proof fn lemma_fresh_members(s: Seq<CacheEntry>, now: int, h: int)
    ensures
        forall|k: int|
            0 <= k < fresh_entries(s, now, h).len() ==> exists|i: int|
                0 <= i < s.len() && s[i] == #[trigger] fresh_entries(s, now, h)[k],
        forall|k: int|
            0 <= k < fresh_entries(s, now, h).len() ==> is_fresh(
                (#[trigger] fresh_entries(s, now, h)[k]).last_updated,
                now,
                h,
            ),
    decreases s.len(),
{
    if s.len() > 0 {
        let p = s.drop_last();
        lemma_fresh_members(p, now, h);
        let fp = fresh_entries(p, now, h);
        let f = fresh_entries(s, now, h);
        assert forall|k: int| 0 <= k < f.len() implies exists|i: int|
            0 <= i < s.len() && s[i] == #[trigger] f[k] by {
            if k < fp.len() {
                assert(f[k] == fp[k]);
                let i = choose|i: int| 0 <= i < p.len() && p[i] == fp[k];
                assert(s[i] == p[i]);
            } else {
                assert(s[s.len() - 1] == f[k]);
            }
        }
        assert forall|k: int| 0 <= k < f.len() implies is_fresh(
            (#[trigger] f[k]).last_updated,
            now,
            h,
        ) by {
            if k < fp.len() {
                assert(f[k] == fp[k]);
            }
        }
    }
}

proof fn lemma_fresh_complete(s: Seq<CacheEntry>, now: int, h: int)
    ensures
        forall|i: int|
            0 <= i < s.len() && is_fresh((#[trigger] s[i]).last_updated, now, h)
                ==> exists|k: int|
                0 <= k < fresh_entries(s, now, h).len() && fresh_entries(s, now, h)[k] == s[i],
    decreases s.len(),
{
    if s.len() > 0 {
        let p = s.drop_last();
        lemma_fresh_complete(p, now, h);
        let fp = fresh_entries(p, now, h);
        let f = fresh_entries(s, now, h);
        assert forall|i: int|
            0 <= i < s.len() && is_fresh((#[trigger] s[i]).last_updated, now, h) implies exists|k: int|
            0 <= k < f.len() && f[k] == s[i] by {
            if i < p.len() {
                assert(p[i] == s[i]);
                let k = choose|k: int| 0 <= k < fp.len() && fp[k] == p[i];
                assert(f[k] == fp[k]);
            } else {
                assert(f[f.len() - 1] == s[i]);
            }
        }
    }
}

proof fn lemma_fresh_well_formed(s: Seq<CacheEntry>, now: int, h: int)
    requires
        entries_well_formed(s),
    ensures
        entries_well_formed(fresh_entries(s, now, h)),
    decreases s.len(),
{
    if s.len() > 0 {
        let p = s.drop_last();
        assert(entries_well_formed(p));
        lemma_fresh_well_formed(p, now, h);
        lemma_fresh_members(p, now, h);
        let fp = fresh_entries(p, now, h);
        let f = fresh_entries(s, now, h);
        assert forall|k: int| 0 <= k < fp.len() implies (#[trigger] fp[k]).id < s.last().id by {
            let i = choose|i: int| 0 <= i < p.len() && p[i] == fp[k];
            assert(s[i] == p[i]);
        }
        if is_fresh(s.last().last_updated, now, h) {
            assert forall|i: int, j: int| 0 <= i < j < f.len() implies f[i].id < f[j].id by {
                if j < fp.len() {
                    assert(f[i] == fp[i] && f[j] == fp[j]);
                } else {
                    assert(f[i] == fp[i]);
                }
            }
            assert forall|i: int| 0 <= i < f.len() implies f[i].id == (
            #[trigger] f[i]).pokemon.id && f[i].name == f[i].pokemon.name by {
                if i < fp.len() {
                    assert(f[i] == fp[i]);
                }
            }
        }
    }
}

proof fn lemma_fresh_entries(s: Seq<CacheEntry>, now: int, h: int)
    requires
        entries_well_formed(s),
    ensures
        entries_well_formed(fresh_entries(s, now, h)),
        forall|k: int|
            0 <= k < fresh_entries(s, now, h).len() ==> exists|i: int|
                0 <= i < s.len() && s[i] == #[trigger] fresh_entries(s, now, h)[k],
        forall|k: int|
            0 <= k < fresh_entries(s, now, h).len() ==> is_fresh(
                (#[trigger] fresh_entries(s, now, h)[k]).last_updated,
                now,
                h,
            ),
        forall|i: int|
            0 <= i < s.len() && is_fresh((#[trigger] s[i]).last_updated, now, h)
                ==> exists|k: int|
                0 <= k < fresh_entries(s, now, h).len() && fresh_entries(s, now, h)[k] == s[i],
        fresh_entries(s, now, h).len() + stale_entries(s, now, h).len() == s.len(),
{
    lemma_fresh_len(s, now, h);
    lemma_fresh_members(s, now, h);
    lemma_fresh_complete(s, now, h);
    lemma_fresh_well_formed(s, now, h);
}

/// Once the entries that are no longer fresh are dropped, an id maps to its
/// entry if that entry is fresh, and to nothing otherwise.
pub proof fn lemma_expired_lookup(s: Seq<CacheEntry>, now: int, max_age_hours: int, id: u32)
    requires
        entries_well_formed(s),
    ensures
        entry_of(fresh_entries(s, now, max_age_hours), id) == (match entry_of(s, id) {
            Some(e) => if is_fresh(e.last_updated, now, max_age_hours) {
                Some(e)
            } else {
                None
            },
            None => None,
        }),
{
    let f = fresh_entries(s, now, max_age_hours);
    lemma_fresh_entries(s, now, max_age_hours);
    if holds_id(f, id) {
        let k = choose|k: int| 0 <= k < f.len() && (#[trigger] f[k]).id == id;
        lemma_entry_at(f, k);
        let i = choose|i: int| 0 <= i < s.len() && s[i] == #[trigger] f[k];
        lemma_entry_at(s, i);
    } else if holds_id(s, id) {
        let i = choose|i: int| 0 <= i < s.len() && (#[trigger] s[i]).id == id;
        lemma_entry_at(s, i);
        if is_fresh(s[i].last_updated, now, max_age_hours) {
            let k = choose|k: int| 0 <= k < f.len() && f[k] == s[i];
            assert(f[k].id == id);
        }
    }
}

/// Dropping the stale entries removes exactly as many entries as are stale.
pub proof fn lemma_expired_count(s: Seq<CacheEntry>, now: int, max_age_hours: int)
    requires
        entries_well_formed(s),
    ensures
        s.len() - fresh_entries(s, now, max_age_hours).len() == stale_entries(
            s,
            now,
            max_age_hours,
        ).len(),
{
    lemma_fresh_entries(s, now, max_age_hours);
}

/// A record read back after it was stored equals it in every field.
pub proof fn lemma_round_trip(
    before: Seq<CacheEntry>,
    after: Seq<CacheEntry>,
    pokemon: Pokemon,
    written: Option<i64>,
    read: Option<Pokemon>,
)
    requires
        stored_after_put(before, after, pokemon, written),
        lookup_matches(after, pokemon.id, read),
    ensures
        read is Some,
        read->0.same_record(&pokemon),
{
}

/// Right after a record is stored it is valid for any positive time-to-live,
/// and it is no longer valid once that many hours have passed.
pub proof fn lemma_valid_after_put(
    before: Seq<CacheEntry>,
    after: Seq<CacheEntry>,
    pokemon: Pokemon,
    stored_at: i64,
    max_age_hours: int,
    now: int,
)
    requires
        stored_after_put(before, after, pokemon, Some(stored_at)),
    ensures
        max_age_hours > 0 ==> valid_spec(after, pokemon.id, max_age_hours, stored_at as int),
        now - stored_at >= max_age_hours * 3600 ==> !valid_spec(
            after,
            pokemon.id,
            max_age_hours,
            now,
        ),
{
}

/// Whether a write time is less than `max_age_hours` hours before `now`.
fn time_is_fresh(last_updated: Option<i64>, max_age_hours: i64, now: i64) -> (r: bool)
    ensures
        r == is_fresh(last_updated, now as int, max_age_hours as int),
{
    match last_updated {
        Some(t) => (now as i128 - t as i128) < max_age_hours as i128 * 3600,
        None => false,
    }
}

/// Whether some type tag of the record, lower-cased, equals `lowered`.
fn record_has_type(p: &Pokemon, lowered: &str) -> (r: bool)
    ensures
        r == exists|i: int|
            0 <= i < p.types@.len() && lower_of((#[trigger] p.types@[i]).name@) == lowered@,
{
    let mut i: usize = 0;
    while i < p.types.len()
        invariant
            i <= p.types@.len(),
            forall|k: int| 0 <= k < i ==> lower_of((#[trigger] p.types@[k]).name@) != lowered@,
        decreases p.types.len() - i,
    {
        let name = lowercase(p.types[i].name.as_str());
        if same_text(name.as_str(), lowered) {
            return true;
        }
        i = i + 1;
    }
    false
}

/// The in-memory cache of creature records.
pub struct Database {
    pub(crate) cache: Vec<CacheEntry>,
    pub(crate) trainers: Vec<crate::roster::Trainer>,
    pub(crate) roster: Vec<crate::roster::UserPokemon>,
    pub(crate) next_trainer_id: i64,
    pub(crate) next_capture_id: i64,
}

impl View for Database {
    type V = Seq<CacheEntry>;

    open(crate) spec fn view(&self) -> Seq<CacheEntry> {
        self.cache@
    }
}

impl Database {
    /// Entries ordered by ascending id, each keyed by its record.
    pub open spec fn well_formed(&self) -> bool {
        entries_well_formed(self@)
    }

    /// An empty cache with no trainers and no captures.
    pub fn new() -> (r: Self)
        ensures
            r.well_formed(),
            r@.len() == 0,
            r.trainers_view().len() == 0,
            r.roster_view().len() == 0,
            r.next_trainer_id() == 1,
            r.next_capture_id() == 1,
    {
        Database {
            cache: Vec::new(),
            trainers: Vec::new(),
            roster: Vec::new(),
            next_trainer_id: 1,
            next_capture_id: 1,
        }
    }

    /// The trainers and captures are those of `other`.
    pub open spec fn same_roster(&self, other: &Database) -> bool {
        &&& self.trainers_view() == other.trainers_view()
        &&& self.roster_view() == other.roster_view()
        &&& self.next_trainer_id() == other.next_trainer_id()
        &&& self.next_capture_id() == other.next_capture_id()
    }

    /// The position of the first entry whose id is not below `id`.
    fn position_of(&self, id: u32) -> (p: usize)
        requires
            self.well_formed(),
        ensures
            p <= self@.len(),
            forall|k: int| 0 <= k < p ==> self@[k].id < id,
            p < self@.len() ==> self@[p as int].id >= id,
    {
        let mut p: usize = 0;
        while p < self.cache.len() && self.cache[p].id < id
            invariant
                p <= self.cache@.len(),
                forall|k: int| 0 <= k < p ==> self.cache@[k].id < id,
            decreases self.cache.len() - p,
        {
            p = p + 1;
        }
        p
    }

    /// Stores a copy of the record under its id with the write time
    /// `last_updated`, replacing an entry of the same id; this is how stored
    /// entries are read back in, an unknown time included.
    pub fn restore_pokemon(&mut self, pokemon: &Pokemon, last_updated: Option<i64>)
        requires
            old(self).well_formed(),
        ensures
            stored_after_put(old(self)@, final(self)@, *pokemon, last_updated),
            final(self).same_roster(old(self)),
    {
        let p = self.position_of(pokemon.id);
        let entry = CacheEntry {
            id: pokemon.id,
            name: pokemon.name.clone(),
            pokemon: pokemon.clone(),
            last_updated,
        };
        let ghost before = self.cache@;
        let ghost e = entry;
        if p < self.cache.len() && self.cache[p].id == pokemon.id {
            self.cache.set(p, entry);
            let ghost after = self.cache@;
            assert(before[p as int].id == pokemon.id);
            assert(holds_id(before, pokemon.id));
            assert(after == before.update(p as int, e));
            assert(entries_well_formed(after)) by {
                assert forall|i: int, j: int| 0 <= i < j < after.len() implies after[i].id
                    < after[j].id by {
                    assert(before[i].id < before[j].id);
                }
            }
            proof {
                lemma_entry_at(after, p as int);
            }
            assert forall|id: u32| id != pokemon.id implies #[trigger] entry_of(after, id)
                == entry_of(before, id) by {
                if holds_id(before, id) {
                    let i = choose|i: int| 0 <= i < before.len() && (#[trigger] before[i]).id == id;
                    lemma_entry_at(before, i);
                    assert(after[i] == before[i]);
                    lemma_entry_at(after, i);
                } else if holds_id(after, id) {
                    let i = choose|i: int| 0 <= i < after.len() && (#[trigger] after[i]).id == id;
                    assert(before[i] == after[i]);
                }
            }
        } else {
            assert(!holds_id(before, pokemon.id)) by {
                if holds_id(before, pokemon.id) {
                    let i = choose|i: int| 0 <= i < before.len() && (#[trigger] before[i]).id
                        == pokemon.id;
                    if i > p {
                        assert(before[p as int].id < before[i].id);
                    }
                }
            }
            self.cache.insert(p, entry);
            let ghost after = self.cache@;
            assert(after == before.insert(p as int, e));
            assert(entries_well_formed(after)) by {
                assert forall|i: int, j: int| 0 <= i < j < after.len() implies after[i].id
                    < after[j].id by {
                    if j < p {
                        assert(before[i].id < before[j].id);
                    } else if j == p {
                        assert(before[i].id < pokemon.id);
                    } else if i < p {
                        assert(before[i].id < pokemon.id);
                        assert(before[j - 1].id >= pokemon.id);
                    } else if i == p {
                        assert(before[j - 1].id >= pokemon.id);
                    } else {
                        assert(before[i - 1].id < before[j - 1].id);
                    }
                }
                assert forall|i: int| 0 <= i < after.len() implies after[i].id == (
                #[trigger] after[i]).pokemon.id && after[i].name == after[i].pokemon.name by {
                    if i < p {
                        assert(after[i] == before[i]);
                    } else if i > p {
                        assert(after[i] == before[i - 1]);
                    }
                }
            }
            proof {
                lemma_entry_at(after, p as int);
            }
            assert forall|id: u32| id != pokemon.id implies #[trigger] entry_of(after, id)
                == entry_of(before, id) by {
                if holds_id(before, id) {
                    let i = choose|i: int| 0 <= i < before.len() && (#[trigger] before[i]).id == id;
                    lemma_entry_at(before, i);
                    if i < p {
                        assert(after[i] == before[i]);
                        lemma_entry_at(after, i);
                    } else {
                        assert(after[i + 1] == before[i]);
                        lemma_entry_at(after, i + 1);
                    }
                } else if holds_id(after, id) {
                    let i = choose|i: int| 0 <= i < after.len() && (#[trigger] after[i]).id == id;
                    if i < p {
                        assert(before[i] == after[i]);
                    } else if i > p {
                        assert(before[i - 1] == after[i]);
                    }
                }
            }
        }
    }

    /// Stores a copy of the record under its id with the write time `now`,
    /// replacing an entry of the same id.
    pub fn cache_pokemon(&mut self, pokemon: &Pokemon, now: i64)
        requires
            old(self).well_formed(),
        ensures
            stored_after_put(old(self)@, final(self)@, *pokemon, Some(now)),
            final(self).same_roster(old(self)),
    {
        self.restore_pokemon(pokemon, Some(now));
    }

    /// A copy of the stored record of the id, or nothing when the id is not
    /// stored.
    pub fn get_cached_pokemon(&self, id: u32) -> (r: Option<Pokemon>)
        requires
            self.well_formed(),
        ensures
            lookup_matches(self@, id, r),
    {
        let p = self.position_of(id);
        if p < self.cache.len() && self.cache[p].id == id {
            proof {
                lemma_entry_at(self@, p as int);
            }
            Some(self.cache[p].pokemon.clone())
        } else {
            proof {
                if holds_id(self@, id) {
                    let i = choose|i: int| 0 <= i < self@.len() && (#[trigger] self@[i]).id == id;
                    if i > p {
                        assert(self@[p as int].id < self@[i].id);
                    }
                }
            }
            None
        }
    }

    /// Whether the entry of the id exists and was written less than
    /// `max_age_hours` hours before `now`.
    pub fn is_pokemon_cache_valid(&self, id: u32, max_age_hours: i64, now: i64) -> (r: bool)
        requires
            self.well_formed(),
        ensures
            r == valid_spec(self@, id, max_age_hours as int, now as int),
    {
        let p = self.position_of(id);
        if p < self.cache.len() && self.cache[p].id == id {
            proof {
                lemma_entry_at(self@, p as int);
            }
            time_is_fresh(self.cache[p].last_updated, max_age_hours, now)
        } else {
            proof {
                if holds_id(self@, id) {
                    let i = choose|i: int| 0 <= i < self@.len() && (#[trigger] self@[i]).id == id;
                    if i > p {
                        assert(self@[p as int].id < self@[i].id);
                    }
                }
            }
            false
        }
    }

    /// Removes every entry.
    pub fn clear_pokemon_cache(&mut self)
        ensures
            final(self).well_formed(),
            final(self)@.len() == 0,
            final(self).same_roster(old(self)),
    {
        self.cache.clear();
    }

    /// Removes the entries written `max_age_hours` hours or more before `now`,
    /// and those of unknown write time, and returns how many were removed.
    pub fn clear_expired_pokemon_cache(&mut self, max_age_hours: i64, now: i64) -> (r: usize)
        requires
            old(self).well_formed(),
        ensures
            final(self).well_formed(),
            final(self)@ == fresh_entries(old(self)@, now as int, max_age_hours as int),
            r == stale_entries(old(self)@, now as int, max_age_hours as int).len(),
            final(self).same_roster(old(self)),
    {
        let ghost before = self.cache@;
        let ghost h = max_age_hours as int;
        let ghost t = now as int;
        let mut i: usize = 0;
        let ghost mut j: int = 0;
        let mut removed: usize = 0;
        let total = self.cache.len();
        assert(before.subrange(0, 0) =~= Seq::<CacheEntry>::empty());
        assert(before.subrange(0, before.len() as int) =~= before);
        while i < self.cache.len()
            invariant
                0 <= j <= before.len(),
                i <= self.cache@.len(),
                self.cache@.subrange(0, i as int) == fresh_entries(before.subrange(0, j), t, h),
                self.cache@.subrange(i as int, self.cache@.len() as int) == before.subrange(
                    j,
                    before.len() as int,
                ),
                removed == stale_entries(before.subrange(0, j), t, h).len(),
                h == max_age_hours as int,
                t == now as int,
                before.len() == total,
                self.same_roster(old(self)),
            decreases self.cache@.len() - i,
        {
            let ghost cur = self.cache@;
            assert(cur.subrange(i as int, cur.len() as int).len() == cur.len() - i);
            assert(before.len() - j == cur.len() - i);
            assert(cur[i as int] == before[j]) by {
                assert(cur.subrange(i as int, cur.len() as int)[0] == before.subrange(
                    j,
                    before.len() as int,
                )[0]);
            }
            assert(before.subrange(0, j + 1).drop_last() =~= before.subrange(0, j));
            assert(before.subrange(0, j + 1).last() == before[j]);
            if time_is_fresh(self.cache[i].last_updated, max_age_hours, now) {
                assert(cur.subrange(0, i + 1) =~= cur.subrange(0, i as int).push(cur[i as int]));
                assert(cur.subrange(i + 1, cur.len() as int) =~= before.subrange(
                    j + 1,
                    before.len() as int,
                )) by {
                    assert(cur.subrange(i + 1, cur.len() as int) =~= cur.subrange(
                        i as int,
                        cur.len() as int,
                    ).drop_first());
                    assert(before.subrange(j + 1, before.len() as int) =~= before.subrange(
                        j,
                        before.len() as int,
                    ).drop_first());
                }
                i = i + 1;
            } else {
                self.cache.remove(i);
                let ghost nxt = self.cache@;
                assert(nxt.subrange(0, i as int) =~= cur.subrange(0, i as int));
                assert(nxt.subrange(i as int, nxt.len() as int) =~= before.subrange(
                    j + 1,
                    before.len() as int,
                )) by {
                    assert(nxt.subrange(i as int, nxt.len() as int) =~= cur.subrange(
                        i as int,
                        cur.len() as int,
                    ).drop_first());
                    assert(before.subrange(j + 1, before.len() as int) =~= before.subrange(
                        j,
                        before.len() as int,
                    ).drop_first());
                }
                proof {
                    lemma_fresh_len(before.subrange(0, j + 1), t, h);
                }
                removed = removed + 1;
            }
            proof {
                j = j + 1;
            }
        }
        assert(j == before.len()) by {
            assert(self.cache@.subrange(i as int, self.cache@.len() as int).len() == 0);
            assert(before.subrange(j, before.len() as int).len() == before.len() - j);
        }
        assert(self.cache@.subrange(0, i as int) =~= self.cache@);
        proof {
            lemma_fresh_entries(before, t, h);
        }
        removed
    }

    /// The number of stored entries.
    pub fn get_cached_pokemon_count(&self) -> (r: usize)
        ensures
            r == self@.len(),
    {
        self.cache.len()
    }

    /// Whether at least `expected_count` entries are stored.
    pub fn is_pokemon_database_complete(&self, expected_count: u32) -> (r: bool)
        ensures
            r == (self@.len() >= expected_count),
    {
        self.cache.len() >= expected_count as usize
    }

    /// Copies of all entries, by ascending id.
    pub fn cached_entries(&self) -> (r: Vec<CacheEntry>)
        ensures
            r@.len() == self@.len(),
            forall|i: int| 0 <= i < r@.len() ==> (#[trigger] r@[i]).same_entry(&self@[i]),
    {
        let mut r: Vec<CacheEntry> = Vec::new();
        let mut i: usize = 0;
        while i < self.cache.len()
            invariant
                i <= self@.len(),
                r@.len() == i,
                forall|k: int| 0 <= k < i ==> (#[trigger] r@[k]).same_entry(&self@[k]),
            decreases self.cache.len() - i,
        {
            r.push(self.cache[i].clone());
            i = i + 1;
        }
        r
    }

    /// Copies of the records whose id lies in `[lo, hi]`, by ascending id.
    fn records_between(&self, lo: u64, hi: u64) -> (r: Vec<Pokemon>)
        ensures
            records_match(r@, entries_in_range(self@, lo as int, hi as int)),
    {
        let mut r: Vec<Pokemon> = Vec::new();
        let mut i: usize = 0;
        while i < self.cache.len()
            invariant
                i <= self@.len(),
                records_match(r@, entries_in_range(self@.subrange(0, i as int), lo as int, hi as int)),
            decreases self.cache.len() - i,
        {
            let ghost pre = self@.subrange(0, i as int);
            assert(self@.subrange(0, i + 1).drop_last() =~= pre);
            assert(self@.subrange(0, i + 1).last() == self@[i as int]);
            let id = self.cache[i].id as u64;
            if lo <= id && id <= hi {
                let copy = self.cache[i].pokemon.clone();
                r.push(copy);
            }
            i = i + 1;
        }
        assert(self@.subrange(0, i as int) =~= self@);
        r
    }

    /// Copies of the records whose id lies in `[start_id, end_id]`, by
    /// ascending id.
    pub fn get_pokemon_by_id_range(&self, start_id: u32, end_id: u32) -> (r: Vec<Pokemon>)
        ensures
            records_match(r@, entries_in_range(self@, start_id as int, end_id as int)),
    {
        self.records_between(start_id as u64, end_id as u64)
    }

    /// Copies of the records with ids `offset + 1` to `offset + limit`, by
    /// ascending id.
    pub fn get_pokemon_batch(&self, offset: u32, limit: u32) -> (r: Vec<Pokemon>)
        ensures
            records_match(
                r@,
                entries_in_range(self@, offset as int + 1, offset as int + limit as int),
            ),
    {
        let start_id: u64 = offset as u64 + 1;
        let end_id: u64 = offset as u64 + limit as u64;
        self.records_between(start_id, end_id)
    }

    /// One page of the records whose name holds `search_query` (ignoring
    /// case), ordered by id, skipping `offset` of them and taking at most
    /// `limit`; of that page only the records with a tag equal to
    /// `type_filter` (ignoring case) are kept.
    pub fn get_pokemon_batch_filtered(
        &self,
        offset: u32,
        limit: u32,
        type_filter: Option<String>,
        search_query: Option<String>,
    ) -> (r: Vec<Pokemon>)
        ensures
            records_match(
                r@,
                batch_spec(
                    self@,
                    offset as int,
                    limit as int,
                    text_of(type_filter),
                    text_of(search_query),
                ),
            ),
    {
        let ghost tf = text_of(type_filter);
        let ghost q = text_of(search_query);
        let lowered_query: Option<String> = match &search_query {
            Some(t) => Some(lowercase(t.as_str())),
            None => None,
        };
        let lowered_type: Option<String> = match &type_filter {
            Some(t) => Some(lowercase(t.as_str())),
            None => None,
        };
        let end: u64 = offset as u64 + limit as u64;
        let mut r: Vec<Pokemon> = Vec::new();
        let mut hits: u64 = 0;
        let mut i: usize = 0;
        while i < self.cache.len()
            invariant
                i <= self@.len(),
                hits == search_hits(self@.subrange(0, i as int), q).len(),
                hits <= i,
                end == offset as int + limit as int,
                records_match(
                    r@,
                    type_hits(page(search_hits(self@.subrange(0, i as int), q), offset as int, limit as int), tf),
                ),
                q == text_of(search_query),
                tf == text_of(type_filter),
                match lowered_query {
                    Some(l) => q is Some && l@ == lower_of(q->0),
                    None => q is None,
                },
                match lowered_type {
                    Some(l) => tf is Some && l@ == lower_of(tf->0),
                    None => tf is None,
                },
            decreases self.cache.len() - i,
        {
            let ghost pre = self@.subrange(0, i as int);
            let ghost e = self@[i as int];
            assert(self@.subrange(0, i + 1).drop_last() =~= pre);
            assert(self@.subrange(0, i + 1).last() == e);
            let entry = &self.cache[i];
            let matched = match &lowered_query {
                Some(l) => {
                    let name = lowercase(entry.name.as_str());
                    contains_text(name.as_str(), l.as_str())
                },
                None => true,
            };
            if matched {
                let ghost old_hits = search_hits(pre, q);
                let ghost new_hits = old_hits.push(e);
                assert(search_hits(self@.subrange(0, i + 1), q) == new_hits);
                let ghost old_page = page(old_hits, offset as int, limit as int);
                if offset as u64 <= hits && hits < end {
                    assert(page(new_hits, offset as int, limit as int) =~= old_page.push(e));
                    let typed = match &lowered_type {
                        Some(l) => record_has_type(&entry.pokemon, l.as_str()),
                        None => true,
                    };
                    assert(typed == has_type(e.pokemon, tf));
                    assert(old_page.push(e).drop_last() =~= old_page);
                    if typed {
                        let copy = entry.pokemon.clone();
                        r.push(copy);
                    }
                } else {
                    assert(page(new_hits, offset as int, limit as int) =~= old_page);
                }
                hits = hits + 1;
            } else {
                assert(search_hits(self@.subrange(0, i + 1), q) == search_hits(pre, q));
            }
            i = i + 1;
        }
        assert(self@.subrange(0, i as int) =~= self@);
        r
    }

    /// The number of records whose name holds `search_query` and that have a
    /// tag equal to `type_filter`, both ignoring case.
    pub fn get_pokemon_count_filtered(
        &self,
        type_filter: Option<String>,
        search_query: Option<String>,
    ) -> (r: usize)
        ensures
            r == filtered_count_spec(self@, text_of(type_filter), text_of(search_query)),
    {
        let ghost tf = text_of(type_filter);
        let ghost q = text_of(search_query);
        let lowered_query: Option<String> = match &search_query {
            Some(t) => Some(lowercase(t.as_str())),
            None => None,
        };
        let lowered_type: Option<String> = match &type_filter {
            Some(t) => Some(lowercase(t.as_str())),
            None => None,
        };
        let mut count: usize = 0;
        let mut i: usize = 0;
        while i < self.cache.len()
            invariant
                i <= self@.len(),
                count == type_hits(search_hits(self@.subrange(0, i as int), q), tf).len(),
                count <= i,
                q == text_of(search_query),
                tf == text_of(type_filter),
                match lowered_query {
                    Some(l) => q is Some && l@ == lower_of(q->0),
                    None => q is None,
                },
                match lowered_type {
                    Some(l) => tf is Some && l@ == lower_of(tf->0),
                    None => tf is None,
                },
            decreases self.cache.len() - i,
        {
            let ghost pre = self@.subrange(0, i as int);
            let ghost e = self@[i as int];
            assert(self@.subrange(0, i + 1).drop_last() =~= pre);
            assert(self@.subrange(0, i + 1).last() == e);
            let entry = &self.cache[i];
            let matched = match &lowered_query {
                Some(l) => {
                    let name = lowercase(entry.name.as_str());
                    contains_text(name.as_str(), l.as_str())
                },
                None => true,
            };
            if matched {
                let ghost old_hits = search_hits(pre, q);
                assert(search_hits(self@.subrange(0, i + 1), q) == old_hits.push(e));
                assert(old_hits.push(e).drop_last() =~= old_hits);
                let typed = match &lowered_type {
                    Some(l) => record_has_type(&entry.pokemon, l.as_str()),
                    None => true,
                };
                if typed {
                    count = count + 1;
                }
            } else {
                assert(search_hits(self@.subrange(0, i + 1), q) == search_hits(pre, q));
            }
            i = i + 1;
        }
        assert(self@.subrange(0, i as int) =~= self@);
        count
    }
}

} // verus!
