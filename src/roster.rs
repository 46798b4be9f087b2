use vstd::prelude::*;
use crate::cache::Database;

verus! {

/// A trainer; `created_date` is in seconds since the Unix epoch.
#[derive(Debug, PartialEq, Eq)]
pub struct Trainer {
    pub id: i64,
    pub name: String,
    pub created_date: i64,
}

/// A captured creature of a trainer; `captured_date` is in seconds since
/// the Unix epoch.
#[derive(Debug, PartialEq, Eq)]
pub struct UserPokemon {
    pub id: i64,
    pub pokemon_id: u32,
    pub nickname: Option<String>,
    pub level: u8,
    pub experience: u32,
    pub captured_date: i64,
    pub is_shiny: bool,
    pub trainer_id: i64,
}

impl Clone for Trainer {
    fn clone(&self) -> (r: Self)
        ensures
            r == *self,
    {
        Trainer { id: self.id, name: self.name.clone(), created_date: self.created_date }
    }
}

impl Clone for UserPokemon {
    fn clone(&self) -> (r: Self)
        ensures
            r == *self,
    {
        UserPokemon {
            id: self.id,
            pokemon_id: self.pokemon_id,
            nickname: self.nickname.clone(),
            level: self.level,
            experience: self.experience,
            captured_date: self.captured_date,
            is_shiny: self.is_shiny,
            trainer_id: self.trainer_id,
        }
    }
}

/// The first trainer with the id.
pub open spec fn find_trainer(ts: Seq<Trainer>, id: i64) -> Option<Trainer>
    decreases ts.len(),
{
    if ts.len() == 0 {
        None
    } else if ts[0].id == id {
        Some(ts[0])
    } else {
        find_trainer(ts.drop_first(), id)
    }
}

/// The captures of a trainer, in the order they were made.
pub open spec fn captures_of(s: Seq<UserPokemon>, trainer_id: i64) -> Seq<UserPokemon>
    decreases s.len(),
{
    if s.len() == 0 {
        Seq::empty()
    } else if s.last().trainer_id == trainer_id {
        captures_of(s.drop_last(), trainer_id).push(s.last())
    } else {
        captures_of(s.drop_last(), trainer_id)
    }
}

/// How many captures were made at `date` or later.
pub open spec fn count_not_older(t: Seq<UserPokemon>, date: i64) -> nat
    decreases t.len(),
{
    if t.len() == 0 {
        0
    } else {
        count_not_older(t.drop_last(), date) + if t.last().captured_date >= date {
            1nat
        } else {
            0nat
        }
    }
}

/// The captures, newest first; captures of the same time keep their order.
pub open spec fn by_capture_desc(s: Seq<UserPokemon>) -> Seq<UserPokemon>
    decreases s.len(),
{
    if s.len() == 0 {
        Seq::empty()
    } else {
        let t = by_capture_desc(s.drop_last());
        t.insert(count_not_older(t, s.last().captured_date) as int, s.last())
    }
}

/// The capture with its level set, when its id is `id`.
pub open spec fn with_level(u: UserPokemon, id: i64, level: u8) -> UserPokemon {
    if u.id == id {
        UserPokemon { level, ..u }
    } else {
        u
    }
}

/// The captures but the one with the id.
pub open spec fn without_capture(s: Seq<UserPokemon>, id: i64) -> Seq<UserPokemon>
    decreases s.len(),
{
    if s.len() == 0 {
        Seq::empty()
    } else if s.last().id == id {
        without_capture(s.drop_last(), id)
    } else {
        without_capture(s.drop_last(), id).push(s.last())
    }
}

/// Whether the captures run from newest to oldest.
pub open spec fn newest_first(t: Seq<UserPokemon>) -> bool {
    forall|i: int, j: int| 0 <= i < j < t.len() ==> t[i].captured_date >= t[j].captured_date
}

proof fn lemma_count_splits(t: Seq<UserPokemon>, date: i64)
    requires
        newest_first(t),
    ensures
        count_not_older(t, date) <= t.len(),
        forall|i: int| 0 <= i < count_not_older(t, date) ==> t[i].captured_date >= date,
        forall|i: int| count_not_older(t, date) <= i < t.len() ==> t[i].captured_date < date,
    decreases t.len(),
{
    if t.len() > 0 {
        let u = t.drop_last();
        lemma_count_splits(u, date);
        let k = count_not_older(u, date);
        if t.last().captured_date >= date && k < u.len() {
            assert(u[k as int] == t[k as int]);
            assert(t[k as int].captured_date >= t[t.len() - 1].captured_date);
        }
        assert forall|i: int| 0 <= i < count_not_older(t, date) implies t[i].captured_date
            >= date by {
            if i < k {
                assert(u[i] == t[i]);
            }
        }
        assert forall|i: int| count_not_older(t, date) <= i < t.len() implies t[i].captured_date
            < date by {
            if i < u.len() {
                assert(u[i] == t[i]);
            }
        }
    }
}

/// The captures of a trainer come out newest first, and all of them do.
pub proof fn lemma_captures_newest_first(s: Seq<UserPokemon>)
    ensures
        newest_first(by_capture_desc(s)),
        by_capture_desc(s).len() == s.len(),
    decreases s.len(),
{
    if s.len() > 0 {
        let t = by_capture_desc(s.drop_last());
        lemma_captures_newest_first(s.drop_last());
        let x = s.last();
        lemma_count_splits(t, x.captured_date);
        let k = count_not_older(t, x.captured_date) as int;
        let r = t.insert(k, x);
        assert forall|i: int, j: int| 0 <= i < j < r.len() implies r[i].captured_date
            >= r[j].captured_date by {
            if j < k {
                assert(r[i] == t[i] && r[j] == t[j]);
            } else if j == k {
                assert(r[i] == t[i]);
            } else if i < k {
                assert(r[i] == t[i] && r[j] == t[j - 1]);
            } else if i == k {
                assert(r[j] == t[j - 1]);
            } else {
                assert(r[i] == t[i - 1] && r[j] == t[j - 1]);
            }
        }
    }
}

impl Database {
    /// The trainers, in the order they were created.
    pub open(crate) spec fn trainers_view(&self) -> Seq<Trainer> {
        self.trainers@
    }

    /// The captures, in the order they were made.
    pub open(crate) spec fn roster_view(&self) -> Seq<UserPokemon> {
        self.roster@
    }

    /// The id the next trainer gets.
    pub open(crate) spec fn next_trainer_id(&self) -> int {
        self.next_trainer_id as int
    }

    /// The id the next capture gets.
    pub open(crate) spec fn next_capture_id(&self) -> int {
        self.next_capture_id as int
    }

    /// Adds a trainer created at `now` and returns its id; ids count up from
    /// 1. Nothing is added, and nothing returned, once ids are exhausted.
    pub fn create_trainer(&mut self, name: &str, now: i64) -> (r: Option<i64>)
        ensures
            final(self)@ == old(self)@,
            final(self).roster_view() == old(self).roster_view(),
            final(self).next_capture_id() == old(self).next_capture_id(),
            old(self).next_trainer_id() >= i64::MAX ==> r is None && final(self).trainers_view()
                == old(self).trainers_view() && final(self).next_trainer_id() == old(self).next_trainer_id(),
            old(self).next_trainer_id() < i64::MAX ==> {
                &&& r == Some(old(self).next_trainer_id() as i64)
                &&& final(self).next_trainer_id() == old(self).next_trainer_id() + 1
                &&& final(self).trainers_view().len() == old(self).trainers_view().len() + 1
                &&& final(self).trainers_view().drop_last() == old(self).trainers_view()
                &&& final(self).trainers_view().last().id == old(self).next_trainer_id()
                &&& final(self).trainers_view().last().name@ == name@
                &&& final(self).trainers_view().last().created_date == now
            },
    {
        if self.next_trainer_id == i64::MAX {
            return None;
        }
        let id = self.next_trainer_id;
        self.trainers.push(Trainer { id, name: name.to_string(), created_date: now });
        self.next_trainer_id = id + 1;
        assert(self.trainers@.drop_last() =~= old(self).trainers@);
        Some(id)
    }

    /// The trainer with the id, if any.
    pub fn get_trainer(&self, id: i64) -> (r: Option<Trainer>)
        ensures
            r == find_trainer(self.trainers_view(), id),
    {
        let mut i: usize = 0;
        assert(self.trainers@.subrange(0, self.trainers@.len() as int) =~= self.trainers@);
        while i < self.trainers.len()
            invariant
                i <= self.trainers@.len(),
                find_trainer(self.trainers@, id) == find_trainer(
                    self.trainers@.subrange(i as int, self.trainers@.len() as int),
                    id,
                ),
            decreases self.trainers.len() - i,
        {
            let ghost rest = self.trainers@.subrange(i as int, self.trainers@.len() as int);
            assert(rest[0] == self.trainers@[i as int]);
            if self.trainers[i].id == id {
                return Some(self.trainers[i].clone());
            }
            assert(rest.drop_first() =~= self.trainers@.subrange(i + 1, self.trainers@.len() as int));
            i = i + 1;
        }
        None
    }

    /// Records a capture made at `now`, with no experience, and returns its
    /// id; ids count up from 1. Nothing is recorded, and nothing returned,
    /// once ids are exhausted.
    pub fn capture_pokemon(
        &mut self,
        trainer_id: i64,
        pokemon_id: u32,
        nickname: Option<String>,
        level: u8,
        is_shiny: bool,
        now: i64,
    ) -> (r: Option<i64>)
        ensures
            final(self)@ == old(self)@,
            final(self).trainers_view() == old(self).trainers_view(),
            final(self).next_trainer_id() == old(self).next_trainer_id(),
            old(self).next_capture_id() >= i64::MAX ==> r is None && final(self).roster_view()
                == old(self).roster_view() && final(self).next_capture_id() == old(self).next_capture_id(),
            old(self).next_capture_id() < i64::MAX ==> {
                &&& r == Some(old(self).next_capture_id() as i64)
                &&& final(self).next_capture_id() == old(self).next_capture_id() + 1
                &&& final(self).roster_view() == old(self).roster_view().push(
                    UserPokemon {
                        id: old(self).next_capture_id() as i64,
                        pokemon_id,
                        nickname,
                        level,
                        experience: 0,
                        captured_date: now,
                        is_shiny,
                        trainer_id,
                    },
                )
            },
    {
        if self.next_capture_id == i64::MAX {
            return None;
        }
        let id = self.next_capture_id;
        self.roster.push(
            UserPokemon {
                id,
                pokemon_id,
                nickname,
                level,
                experience: 0,
                captured_date: now,
                is_shiny,
                trainer_id,
            },
        );
        self.next_capture_id = id + 1;
        Some(id)
    }

    /// The captures of a trainer, newest first; captures of the same time in
    /// the order they were made.
    pub fn get_trainer_pokemon(&self, trainer_id: i64) -> (r: Vec<UserPokemon>)
        ensures
            r@ == by_capture_desc(captures_of(self.roster_view(), trainer_id)),
    {
        let mut r: Vec<UserPokemon> = Vec::new();
        let mut i: usize = 0;
        while i < self.roster.len()
            invariant
                i <= self.roster@.len(),
                r@ == by_capture_desc(captures_of(self.roster@.subrange(0, i as int), trainer_id)),
            decreases self.roster.len() - i,
        {
            let ghost pre = self.roster@.subrange(0, i as int);
            assert(self.roster@.subrange(0, i + 1).drop_last() =~= pre);
            assert(self.roster@.subrange(0, i + 1).last() == self.roster@[i as int]);
            let u = &self.roster[i];
            if u.trainer_id == trainer_id {
                let ghost caps = captures_of(pre, trainer_id).push(*u);
                assert(caps.drop_last() =~= captures_of(pre, trainer_id));
                let mut k: usize = 0;
                let mut j: usize = 0;
                while j < r.len()
                    invariant
                        j <= r@.len(),
                        k <= j,
                        k == count_not_older(r@.subrange(0, j as int), u.captured_date),
                    decreases r.len() - j,
                {
                    assert(r@.subrange(0, j + 1).drop_last() =~= r@.subrange(0, j as int));
                    if r[j].captured_date >= u.captured_date {
                        k = k + 1;
                    }
                    j = j + 1;
                }
                assert(r@.subrange(0, j as int) =~= r@);
                r.insert(k, u.clone());
            }
            i = i + 1;
        }
        assert(self.roster@.subrange(0, i as int) =~= self.roster@);
        r
    }

    /// Sets the level of the capture with the id; other captures are left
    /// as they are.
    pub fn update_pokemon_level(&mut self, user_pokemon_id: i64, new_level: u8)
        ensures
            final(self)@ == old(self)@,
            final(self).trainers_view() == old(self).trainers_view(),
            final(self).next_trainer_id() == old(self).next_trainer_id(),
            final(self).next_capture_id() == old(self).next_capture_id(),
            final(self).roster_view() == old(self).roster_view().map_values(
                |u: UserPokemon| with_level(u, user_pokemon_id, new_level),
            ),
    {
        let mut i: usize = 0;
        while i < self.roster.len()
            invariant
                i <= self.roster@.len(),
                self.roster@.len() == old(self).roster@.len(),
                self.cache@ == old(self).cache@,
                self.trainers@ == old(self).trainers@,
                self.next_trainer_id == old(self).next_trainer_id,
                self.next_capture_id == old(self).next_capture_id,
                forall|k: int|
                    0 <= k < i ==> self.roster@[k] == with_level(
                        old(self).roster@[k],
                        user_pokemon_id,
                        new_level,
                    ),
                forall|k: int| i <= k < self.roster@.len() ==> self.roster@[k] == old(self).roster@[k],
            decreases self.roster.len() - i,
        {
            if self.roster[i].id == user_pokemon_id {
                let mut u = self.roster[i].clone();
                u.level = new_level;
                self.roster.set(i, u);
            }
            i = i + 1;
        }
        assert(self.roster@ =~= old(self).roster@.map_values(
            |u: UserPokemon| with_level(u, user_pokemon_id, new_level),
        ));
    }

    /// Removes the capture with the id.
    pub fn release_pokemon(&mut self, user_pokemon_id: i64)
        ensures
            final(self)@ == old(self)@,
            final(self).trainers_view() == old(self).trainers_view(),
            final(self).next_trainer_id() == old(self).next_trainer_id(),
            final(self).next_capture_id() == old(self).next_capture_id(),
            final(self).roster_view() == without_capture(old(self).roster_view(), user_pokemon_id),
    {
        let ghost before = self.roster@;
        let mut i: usize = 0;
        let ghost mut j: int = 0;
        assert(before.subrange(0, 0) =~= Seq::<UserPokemon>::empty());
        assert(before.subrange(0, before.len() as int) =~= before);
        while i < self.roster.len()
            invariant
                0 <= j <= before.len(),
                i <= self.roster@.len(),
                self.roster@.subrange(0, i as int) == without_capture(
                    before.subrange(0, j),
                    user_pokemon_id,
                ),
                self.roster@.subrange(i as int, self.roster@.len() as int) == before.subrange(
                    j,
                    before.len() as int,
                ),
                before == old(self).roster@,
                self.cache@ == old(self).cache@,
                self.trainers@ == old(self).trainers@,
                self.next_trainer_id == old(self).next_trainer_id,
                self.next_capture_id == old(self).next_capture_id,
            decreases self.roster@.len() - i,
        {
            let ghost cur = self.roster@;
            assert(cur.subrange(i as int, cur.len() as int).len() == cur.len() - i);
            assert(before.len() - j == cur.len() - i);
            assert(cur[i as int] == before[j]) by {
                assert(cur.subrange(i as int, cur.len() as int)[0] == before.subrange(
                    j,
                    before.len() as int,
                )[0]);
            }
            assert(before.subrange(0, j + 1).drop_last() =~= before.subrange(0, j));
            assert(before.subrange(0, j + 1).last() == before[j]);
            assert(before.subrange(j + 1, before.len() as int) =~= before.subrange(
                j,
                before.len() as int,
            ).drop_first());
            if self.roster[i].id == user_pokemon_id {
                self.roster.remove(i);
                let ghost nxt = self.roster@;
                assert(nxt.subrange(0, i as int) =~= cur.subrange(0, i as int));
                assert(nxt.subrange(i as int, nxt.len() as int) =~= cur.subrange(
                    i as int,
                    cur.len() as int,
                ).drop_first());
            } else {
                assert(cur.subrange(0, i + 1) =~= cur.subrange(0, i as int).push(cur[i as int]));
                assert(cur.subrange(i + 1, cur.len() as int) =~= cur.subrange(
                    i as int,
                    cur.len() as int,
                ).drop_first());
                i = i + 1;
            }
            proof {
                j = j + 1;
            }
        }
        assert(j == before.len()) by {
            assert(self.roster@.subrange(i as int, self.roster@.len() as int).len() == 0);
            assert(before.subrange(j, before.len() as int).len() == before.len() - j);
        }
        assert(self.roster@.subrange(0, i as int) =~= self.roster@);
    }
}

} // verus!
