use vstd::prelude::*;
use crate::text::same_text;
use vstd::string::StringExecFns;

verus! {

/// A named reference to another resource of the provider.
#[derive(Debug, Clone, PartialEq, Eq)]
pub struct PokeApiResource {
    pub name: String,
    pub url: String,
}

/// One base stat as the provider reports it.
#[derive(Debug, Clone, PartialEq, Eq)]
pub struct PokeApiStat {
    pub base_stat: u32,
    pub effort: u32,
    pub stat: PokeApiResource,
}

/// One elemental type of a species, with its slot.
#[derive(Debug, Clone, PartialEq, Eq)]
pub struct PokeApiTypeSlot {
    pub slot: u32,
    /// The type itself (the provider's `type` field).
    pub type_info: PokeApiResource,
}

/// One learnable move of a species.
#[derive(Debug, Clone, PartialEq, Eq)]
pub struct PokeApiMoveEntry {
    /// The move itself (the provider's `move` field).
    pub move_info: PokeApiResource,
    pub version_group_details: Vec<PokeApiVersionGroupDetail>,
}

/// How and when a move is learnt in one version group.
#[derive(Debug, Clone, PartialEq, Eq)]
pub struct PokeApiVersionGroupDetail {
    pub level_learned_at: u32,
    pub move_learn_method: PokeApiResource,
    pub version_group: PokeApiResource,
}

/// One ability of a species.
#[derive(Debug, Clone, PartialEq, Eq)]
pub struct PokeApiAbilityEntry {
    pub is_hidden: bool,
    pub slot: u32,
    pub ability: PokeApiResource,
}

/// The image links of a species.
#[derive(Debug, Clone, PartialEq, Eq)]
pub struct PokeApiSprites {
    pub front_default: Option<String>,
    pub front_shiny: Option<String>,
    pub back_default: Option<String>,
    pub back_shiny: Option<String>,
    pub other: Option<PokeApiOtherSprites>,
}

/// Further image sets of a species.
#[derive(Debug, Clone, PartialEq, Eq)]
pub struct PokeApiOtherSprites {
    pub official_artwork: Option<PokeApiOfficialArtwork>,
    pub home: Option<PokeApiHomeSprites>,
}

/// The official artwork of a species.
#[derive(Debug, Clone, PartialEq, Eq)]
pub struct PokeApiOfficialArtwork {
    pub front_default: Option<String>,
    pub front_shiny: Option<String>,
}

/// The images a species has in the home set.
#[derive(Debug, Clone, PartialEq, Eq)]
pub struct PokeApiHomeSprites {
    pub front_default: Option<String>,
    pub front_shiny: Option<String>,
}

/// A full species record as the provider sends it.
#[derive(Debug, Clone, PartialEq, Eq)]
pub struct PokeApiPokemonResponse {
    pub id: u32,
    pub name: String,
    pub height: u32,
    pub weight: u32,
    pub stats: Vec<PokeApiStat>,
    pub types: Vec<PokeApiTypeSlot>,
    pub moves: Vec<PokeApiMoveEntry>,
    pub abilities: Vec<PokeApiAbilityEntry>,
    pub sprites: PokeApiSprites,
    pub species: PokeApiResource,
}

/// One page of a paginated listing of the provider.
#[derive(Debug, Clone, PartialEq, Eq)]
pub struct PokeApiResponse<T> {
    pub count: u32,
    pub next: Option<String>,
    pub previous: Option<String>,
    pub results: Vec<T>,
}

/// The canonical record of one species.
#[derive(Debug, PartialEq, Eq)]
pub struct Pokemon {
    pub id: u32,
    pub name: String,
    pub base_stats: BaseStats,
    pub types: Vec<PokemonType>,
    pub moves: Vec<Move>,
    pub abilities: Vec<Ability>,
    pub sprites: Sprites,
}

/// The six base stats of a species.
#[derive(Debug, Clone, Copy, PartialEq, Eq)]
pub struct BaseStats {
    pub hp: u32,
    pub attack: u32,
    pub defense: u32,
    pub special_attack: u32,
    pub special_defense: u32,
    pub speed: u32,
}

/// An elemental type tag; the slot orders the tags of one record.
#[derive(Debug, PartialEq, Eq)]
pub struct PokemonType {
    pub name: String,
    pub slot: u32,
}

/// A move of a species.
#[derive(Debug, PartialEq, Eq)]
pub struct Move {
    pub name: String,
    pub power: Option<u32>,
    pub accuracy: Option<u32>,
    pub pp: u32,
    pub move_type: String,
    pub damage_class: String,
}

/// An ability of a species.
#[derive(Debug, PartialEq, Eq)]
pub struct Ability {
    pub name: String,
    pub is_hidden: bool,
    pub slot: u32,
}

/// The optional image links of a record.
#[derive(Debug, PartialEq, Eq)]
pub struct Sprites {
    pub front_default: Option<String>,
    pub front_shiny: Option<String>,
    pub back_default: Option<String>,
    pub back_shiny: Option<String>,
}

impl Clone for PokemonType {
    fn clone(&self) -> (r: Self)
        ensures
            r == *self,
    {
        PokemonType { name: self.name.clone(), slot: self.slot }
    }
}

impl Clone for Move {
    fn clone(&self) -> (r: Self)
        ensures
            r == *self,
    {
        Move {
            name: self.name.clone(),
            power: self.power,
            accuracy: self.accuracy,
            pp: self.pp,
            move_type: self.move_type.clone(),
            damage_class: self.damage_class.clone(),
        }
    }
}

impl Clone for Ability {
    fn clone(&self) -> (r: Self)
        ensures
            r == *self,
    {
        Ability { name: self.name.clone(), is_hidden: self.is_hidden, slot: self.slot }
    }
}

impl Clone for Sprites {
    fn clone(&self) -> (r: Self)
        ensures
            r == *self,
    {
        Sprites {
            front_default: self.front_default.clone(),
            front_shiny: self.front_shiny.clone(),
            back_default: self.back_default.clone(),
            back_shiny: self.back_shiny.clone(),
        }
    }
}

impl Pokemon {
    /// Field-by-field equality of two records; list fields compare by their
    /// contents.
    pub open spec fn same_record(&self, other: &Pokemon) -> bool {
        &&& self.id == other.id
        &&& self.name == other.name
        &&& self.base_stats == other.base_stats
        &&& self.types@ == other.types@
        &&& self.moves@ == other.moves@
        &&& self.abilities@ == other.abilities@
        &&& self.sprites == other.sprites
    }
}

/// The base value of the first stat whose name is `key`, or 0 when no stat
/// has that name.
pub open spec fn stat_named(stats: Seq<PokeApiStat>, key: Seq<char>) -> u32
    decreases stats.len(),
{
    if stats.len() == 0 {
        0
    } else if stats[0].stat.name@ == key {
        stats[0].base_stat
    } else {
        stat_named(stats.drop_first(), key)
    }
}

/// The base stats read from a provider stat list, absent stats taken as 0.
pub open spec fn base_stats_of(stats: Seq<PokeApiStat>) -> BaseStats {
    BaseStats {
        hp: stat_named(stats, seq!['h', 'p']),
        attack: stat_named(stats, seq!['a', 't', 't', 'a', 'c', 'k']),
        defense: stat_named(stats, seq!['d', 'e', 'f', 'e', 'n', 's', 'e']),
        special_attack: stat_named(
            stats,
            seq!['s', 'p', 'e', 'c', 'i', 'a', 'l', '-', 'a', 't', 't', 'a', 'c', 'k'],
        ),
        special_defense: stat_named(
            stats,
            seq!['s', 'p', 'e', 'c', 'i', 'a', 'l', '-', 'd', 'e', 'f', 'e', 'n', 's', 'e'],
        ),
        speed: stat_named(stats, seq!['s', 'p', 'e', 'e', 'd']),
    }
}

/// The type tag that a provider type slot maps to.
pub open spec fn type_of_slot(t: PokeApiTypeSlot) -> PokemonType {
    PokemonType { name: t.type_info.name, slot: t.slot }
}

/// The ability that a provider ability entry maps to.
pub open spec fn ability_of_entry(a: PokeApiAbilityEntry) -> Ability {
    Ability { name: a.ability.name, is_hidden: a.is_hidden, slot: a.slot }
}

/// The most moves that a normalized record keeps.
pub const MAX_MOVES: usize = 10;

/// A move taken over from a provider move entry: its name, with no power,
/// accuracy or power points known, of the normal type and physical class.
pub open spec fn is_move_of_entry(m: Move, e: PokeApiMoveEntry) -> bool {
    &&& m.name == e.move_info.name
    &&& m.power.is_none()
    &&& m.accuracy.is_none()
    &&& m.pp == 0
    &&& m.move_type@ == seq!['n', 'o', 'r', 'm', 'a', 'l']
    &&& m.damage_class@ == seq!['p', 'h', 'y', 's', 'i', 'c', 'a', 'l']
}

/// The image links of a record, taken from the provider's front and back
/// images.
pub open spec fn sprites_of(s: PokeApiSprites) -> Sprites {
    Sprites {
        front_default: s.front_default,
        front_shiny: s.front_shiny,
        back_default: s.back_default,
        back_shiny: s.back_shiny,
    }
}

/// `r` is the canonical record of the provider response: each of the six
/// stats from the first entry of its name (0 when absent), the types and
/// abilities in order, the first ten moves by name, and the front and back
/// images.
pub open spec fn normalized_from(r: Pokemon, response: PokeApiPokemonResponse) -> bool {
    &&& r.id == response.id
    &&& r.name == response.name
    &&& r.base_stats == base_stats_of(response.stats@)
    &&& r.types@ == response.types@.map_values(|t: PokeApiTypeSlot| type_of_slot(t))
    &&& r.abilities@ == response.abilities@.map_values(|a: PokeApiAbilityEntry| ability_of_entry(a))
    &&& r.moves@.len() == (if response.moves@.len() < MAX_MOVES {
        response.moves@.len()
    } else {
        MAX_MOVES as nat
    })
    &&& forall|i: int| 0 <= i < r.moves@.len() ==> is_move_of_entry(r.moves@[i], response.moves@[i])
    &&& r.sprites == sprites_of(response.sprites)
}

/// The base value of the first stat named `key` in `stats`, or 0.
fn find_stat(stats: &Vec<PokeApiStat>, key: &str) -> (r: u32)
    ensures
        r == stat_named(stats@, key@),
{
    let mut i: usize = 0;
    assert(stats@.subrange(0, stats.len() as int) =~= stats@);
    while i < stats.len()
        invariant
            i <= stats.len(),
            stat_named(stats@, key@) == stat_named(stats@.subrange(i as int, stats.len() as int), key@),
        decreases stats.len() - i,
    {
        let rest = Ghost(stats@.subrange(i as int, stats.len() as int));
        assert(rest@[0] == stats@[i as int]);
        if same_text(stats[i].stat.name.as_str(), key) {
            return stats[i].base_stat;
        }
        assert(rest@.drop_first() =~= stats@.subrange(i + 1, stats.len() as int));
        i = i + 1;
    }
    0
}

impl Pokemon {
    /// A record with the given identity, all stats 0, and no types, moves,
    /// abilities or images.
    pub fn new(id: u32, name: String) -> (r: Self)
        ensures
            r.id == id,
            r.name == name,
            r.base_stats == (BaseStats {
                hp: 0,
                attack: 0,
                defense: 0,
                special_attack: 0,
                special_defense: 0,
                speed: 0,
            }),
            r.types@.len() == 0,
            r.moves@.len() == 0,
            r.abilities@.len() == 0,
            r.sprites == (Sprites {
                front_default: None,
                front_shiny: None,
                back_default: None,
                back_shiny: None,
            }),
    {
        Pokemon {
            id,
            name,
            base_stats: BaseStats::default(),
            types: Vec::new(),
            moves: Vec::new(),
            abilities: Vec::new(),
            sprites: Sprites::default(),
        }
    }

    /// Maps a provider response onto the canonical record.
    pub fn from_pokeapi_response(response: PokeApiPokemonResponse) -> (r: Self)
        ensures
            normalized_from(r, response),
    {
        proof {
            reveal_strlit("hp");
            reveal_strlit("attack");
            reveal_strlit("defense");
            reveal_strlit("special-attack");
            reveal_strlit("special-defense");
            reveal_strlit("speed");
        }
        let base_stats = BaseStats {
            hp: find_stat(&response.stats, "hp"),
            attack: find_stat(&response.stats, "attack"),
            defense: find_stat(&response.stats, "defense"),
            special_attack: find_stat(&response.stats, "special-attack"),
            special_defense: find_stat(&response.stats, "special-defense"),
            speed: find_stat(&response.stats, "speed"),
        };
        assert("hp"@ =~= seq!['h', 'p']);
        assert("attack"@ =~= seq!['a', 't', 't', 'a', 'c', 'k']);
        assert("defense"@ =~= seq!['d', 'e', 'f', 'e', 'n', 's', 'e']);
        assert("special-attack"@ =~= seq![
            's', 'p', 'e', 'c', 'i', 'a', 'l', '-', 'a', 't', 't', 'a', 'c', 'k'
        ]);
        assert("special-defense"@ =~= seq![
            's', 'p', 'e', 'c', 'i', 'a', 'l', '-', 'd', 'e', 'f', 'e', 'n', 's', 'e'
        ]);
        assert("speed"@ =~= seq!['s', 'p', 'e', 'e', 'd']);

        let mut types: Vec<PokemonType> = Vec::new();
        let mut i: usize = 0;
        while i < response.types.len()
            invariant
                i <= response.types.len(),
                types@ == response.types@.subrange(0, i as int).map_values(
                    |t: PokeApiTypeSlot| type_of_slot(t),
                ),
            decreases response.types.len() - i,
        {
            let t = &response.types[i];
            types.push(PokemonType { name: t.type_info.name.clone(), slot: t.slot });
            assert(response.types@.subrange(0, i + 1) =~= response.types@.subrange(
                0,
                i as int,
            ).push(response.types@[i as int]));
            i = i + 1;
        }
        assert(response.types@.subrange(0, i as int) =~= response.types@);

        let mut abilities: Vec<Ability> = Vec::new();
        let mut j: usize = 0;
        while j < response.abilities.len()
            invariant
                j <= response.abilities.len(),
                abilities@ == response.abilities@.subrange(0, j as int).map_values(
                    |a: PokeApiAbilityEntry| ability_of_entry(a),
                ),
            decreases response.abilities.len() - j,
        {
            let a = &response.abilities[j];
            abilities.push(
                Ability { name: a.ability.name.clone(), is_hidden: a.is_hidden, slot: a.slot },
            );
            assert(response.abilities@.subrange(0, j + 1) =~= response.abilities@.subrange(
                0,
                j as int,
            ).push(response.abilities@[j as int]));
            j = j + 1;
        }
        assert(response.abilities@.subrange(0, j as int) =~= response.abilities@);

        let mut moves: Vec<Move> = Vec::new();
        let mut k: usize = 0;
        while k < response.moves.len() && k < MAX_MOVES
            invariant
                k <= response.moves.len(),
                k <= MAX_MOVES,
                moves@.len() == k,
                forall|x: int| 0 <= x < k ==> is_move_of_entry(moves@[x], response.moves@[x]),
            decreases response.moves.len() - k,
        {
            proof {
                reveal_strlit("normal");
                reveal_strlit("physical");
            }
            let m = Move {
                name: response.moves[k].move_info.name.clone(),
                power: None,
                accuracy: None,
                pp: 0,
                move_type: String::from_str("normal"),
                damage_class: String::from_str("physical"),
            };
            assert(m.move_type@ =~= seq!['n', 'o', 'r', 'm', 'a', 'l']);
            assert(m.damage_class@ =~= seq!['p', 'h', 'y', 's', 'i', 'c', 'a', 'l']);
            moves.push(m);
            k = k + 1;
        }

        let sprites = Sprites {
            front_default: response.sprites.front_default,
            front_shiny: response.sprites.front_shiny,
            back_default: response.sprites.back_default,
            back_shiny: response.sprites.back_shiny,
        };
        Pokemon { id: response.id, name: response.name, base_stats, types, moves, abilities, sprites }
    }
}

impl Clone for Pokemon {
    fn clone(&self) -> (r: Self)
        ensures
            r.same_record(self),
    {
        let types = self.types.clone();
        let moves = self.moves.clone();
        let abilities = self.abilities.clone();
        assert forall|i: int| 0 <= i < types.len() implies types@[i] == self.types@[i] by {
            assert(cloned::<PokemonType>(self.types@[i], types@[i]));
        }
        assert forall|i: int| 0 <= i < moves.len() implies moves@[i] == self.moves@[i] by {
            assert(cloned::<Move>(self.moves@[i], moves@[i]));
        }
        assert forall|i: int| 0 <= i < abilities.len() implies abilities@[i]
            == self.abilities@[i] by {
            assert(cloned::<Ability>(self.abilities@[i], abilities@[i]));
        }
        assert(types@ =~= self.types@);
        assert(moves@ =~= self.moves@);
        assert(abilities@ =~= self.abilities@);
        Pokemon {
            id: self.id,
            name: self.name.clone(),
            base_stats: self.base_stats,
            types,
            moves,
            abilities,
            sprites: self.sprites.clone(),
        }
    }
}

impl Default for BaseStats {
    fn default() -> (r: Self)
        ensures
            r == (BaseStats {
                hp: 0,
                attack: 0,
                defense: 0,
                special_attack: 0,
                special_defense: 0,
                speed: 0,
            }),
    {
        BaseStats { hp: 0, attack: 0, defense: 0, special_attack: 0, special_defense: 0, speed: 0 }
    }
}

impl Default for Sprites {
    fn default() -> (r: Self)
        ensures
            r == (Sprites {
                front_default: None,
                front_shiny: None,
                back_default: None,
                back_shiny: None,
            }),
    {
        Sprites { front_default: None, front_shiny: None, back_default: None, back_shiny: None }
    }
}

} // verus!
