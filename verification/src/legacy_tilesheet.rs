use vstd::prelude::*;
use std::convert::Infallible;
use crate::cdda_json::DeserializedCDDAJsonData;
use crate::keyed_map::KeyedMap;
use crate::mapped_id::{law_slice_right_shortens, opt_text, spec_full_id, spec_sliced_postfix, MappedCDDAId};
use crate::tileset::{FgBgIds, Rotates, SingleSprite, Sprite, SpriteIndex};
use crate::types::{CDDAIdentifier, MeabyVec, MeabyWeighted, Weighted};

verus! {

/// The kinds of additional tiles of a multitile in a tileset.
#[derive(Debug, Clone, Copy, PartialEq, Eq, Structural)]
pub enum AdditionalTileType {
    Center,
    Corner,
    TConnection,
    Edge,
    EndPiece,
    Unconnected,
    Broken,
    Open,
    H,
}

/// A weighted sprite entry as a tileset writes it: an object with a
/// `sprite` and a `weight`.
pub struct __WeightedDeserializationFix<T> {
    pub data: T,
    pub weight: i32,
}

impl<T> __WeightedDeserializationFix<T> {
    pub fn new(data: T, weight: i32) -> (r: Self)
        ensures
            r.data == data,
            r.weight == weight,
    {
        __WeightedDeserializationFix { data, weight }
    }

    pub fn into_weighted(self) -> (r: Weighted<T>)
        ensures
            r.data == self.data,
            r.weight == self.weight,
    {
        Weighted::new(self.data, self.weight)
    }
}

/// A sprite entry of a tileset that may carry a weight.
pub enum __MeabyWeightedDeserializationFix<T> {
    Weighted(__WeightedDeserializationFix<T>),
    NotWeighted(T),
}

impl<T> __MeabyWeightedDeserializationFix<T> {
    pub fn into_meaby_weighted(self) -> (r: MeabyWeighted<T>)
        ensures
            r.spec_data() == match self {
                __MeabyWeightedDeserializationFix::Weighted(w) => w.data,
                __MeabyWeightedDeserializationFix::NotWeighted(d) => d,
            },
            r.spec_weight() == match self {
                __MeabyWeightedDeserializationFix::Weighted(w) => w.weight,
                __MeabyWeightedDeserializationFix::NotWeighted(_) => 1,
            },
    {
        match self {
            __MeabyWeightedDeserializationFix::Weighted(w) => MeabyWeighted::Weighted(w.into_weighted()),
            __MeabyWeightedDeserializationFix::NotWeighted(nw) => MeabyWeighted::NotWeighted(nw),
        }
    }
}

/// The sprite entries of a layer of a tile: each a list of indices (one
/// per direction), maybe weighted.
pub type SpriteIndices = MeabyVec<__MeabyWeightedDeserializationFix<MeabyVec<SpriteIndex>>>;

/// An additional tile of a multitile.
pub struct AdditionalTile {
    pub id: AdditionalTileType,
    pub rotates: Option<bool>,
    pub animated: Option<bool>,
    pub fg: Option<SpriteIndices>,
    pub bg: Option<SpriteIndices>,
}

/// A tile of a tileset.
pub struct Tile {
    pub id: MeabyVec<CDDAIdentifier>,
    pub fg: Option<SpriteIndices>,
    pub bg: Option<SpriteIndices>,
    pub rotates: Option<bool>,
    pub animated: Option<bool>,
    pub multitile: Option<bool>,
    pub additional_tiles: Option<Vec<AdditionalTile>>,
}

/// The rotation that a list of sprite indices stands for: one index turns,
/// two or four (of four or more, the first four) give a sprite per
/// direction; other counts stand for none.
pub open spec fn spec_rotates_of(v: Seq<SpriteIndex>) -> Option<Rotates> {
    if v.len() == 1 {
        Some(Rotates::Auto(v[0]))
    } else if v.len() == 2 {
        Some(Rotates::Pre2((v[0], v[1])))
    } else if v.len() >= 4 {
        Some(Rotates::Pre4((v[0], v[1], v[2], v[3])))
    } else {
        None
    }
}

/// The indices and the weight of a sprite entry; an unweighted entry weighs one.
pub open spec fn entry_indices(e: __MeabyWeightedDeserializationFix<MeabyVec<SpriteIndex>>) -> (Seq<SpriteIndex>, i32) {
    match e {
        __MeabyWeightedDeserializationFix::NotWeighted(nw) => (nw.values(), 1),
        __MeabyWeightedDeserializationFix::Weighted(w) => (w.data.values(), w.weight),
    }
}

/// The weighted rotations of sprite entries, in order, leaving out the
/// entries whose index count stands for no rotation.
pub open spec fn spec_weighted_rotates(s: Seq<__MeabyWeightedDeserializationFix<MeabyVec<SpriteIndex>>>) -> Seq<Weighted<Rotates>>
    decreases s.len(),
{
    if s.len() == 0 {
        Seq::empty()
    } else {
        let rest = spec_weighted_rotates(s.drop_last());
        let (iv, w) = entry_indices(s.last());
        match spec_rotates_of(iv) {
            Some(r) => rest.push(Weighted { data: r, weight: w }),
            None => rest,
        }
    }
}

pub open spec fn opt_seq<T>(v: Option<Vec<T>>) -> Option<Seq<T>> {
    match v {
        Some(x) => Some(x@),
        None => None,
    }
}

pub open spec fn spec_to_weighted_vec(indices: Option<SpriteIndices>) -> Option<Seq<Weighted<Rotates>>> {
    match indices {
        None => None,
        Some(m) => Some(spec_weighted_rotates(m.values())),
    }
}

fn indices_to_vec(m: &MeabyVec<SpriteIndex>) -> (r: Vec<SpriteIndex>)
    ensures
        r@ == m.values(),
{
    let n = m.len();
    let mut out: Vec<SpriteIndex> = Vec::new();
    let mut i: usize = 0;
    while i < n
        invariant
            n == m.values().len(),
            i <= n,
            out@ == m.values().subrange(0, i as int),
        decreases n - i,
    {
        out.push(*m.get(i));
        i = i + 1;
        assert(out@ =~= m.values().subrange(0, i as int));
    }
    assert(out@ =~= m.values());
    out
}

/// The weighted rotations of a layer's sprite entries; entries whose index
/// count stands for no rotation (an empty list) are left out.
pub fn to_weighted_vec(indices: &Option<SpriteIndices>) -> (r: Option<Vec<Weighted<Rotates>>>)
    ensures
        opt_seq(r) == spec_to_weighted_vec(*indices),
{
    let m = match indices {
        None => return None,
        Some(m) => m,
    };
    let n = m.len();
    let mut out: Vec<Weighted<Rotates>> = Vec::new();
    let mut i: usize = 0;
    while i < n
        invariant
            n == m.values().len(),
            i <= n,
            out@ == spec_weighted_rotates(m.values().subrange(0, i as int)),
        decreases n - i,
    {
        let entry = m.get(i);
        let (indices_vec, weight) = match entry {
            __MeabyWeightedDeserializationFix::NotWeighted(nw) => (indices_to_vec(nw), 1i32),
            __MeabyWeightedDeserializationFix::Weighted(w) => (indices_to_vec(&w.data), w.weight),
        };
        let ghost prefix = m.values().subrange(0, i as int + 1);
        assert(prefix.drop_last() =~= m.values().subrange(0, i as int));
        assert(prefix.last() == m.values()[i as int]);
        match Rotates::try_from(indices_vec) {
            Ok(v) => {
                out.push(Weighted::new(v, weight));
            },
            Err(_) => {},
        }
        i = i + 1;
    }
    assert(m.values().subrange(0, n as int) =~= m.values());
    Some(out)
}

/// A single sprite made of the given entries and properties.
pub open spec fn sprite_is(
    s: SingleSprite,
    fg: Option<SpriteIndices>,
    bg: Option<SpriteIndices>,
    rotates: bool,
    animated: bool,
) -> bool {
    &&& opt_seq(s.ids.fg) == spec_to_weighted_vec(fg)
    &&& opt_seq(s.ids.bg) == spec_to_weighted_vec(bg)
    &&& s.rotates == rotates
    &&& s.animated == animated
}

/// The last additional tile of the kind, if there is one.
pub open spec fn last_of_kind(tiles: Seq<AdditionalTile>, k: AdditionalTileType) -> Option<AdditionalTile>
    decreases tiles.len(),
{
    if tiles.len() == 0 {
        None
    } else if tiles.last().id == k {
        Some(tiles.last())
    } else {
        last_of_kind(tiles.drop_last(), k)
    }
}

/// The sprite made of an additional tile; broken and open sprites neither
/// rotate nor animate, others rotate unless they say otherwise.
pub open spec fn additional_sprite_is(o: Option<SingleSprite>, t: Option<AdditionalTile>) -> bool {
    match (o, t) {
        (None, None) => true,
        (Some(s), Some(a)) => {
            let special = a.id == AdditionalTileType::Broken || a.id == AdditionalTileType::Open;
            sprite_is(
                s,
                a.fg,
                a.bg,
                if special {
                    false
                } else {
                    match a.rotates {
                        Some(b) => b,
                        None => true,
                    }
                },
                if special {
                    false
                } else {
                    match a.animated {
                        Some(b) => b,
                        None => false,
                    }
                },
            )
        },
        _ => false,
    }
}

fn additional_sprite(t: &AdditionalTile) -> (r: SingleSprite)
    ensures
        additional_sprite_is(Some(r), Some(*t)),
{
    let fg = to_weighted_vec(&t.fg);
    let bg = to_weighted_vec(&t.bg);
    let special = match t.id {
        AdditionalTileType::Broken | AdditionalTileType::Open => true,
        _ => false,
    };
    let rotates = if special {
        false
    } else {
        match t.rotates {
            Some(b) => b,
            None => true,
        }
    };
    let animated = if special {
        false
    } else {
        match t.animated {
            Some(b) => b,
            None => false,
        }
    };
    SingleSprite { ids: FgBgIds::new(fg, bg), rotates, animated }
}

/// Whether `s` is the multitile sprite of a tile with the given additional
/// tiles: the tile's own entries as the fallback, and for each kind of
/// additional tile the last one of that kind.
pub open spec fn multitile_sprite_is(s: Sprite, tile: Tile, additional_tiles: Seq<AdditionalTile>) -> bool {
    s matches Sprite::Multitile {
        fallback,
        edge,
        corner,
        center,
        t_connection,
        end_piece,
        unconnected,
        broken,
        open,
    } && sprite_is(
        fallback,
        tile.fg,
        tile.bg,
        match tile.rotates {
            Some(b) => b,
            None => false,
        },
        match tile.animated {
            Some(b) => b,
            None => false,
        },
    ) && additional_sprite_is(center, last_of_kind(additional_tiles, AdditionalTileType::Center))
        && additional_sprite_is(corner, last_of_kind(additional_tiles, AdditionalTileType::Corner))
        && additional_sprite_is(edge, last_of_kind(additional_tiles, AdditionalTileType::Edge))
        && additional_sprite_is(t_connection, last_of_kind(additional_tiles, AdditionalTileType::TConnection))
        && additional_sprite_is(unconnected, last_of_kind(additional_tiles, AdditionalTileType::Unconnected))
        && additional_sprite_is(end_piece, last_of_kind(additional_tiles, AdditionalTileType::EndPiece))
        && additional_sprite_is(broken, last_of_kind(additional_tiles, AdditionalTileType::Broken))
        && additional_sprite_is(open, last_of_kind(additional_tiles, AdditionalTileType::Open))
}

/// The multitile sprite of a tile (see `multitile_sprite_is`); it is always made.
pub fn get_multitile_sprite_from_additional_tiles(tile: &Tile, additional_tiles: &Vec<AdditionalTile>) -> (r:
    Result<Sprite, Infallible>)
    ensures
        r matches Ok(s) && multitile_sprite_is(s, *tile, additional_tiles@),
{
    let mut center: Option<SingleSprite> = None;
    let mut corner: Option<SingleSprite> = None;
    let mut edge: Option<SingleSprite> = None;
    let mut t_connection: Option<SingleSprite> = None;
    let mut unconnected: Option<SingleSprite> = None;
    let mut end_piece: Option<SingleSprite> = None;
    let mut broken: Option<SingleSprite> = None;
    let mut open: Option<SingleSprite> = None;
    let mut i: usize = 0;
    while i < additional_tiles.len()
        invariant
            i <= additional_tiles@.len(),
            additional_sprite_is(center, last_of_kind(additional_tiles@.subrange(0, i as int), AdditionalTileType::Center)),
            additional_sprite_is(corner, last_of_kind(additional_tiles@.subrange(0, i as int), AdditionalTileType::Corner)),
            additional_sprite_is(edge, last_of_kind(additional_tiles@.subrange(0, i as int), AdditionalTileType::Edge)),
            additional_sprite_is(
                t_connection,
                last_of_kind(additional_tiles@.subrange(0, i as int), AdditionalTileType::TConnection),
            ),
            additional_sprite_is(
                unconnected,
                last_of_kind(additional_tiles@.subrange(0, i as int), AdditionalTileType::Unconnected),
            ),
            additional_sprite_is(
                end_piece,
                last_of_kind(additional_tiles@.subrange(0, i as int), AdditionalTileType::EndPiece),
            ),
            additional_sprite_is(broken, last_of_kind(additional_tiles@.subrange(0, i as int), AdditionalTileType::Broken)),
            additional_sprite_is(open, last_of_kind(additional_tiles@.subrange(0, i as int), AdditionalTileType::Open)),
        decreases additional_tiles@.len() - i,
    {
        let t = &additional_tiles[i];
        let ghost prefix = additional_tiles@.subrange(0, i as int + 1);
        assert(prefix.drop_last() =~= additional_tiles@.subrange(0, i as int));
        assert(prefix.last() == *t);
        match t.id {
            AdditionalTileType::Center => center = Some(additional_sprite(t)),
            AdditionalTileType::Corner => corner = Some(additional_sprite(t)),
            AdditionalTileType::Edge => edge = Some(additional_sprite(t)),
            AdditionalTileType::TConnection => t_connection = Some(additional_sprite(t)),
            AdditionalTileType::Unconnected => unconnected = Some(additional_sprite(t)),
            AdditionalTileType::EndPiece => end_piece = Some(additional_sprite(t)),
            AdditionalTileType::Broken => broken = Some(additional_sprite(t)),
            AdditionalTileType::Open => open = Some(additional_sprite(t)),
            AdditionalTileType::H => {},
        }
        i = i + 1;
    }
    assert(additional_tiles@.subrange(0, i as int) =~= additional_tiles@);
    let fg = to_weighted_vec(&tile.fg);
    let bg = to_weighted_vec(&tile.bg);
    let rotates = match tile.rotates {
        Some(b) => b,
        None => false,
    };
    let animated = match tile.animated {
        Some(b) => b,
        None => false,
    };
    Ok(
        Sprite::Multitile {
            fallback: SingleSprite { ids: FgBgIds::new(fg, bg), rotates, animated },
            edge,
            corner,
            center,
            t_connection,
            end_piece,
            unconnected,
            broken,
            open,
        },
    )
}

/// A tileset loaded from its configuration: the sprites of each tileset
/// identifier, and the fallback sprites of each `symbol_COLOR`.
pub struct LegacyTilesheet {
    pub id_map: KeyedMap<CDDAIdentifier, Sprite>,
    pub fallback_map: KeyedMap<String, SpriteIndex>,
}

pub open spec fn opt_id(o: Option<CDDAIdentifier>) -> Option<Seq<char>> {
    match o {
        Some(i) => Some(i@),
        None => None,
    }
}

/// The first of the terrain (0), furniture (1) and vehicle part (2) tables
/// that holds an entry with the identifier.
pub open spec fn owning_table(data: DeserializedCDDAJsonData, id: Seq<char>) -> Option<int> {
    if data.terrain.map().contains_key(id) {
        Some(0)
    } else if data.furniture.map().contains_key(id) {
        Some(1)
    } else if data.vehicle_parts.map().contains_key(id) {
        Some(2)
    } else {
        None
    }
}

/// The `looks_like` of the entry in the given table, if the table holds it.
pub open spec fn table_looks_like(data: DeserializedCDDAJsonData, table: int, id: Seq<char>) -> Option<Option<Seq<char>>> {
    if table == 0 {
        if data.terrain.map().contains_key(id) {
            Some(opt_id(data.terrain.map()[id].looks_like))
        } else {
            None
        }
    } else if table == 1 {
        if data.furniture.map().contains_key(id) {
            Some(opt_id(data.furniture.map()[id].looks_like))
        } else {
            None
        }
    } else {
        if data.vehicle_parts.map().contains_key(id) {
            Some(opt_id(data.vehicle_parts.map()[id].looks_like))
        } else {
            None
        }
    }
}

impl LegacyTilesheet {
    /// Following `looks_like` from `id` for at most `fuel` further steps:
    /// `Some(k)` when the sprite looked up under `k` (if the tileset has it)
    /// is the answer, `Some(None)` when there is none, `None` when the fuel
    /// ran out. An entry that looks like itself, or like an entry that looks
    /// back at it, gives the sprite of that entry; otherwise the chain goes
    /// on until the tileset has a sprite.
    pub open spec fn spec_looks_like_key(
        self,
        data: DeserializedCDDAJsonData,
        id: Seq<char>,
        fuel: nat,
    ) -> Option<Option<Seq<char>>>
        decreases fuel,
    {
        match owning_table(data, id) {
            None => Some(None),
            Some(t) => match table_looks_like(data, t, id) {
                Some(Some(ident)) => if ident == id {
                    Some(Some(ident))
                } else if table_looks_like(data, t, ident) == Some(Some(id)) {
                    Some(Some(ident))
                } else if self.id_map.map().contains_key(ident) {
                    Some(Some(ident))
                } else if fuel == 0 {
                    None
                } else {
                    self.spec_looks_like_key(data, ident, (fuel - 1) as nat)
                },
                _ => Some(None),
            },
        }
    }

    /// The lookup of a tile: its full tileset identifier, then the same
    /// with the postfix sliced part by part, then its `looks_like` chain.
    pub open spec fn spec_sprite_key(
        self,
        data: DeserializedCDDAJsonData,
        id: Seq<char>,
        prefix: Option<Seq<char>>,
        postfix: Option<Seq<char>>,
        fuel: nat,
    ) -> Option<Option<Seq<char>>>
        decreases
            match postfix {
                None => 0,
                Some(p) => p.len() + 1,
            },
    {
        let full = spec_full_id(id, prefix, postfix);
        if self.id_map.map().contains_key(full) {
            Some(Some(full))
        } else {
            match postfix {
                Some(p) => {
                    proof {
                        law_slice_right_shortens(p);
                    }
                    self.spec_sprite_key(data, id, prefix, spec_sliced_postfix(p), fuel)
                },
                None => self.spec_looks_like_key(data, id, fuel),
            }
        }
    }

    /// The sprite that a lookup result stands for.
    pub open spec fn sprite_of_key(self, key: Option<Seq<char>>, r: Option<&Sprite>) -> bool {
        match key {
            None => r is None,
            Some(k) => (r is Some <==> self.id_map.map().contains_key(k)) && (r matches Some(s)
                ==> *s == self.id_map.map()[k]),
        }
    }

    /// `looks_like` entries are chained: a terrain `a` that looks like `b`,
    /// which the tileset lacks and which looks like `c` in turn, is drawn
    /// with the sprite of `c` when the tileset has one (unless an entry looks
    /// back at the one before it, which ends the chain there).
    pub proof fn law_looks_like_chained(self, data: DeserializedCDDAJsonData, a: Seq<char>, b: Seq<char>, c: Seq<char>)
        requires
            data.terrain.map().contains_key(a),
            data.terrain.map().contains_key(b),
            a != b,
            b != c,
            c != a,
            table_looks_like(data, 0, a) == Some(Some(b)),
            table_looks_like(data, 0, b) == Some(Some(c)),
            table_looks_like(data, 0, c) != Some(Some(b)),
            !self.id_map.map().contains_key(b),
            self.id_map.map().contains_key(c),
        ensures
            self.spec_looks_like_key(data, a, 1) == Some(Some(c)),
    {
        assert(owning_table(data, a) == Some(0int));
        assert(owning_table(data, b) == Some(0int));
        assert(self.spec_looks_like_key(data, b, 0) == Some(Some(c)));
    }

    proof fn lemma_looks_like_fuel(self, data: DeserializedCDDAJsonData, id: Seq<char>, f: nat, g: nat)
        requires
            self.spec_looks_like_key(data, id, f) is Some,
            f <= g,
        ensures
            self.spec_looks_like_key(data, id, g) == self.spec_looks_like_key(data, id, f),
        decreases f,
    {
        match owning_table(data, id) {
            None => {},
            Some(t) => match table_looks_like(data, t, id) {
                Some(Some(ident)) => {
                    if ident != id && table_looks_like(data, t, ident) != Some(Some(id))
                        && !self.id_map.map().contains_key(ident) && f > 0 {
                        self.lemma_looks_like_fuel(data, ident, (f - 1) as nat, (g - 1) as nat);
                    }
                },
                _ => {},
            },
        }
    }

    proof fn lemma_sprite_key_fuel(
        self,
        data: DeserializedCDDAJsonData,
        id: Seq<char>,
        prefix: Option<Seq<char>>,
        postfix: Option<Seq<char>>,
        f: nat,
        g: nat,
    )
        requires
            self.spec_sprite_key(data, id, prefix, postfix, f) is Some,
            f <= g,
        ensures
            self.spec_sprite_key(data, id, prefix, postfix, g) == self.spec_sprite_key(
                data,
                id,
                prefix,
                postfix,
                f,
            ),
        decreases
            match postfix {
                None => 0,
                Some(p) => p.len() + 1,
            },
    {
        let full = spec_full_id(id, prefix, postfix);
        if !self.id_map.map().contains_key(full) {
            match postfix {
                Some(p) => {
                    law_slice_right_shortens(p);
                    self.lemma_sprite_key_fuel(data, id, prefix, spec_sliced_postfix(p), f, g);
                },
                None => {
                    self.lemma_looks_like_fuel(data, id, f, g);
                },
            }
        }
    }

    fn looks_like_with_fuel(&self, id: &CDDAIdentifier, json_data: &DeserializedCDDAJsonData, Ghost(fuel): Ghost<nat>) -> (r:
        Option<&Sprite>)
        requires
            self.spec_looks_like_key(*json_data, id@, fuel) is Some,
        ensures
            self.sprite_of_key(self.spec_looks_like_key(*json_data, id@, fuel)->0, r),
        decreases fuel,
    {
        let (table, looks_like): (u8, &Option<CDDAIdentifier>) = match json_data.terrain.get(id) {
            Some(t) => (0, &t.looks_like),
            None => match json_data.furniture.get(id) {
                Some(t) => (1, &t.looks_like),
                None => match json_data.vehicle_parts.get(id) {
                    Some(t) => (2, &t.looks_like),
                    None => return None,
                },
            },
        };
        let ident = match looks_like {
            None => return None,
            Some(i) => i,
        };
        if ident.eq_id(id) {
            return self.id_map.get(ident);
        }
        let back: Option<&Option<CDDAIdentifier>> = if table == 0 {
            match json_data.terrain.get(ident) {
                Some(v) => Some(&v.looks_like),
                None => None,
            }
        } else if table == 1 {
            match json_data.furniture.get(ident) {
                Some(v) => Some(&v.looks_like),
                None => None,
            }
        } else {
            match json_data.vehicle_parts.get(ident) {
                Some(v) => Some(&v.looks_like),
                None => None,
            }
        };
        match back {
            Some(Some(b)) => {
                if b.eq_id(id) {
                    return self.id_map.get(ident);
                }
            },
            _ => {},
        }
        match self.id_map.get(ident) {
            Some(s) => Some(s),
            None => self.looks_like_with_fuel(ident, json_data, Ghost((fuel - 1) as nat)),
        }
    }

    /// The sprite of the first entry along the `looks_like` chain of `id`
    /// that the tileset has (see `spec_looks_like_key`). The chain must end:
    /// a cycle of three or more entries without sprites never returns.
    pub fn get_looks_like_sprite(&self, id: &CDDAIdentifier, json_data: &DeserializedCDDAJsonData) -> (r:
        Option<&Sprite>)
        requires
            exists|f: nat| self.spec_looks_like_key(*json_data, id@, f) is Some,
        ensures
            forall|f: nat|
                #![trigger self.spec_looks_like_key(*json_data, id@, f)]
                self.spec_looks_like_key(*json_data, id@, f) is Some ==> self.sprite_of_key(
                    self.spec_looks_like_key(*json_data, id@, f)->0,
                    r,
                ),
    {
        let ghost f0 = choose|f: nat| self.spec_looks_like_key(*json_data, id@, f) is Some;
        let r = self.looks_like_with_fuel(id, json_data, Ghost(f0));
        proof {
            assert forall|f: nat|
                #![trigger self.spec_looks_like_key(*json_data, id@, f)]
                self.spec_looks_like_key(*json_data, id@, f) is Some implies self.sprite_of_key(
                    self.spec_looks_like_key(*json_data, id@, f)->0,
                    r,
                ) by {
                if f <= f0 {
                    self.lemma_looks_like_fuel(*json_data, id@, f, f0);
                } else {
                    self.lemma_looks_like_fuel(*json_data, id@, f0, f);
                }
            }
        }
        r
    }

    fn sprite_with_fuel(&self, id: &MappedCDDAId, json_data: &DeserializedCDDAJsonData, Ghost(fuel): Ghost<nat>) -> (r:
        Option<&Sprite>)
        requires
            self.spec_sprite_key(
                *json_data,
                id.tilesheet_id.id@,
                opt_text(id.tilesheet_id.prefix),
                opt_text(id.tilesheet_id.postfix),
                fuel,
            ) is Some,
        ensures
            self.sprite_of_key(
                self.spec_sprite_key(
                    *json_data,
                    id.tilesheet_id.id@,
                    opt_text(id.tilesheet_id.prefix),
                    opt_text(id.tilesheet_id.postfix),
                    fuel,
                )->0,
                r,
            ),
        decreases
            match id.tilesheet_id.postfix {
                None => 0,
                Some(p) => p@.len() + 1,
            },
    {
        let full = id.tilesheet_id.full();
        match self.id_map.get(&full) {
            Some(s) => Some(s),
            None => {
                let sliced = id.slice_right();
                if id.tilesheet_id.postfix.is_some() {
                    proof {
                        law_slice_right_shortens(id.tilesheet_id.postfix->0@);
                    }
                    return self.sprite_with_fuel(&sliced, json_data, Ghost(fuel));
                }
                self.looks_like_with_fuel(&sliced.tilesheet_id.id, json_data, Ghost(fuel))
            },
        }
    }

    /// The sprite of a tile: under its full tileset identifier, else with
    /// its postfix sliced part by part, else along the `looks_like` chain
    /// (see `spec_sprite_key`). The chain must end.
    pub fn get_sprite(&self, id: &MappedCDDAId, json_data: &DeserializedCDDAJsonData) -> (r: Option<&Sprite>)
        requires
            exists|f: nat|
                self.spec_sprite_key(
                    *json_data,
                    id.tilesheet_id.id@,
                    opt_text(id.tilesheet_id.prefix),
                    opt_text(id.tilesheet_id.postfix),
                    f,
                ) is Some,
        ensures
            forall|f: nat|
                #![trigger self.spec_sprite_key(*json_data, id.tilesheet_id.id@, opt_text(id.tilesheet_id.prefix), opt_text(id.tilesheet_id.postfix), f)]
                self.spec_sprite_key(
                    *json_data,
                    id.tilesheet_id.id@,
                    opt_text(id.tilesheet_id.prefix),
                    opt_text(id.tilesheet_id.postfix),
                    f,
                ) is Some ==> self.sprite_of_key(
                    self.spec_sprite_key(
                        *json_data,
                        id.tilesheet_id.id@,
                        opt_text(id.tilesheet_id.prefix),
                        opt_text(id.tilesheet_id.postfix),
                        f,
                    )->0,
                    r,
                ),
    {
        let ghost i = id.tilesheet_id.id@;
        let ghost pre = opt_text(id.tilesheet_id.prefix);
        let ghost post = opt_text(id.tilesheet_id.postfix);
        let ghost f0 = choose|f: nat| self.spec_sprite_key(*json_data, i, pre, post, f) is Some;
        let r = self.sprite_with_fuel(id, json_data, Ghost(f0));
        proof {
            assert forall|f: nat|
                #![trigger self.spec_sprite_key(*json_data, i, pre, post, f)]
                self.spec_sprite_key(*json_data, i, pre, post, f) is Some implies self.sprite_of_key(
                    self.spec_sprite_key(*json_data, i, pre, post, f)->0,
                    r,
                ) by {
                if f <= f0 {
                    self.lemma_sprite_key_fuel(*json_data, i, pre, post, f, f0);
                } else {
                    self.lemma_sprite_key_fuel(*json_data, i, pre, post, f0, f);
                }
            }
        }
        r
    }
}

} // verus!
