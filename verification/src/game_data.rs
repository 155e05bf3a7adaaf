use vstd::prelude::*;
use crate::cdda_json::{CDDAFurniture, CDDATerrain};
use crate::keyed_map::{KeyedMap, MapKey};
use crate::mapgen_import::CDDAMapDataObjectCommonIntermediate;
use crate::om_terrain::starts_with;
use crate::palettes::KnownCataVariant;
use crate::random::{sample_weighted_index, weights_valid};
use crate::types::{CDDAIdentifier, CDDAString, Distribution, IdOrAbstract};

verus! {

/// An entry of the game data of a kind that the editor does not read.
pub struct UnknownEntry {
    pub id: IdOrAbstract<CDDAIdentifier>,
    pub ty: KnownCataVariant,
}

/// A connect group of the game data.
pub struct ConnectGroup {
    pub id: CDDAIdentifier,
}

/// The object of an update mapgen entry.
pub struct CDDAUpdateMapDataObjectIntermediate {
    pub rows: Option<Vec<String>>,
    pub common: CDDAMapDataObjectCommonIntermediate,
}

/// An update mapgen entry of the game data.
pub struct CDDAUpdateMapDataIntermediate {
    pub method: String,
    pub update_mapgen_id: CDDAIdentifier,
    pub object: CDDAUpdateMapDataObjectIntermediate,
}

/// The name of a monster, with its plural.
pub struct MonsterName {
    pub str: CDDAString,
    pub str_pl: Option<CDDAString>,
}

/// A monster of the game data.
pub struct CDDAMonster {
    pub id: CDDAIdentifier,
    pub flags: Vec<String>,
    pub name: MonsterName,
    pub description: CDDAString,
}

/// An overmap location of the game data: a set of overmap terrains.
pub struct CDDAOvermapLocation {
    pub id: CDDAIdentifier,
    pub terrains: Vec<CDDAIdentifier>,
    pub flags: Vec<String>,
}

#[derive(Debug, Clone, Copy, PartialEq, Eq, Structural)]
pub enum OvermapTerrainMapgenMethod {
    Builtin,
}

/// A built-in mapgen of an overmap terrain.
pub struct OvermapTerrainMapgen {
    pub builtin: CDDAIdentifier,
}

/// An overmap terrain of the game data.
pub struct CDDAOvermapTerrain {
    pub id: CDDAIdentifier,
    pub name: Option<CDDAString>,
    pub symbol: Option<char>,
    pub mapgen: Option<Vec<OvermapTerrainMapgen>>,
    pub flags: Vec<String>,
}

/// The name of a regional terrain or furniture, such as `t_region_groundcover`.
pub struct RegionIdentifier(pub String);

impl MapKey for RegionIdentifier {
    type Key = Seq<char>;

    open spec fn key(&self) -> Seq<char> {
        self.0@
    }

    fn same_key(&self, other: &Self) -> (r: bool) {
        self.0 == other.0
    }
}

/// The weighted choices of each regional terrain and furniture.
pub struct RegionTerrainAndFurniture {
    pub terrain: KeyedMap<RegionIdentifier, KeyedMap<CDDAIdentifier, i32>>,
    pub furniture: KeyedMap<RegionIdentifier, KeyedMap<CDDAIdentifier, i32>>,
}

pub struct OvermapTerrainAlias {
    pub om_terrain: String,
    pub om_terrain_match_type: String,
    pub alias: String,
}

pub struct OvermapRavineSettings {
    pub num_ravines: i32,
    pub ravine_width: i32,
    pub ravine_range: i32,
    pub ravine_depth: i32,
}

pub struct OvermapConnectionSettings {
    pub intra_city_road_connection: String,
    pub inter_city_road_connection: String,
    pub trail_connection: String,
    pub sewer_connection: String,
    pub subway_connection: String,
    pub rail_connection: String,
}

pub struct ForestTrailSettings {
    pub chance: i32,
    pub border_point_chance: i32,
    pub minimum_forest_size: i32,
    pub random_point_min: i32,
    pub random_point_max: i32,
    pub random_point_size_scalar: i32,
    pub trailhead_chance: i32,
    pub trailhead_road_distance: i32,
}

pub struct MapExtras {
    pub forest: KeyedMap<String, i32>,
}

pub struct CitySettings {
    pub shop_radius: i32,
    pub shop_sigma: i32,
    pub park_radius: i32,
    pub park_sigma: i32,
}

pub struct OvermapFeatureFlagSettings {
    pub clear_blacklist: bool,
    pub blacklist: Vec<String>,
    pub clear_whitelist: bool,
    pub whitelist: Vec<String>,
}

/// The region settings of the game data, as far as the editor reads them.
pub struct CDDARegionSettings {
    pub id: CDDAIdentifier,
    pub default_oter: Vec<String>,
    pub default_groundcover: Vec<Distribution>,
    pub region_terrain_and_furniture: RegionTerrainAndFurniture,
    /// The json file the settings were read from, where it is known.
    pub source: Option<String>,
}

/// The weights of the choices of a regional terrain, in order.
pub open spec fn choice_weights(m: KeyedMap<CDDAIdentifier, i32>) -> Seq<i32> {
    Seq::new(m.entries().len(), |i: int| m.entries()[i].1)
}

/// Whether replacing a regional terrain ends within `fuel` steps without
/// a panic: each regional terrain on the way is known and its weights admit
/// a choice, and every choice of positive weight ends in turn.
pub open spec fn region_chain_ok(rs: CDDARegionSettings, id: Seq<char>, fuel: nat) -> bool
    decreases fuel,
{
    if !starts_with(id, "t_region"@) {
        true
    } else if fuel == 0 {
        false
    } else {
        let m = rs.region_terrain_and_furniture.terrain.map();
        &&& m.contains_key(id)
        &&& weights_valid(choice_weights(m[id]))
        &&& forall|k: Seq<char>|
            #[trigger] m[id].map().contains_key(k) && m[id].map()[k] > 0 ==> region_chain_ok(rs, k, (fuel - 1) as nat)
    }
}

/// Whether replacing a regional terrain may give `r`: an identifier that is
/// not regional is kept; a regional one is replaced by one of its choices of
/// positive weight, which is replaced in turn.
pub open spec fn region_outcome(rs: CDDARegionSettings, id: Seq<char>, r: Seq<char>, fuel: nat) -> bool
    decreases fuel,
{
    if !starts_with(id, "t_region"@) {
        r == id
    } else if fuel == 0 {
        false
    } else {
        let m = rs.region_terrain_and_furniture.terrain.map();
        exists|k: Seq<char>|
            #[trigger] m[id].map().contains_key(k) && m[id].map()[k] > 0 && region_outcome(rs, k, r, (fuel - 1) as nat)
    }
}

pub(crate) fn has_prefix(s: &str, p: &str) -> (r: bool)
    ensures
        r == starts_with(s@, p@),
{
    let n = s.unicode_len();
    let m = p.unicode_len();
    if m > n {
        return false;
    }
    let mut j: usize = 0;
    while j < m
        invariant
            n == s@.len(),
            m == p@.len(),
            m <= n,
            j <= m,
            forall|k: int| 0 <= k < j ==> s@[k] == p@[k],
        decreases m - j,
    {
        if s.get_char(j) != p.get_char(j) {
            assert(s@.subrange(0, m as int)[j as int] != p@[j as int]);
            return false;
        }
        j = j + 1;
    }
    assert(s@.subrange(0, m as int) =~= p@);
    true
}

/// One weighted random choice of a regional terrain.
fn pick_choice(m: &KeyedMap<CDDAIdentifier, i32>) -> (r: CDDAIdentifier)
    requires
        weights_valid(choice_weights(*m)),
    ensures
        m.map().contains_key(r@),
        m.map()[r@] > 0,
{
    let mut weights: Vec<i32> = Vec::new();
    let mut i: usize = 0;
    while i < m.len()
        invariant
            i <= m.entries().len(),
            weights@.len() == i,
            forall|j: int| 0 <= j < i ==> #[trigger] weights@[j] == m.entries()[j].1,
        decreases m.entries().len() - i,
    {
        weights.push(*m.value_at(i));
        i = i + 1;
    }
    assert(weights@ =~= choice_weights(*m));
    match sample_weighted_index(&weights) {
        Ok(k) => {
            let key = m.key_at(k);
            let v = m.value_at(k);
            key.clone()
        },
        Err(_) => {
            proof {
                assert(false);
            }
            CDDAIdentifier(String::new())
        },
    }
}

fn replace_with_fuel(id: &CDDAIdentifier, region_setting: &CDDARegionSettings, Ghost(fuel): Ghost<nat>) -> (r:
    CDDAIdentifier)
    requires
        region_chain_ok(*region_setting, id@, fuel),
    ensures
        region_outcome(*region_setting, id@, r@, fuel),
    decreases fuel,
{
    proof {
        reveal_strlit("t_region");
        reveal_strlit("f_");
        reveal_strlit("t_");
    }
    let text = id.0.as_str();
    if has_prefix(text, "t_region") {
        if has_prefix(text, "f_") {
            proof {
                assert("t_region"@.len() == 8 && "t_region"@[0] == 't');
                assert(id@.subrange(0, 8) == "t_region"@);
                assert(id@[0] == id@.subrange(0, 8)[0]);
                assert("f_"@.len() == 2 && "f_"@[0] == 'f');
                assert(id@.subrange(0, 2) == "f_"@);
                assert(id@[0] == id@.subrange(0, 2)[0]);
            }
            return id.clone();
        } else if has_prefix(text, "t_") {
            let key = RegionIdentifier(id.0.clone());
            let m = region_setting.region_terrain_and_furniture.terrain.get(&key).unwrap();
            let choice = pick_choice(m);
            let r = replace_with_fuel(&choice, region_setting, Ghost((fuel - 1) as nat));
            return r;
        } else {
            proof {
                assert("t_region"@.len() == 8 && "t_region"@[0] == 't' && "t_region"@[1] == '_');
                assert(id@.subrange(0, 8) == "t_region"@);
                assert(id@.subrange(0, 2) =~= id@.subrange(0, 8).subrange(0, 2));
                assert("t_"@ =~= "t_region"@.subrange(0, 2));
            }
        }
    }
    id.clone()
}

/// A regional terrain (one whose identifier begins with `t_region`)
/// replaced by a weighted random choice of the region settings, again until
/// the result is not regional; any other identifier is kept. The chain must
/// end with known regional terrains whose weights admit a choice.
pub fn replace_region_setting(
    id: &CDDAIdentifier,
    region_setting: &CDDARegionSettings,
    _terrain: &KeyedMap<CDDAIdentifier, CDDATerrain>,
    _furniture: &KeyedMap<CDDAIdentifier, CDDAFurniture>,
) -> (r: CDDAIdentifier)
    requires
        exists|f: nat| region_chain_ok(*region_setting, id@, f),
    ensures
        exists|f: nat| region_outcome(*region_setting, id@, r@, f),
        !starts_with(id@, "t_region"@) ==> r@ == id@,
{
    let ghost f = choose|f: nat| region_chain_ok(*region_setting, id@, f);
    let r = replace_with_fuel(id, region_setting, Ghost(f));
    proof {
        if !starts_with(id@, "t_region"@) {
            assert(region_outcome(*region_setting, id@, r@, f));
        }
    }
    r
}

/// Replacing never leaves a regional terrain: every outcome is an
/// identifier that does not begin with `t_region`.
pub proof fn law_region_outcome_not_regional(rs: CDDARegionSettings, id: Seq<char>, r: Seq<char>, fuel: nat)
    requires
        region_outcome(rs, id, r, fuel),
    ensures
        !starts_with(r, "t_region"@),
    decreases fuel,
{
    if starts_with(id, "t_region"@) && fuel > 0 {
        let m = rs.region_terrain_and_furniture.terrain.map();
        let k = choose|k: Seq<char>|
            #[trigger] m[id].map().contains_key(k) && m[id].map()[k] > 0 && region_outcome(rs, k, r, (fuel - 1) as nat);
        law_region_outcome_not_regional(rs, k, r, (fuel - 1) as nat);
    }
}

} // verus!
