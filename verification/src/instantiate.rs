use vstd::prelude::*;
use indexmap::IndexMap;
use crate::apply::{
    corpses_may_fail, gaspump_id, list_weights, monsters_may_skip, terrain_choice, monsters_may_fail, nested_may_fail, terrain_may_fail, traps_may_fail, default_region, groups_ok, mapgens_ok, monster_chances_ok, placed_on, plain, plain_tile, region_replaced, region_unknown,
    regions_ok, ApplyPropertyError,
};
use crate::calculate::{
    calc_may_fail, case_values, dist_members, opt_text_set, param_choices, params_from, value_outcome, CalculateParametersError,
    CalculateRandomParameters,
};
use crate::cdda_json::{DeserializedCDDAJsonData, TileLayer};
use crate::identifier::{
    inner_outcome, param_value, params_view, resolve_param, resolve_switch, switch_key, value_may_fail,
};
use crate::keyed_map::{KeyedMap, MapKey};
use crate::map::{spec_transform, transform_defined, MapGen};
use crate::map_instance::{
    clamp_cell, tile_or_empty, InstantiatedMapgen, InstantiatedTile, MapgenCellCoordinates, ParametersCalculated,
};
use crate::mapped_id::{MappedCDDAId, TilesheetCDDAId};
use crate::palettes::{CDDAPalette, Parameter};
use crate::parameters::{entry_lookup, entry_position, lemma_entry_position_bounds};
use std::sync::Arc;
use crate::place::{PlaceInnerFurniture, PlaceInnerTerrain, PlaceOuter};
use crate::properties::{MapProperties, MappingKind};
use crate::random::{random_range_inclusive_i32, weights_valid};
use crate::types::{
    CDDADistributionInner, CDDAIdentifier, DistributionInner, MapGenValue, ParameterIdentifier, NULL_FIELD, NULL_FURNITURE,
    NULL_TRAP,
};

verus! {

/// Why a map could not be instantiated.
pub enum GetMappedCDDAIdsError {
    MissingRegionSettings,
    MissingOvermapTerrainForPredecessor(String),
    MissingMapgenEntryForPredecessor(String),
    /// Calculating the parameters of a predecessor failed.
    CalculateParameters(CalculateParametersError),
    /// A mapping or the fill terrain could not be placed.
    Property(ApplyPropertyError),
}

/// Whether the properties hold a mapping of the kind for the character.
pub open spec fn has_mapping(p: MapProperties, kind: MappingKind, c: char) -> bool {
    match kind {
        MappingKind::Terrain => p.terrain.map().contains_key(c),
        MappingKind::Furniture => p.furniture.map().contains_key(c),
        MappingKind::Trap => p.trap.map().contains_key(c),
        MappingKind::ItemGroups => p.item_groups.map().contains_key(c),
        MappingKind::Computer => p.computer.map().contains_key(c),
        MappingKind::Sign => p.sign.map().contains_key(c),
        MappingKind::Toilet => p.toilet.map().contains_key(c),
        MappingKind::Gaspump => p.gaspump.map().contains_key(c),
        MappingKind::Monsters => p.monsters.map().contains_key(c),
        MappingKind::Monster => p.monster.map().contains_key(c),
        MappingKind::Field => p.field.map().contains_key(c),
        MappingKind::Nested => p.nested.map().contains_key(c),
        MappingKind::Vehicle => p.vehicle.map().contains_key(c),
        MappingKind::Corpse => p.corpse.map().contains_key(c),
    }
}

fn mapping_exists(p: &MapProperties, kind: MappingKind, c: char) -> (r: bool)
    ensures
        r == has_mapping(*p, kind, c),
{
    match kind {
        MappingKind::Terrain => p.terrain.contains_key(&c),
        MappingKind::Furniture => p.furniture.contains_key(&c),
        MappingKind::Trap => p.trap.contains_key(&c),
        MappingKind::ItemGroups => p.item_groups.contains_key(&c),
        MappingKind::Computer => p.computer.contains_key(&c),
        MappingKind::Sign => p.sign.contains_key(&c),
        MappingKind::Toilet => p.toilet.contains_key(&c),
        MappingKind::Gaspump => p.gaspump.contains_key(&c),
        MappingKind::Monsters => p.monsters.contains_key(&c),
        MappingKind::Monster => p.monster.contains_key(&c),
        MappingKind::Field => p.field.contains_key(&c),
        MappingKind::Nested => p.nested.contains_key(&c),
        MappingKind::Vehicle => p.vehicle.contains_key(&c),
        MappingKind::Corpse => p.corpse.contains_key(&c),
    }
}

/// The values a parameter named `name` may take anywhere in the game data:
/// an identifier of the default of a parameter of that name of a palette,
/// of a map, or of `extra`.
pub open spec fn any_choices(d: DeserializedCDDAJsonData, extra: KeyedMap<ParameterIdentifier, Parameter>, name: Seq<char>) -> Set<
    Seq<char>,
> {
    Set::new(
        |s: Seq<char>|
            param_choices(d.palettes.map(), extra, name).contains(s) || exists|k: Seq<char>| #[trigger]
                d.map_data.map().contains_key(k) && d.map_data.map()[k].common.parameters.map().contains_key(name)
                    && dist_members(d.map_data.map()[k].common.parameters.map()[name].default).contains(s),
    )
}

/// The identifiers that a mapgen value may resolve to when every parameter
/// holds one of `any_choices`.
pub open spec fn lookup_mentions(
    v: MapGenValue,
    d: DeserializedCDDAJsonData,
    extra: KeyedMap<ParameterIdentifier, Parameter>,
) -> Set<Seq<char>> {
    match v {
        MapGenValue::String(s) => set![s@],
        MapGenValue::Param { param, fallback } => any_choices(d, extra, param@).union(opt_text_set(fallback)),
        MapGenValue::Switch { cases, .. } => case_values(cases),
        MapGenValue::Distribution(dd) => Set::new(
            |s: Seq<char>|
                exists|i: int|
                    0 <= i < dd.values().len() && #[trigger] inner_lookup_mentions(dd.values()[i].spec_data(), d, extra).contains(
                        s,
                    ),
        ),
    }
}

pub open spec fn inner_lookup_mentions(
    v: CDDADistributionInner,
    d: DeserializedCDDAJsonData,
    extra: KeyedMap<ParameterIdentifier, Parameter>,
) -> Set<Seq<char>> {
    match v {
        CDDADistributionInner::String(s) => set![s@],
        CDDADistributionInner::Param { param, fallback } => any_choices(d, extra, param@).union(opt_text_set(fallback)),
        CDDADistributionInner::Switch { cases, .. } => case_values(cases),
        CDDADistributionInner::Distribution(dd) => dist_members(dd),
    }
}

/// Every calculated parameter holds one of `any_choices`.
pub open spec fn params_within(
    params: Seq<(Seq<char>, Seq<char>)>,
    d: DeserializedCDDAJsonData,
    extra: KeyedMap<ParameterIdentifier, Parameter>,
) -> bool {
    forall|i: int| 0 <= i < params.len() ==> any_choices(d, extra, params[i].0).contains(#[trigger] params[i].1)
}

/// Whether looking up a mapping through the palettes that `palettes` may
/// name ends within `fuel` steps, and every palette it may reach has
/// monster mappings with usable chances.
pub open spec fn lookups_end(
    palettes: Seq<MapGenValue>,
    d: DeserializedCDDAJsonData,
    extra: KeyedMap<ParameterIdentifier, Parameter>,
    fuel: nat,
) -> bool
    decreases fuel,
{
    forall|i: int, id: Seq<char>|
        0 <= i < palettes.len() && #[trigger] lookup_mentions(palettes[i], d, extra).contains(id)
            && d.palettes.map().contains_key(id) ==> fuel > 0 && props_ok(d.palettes.map()[id].properties) && lookups_end(
            d.palettes.map()[id].palettes@,
            d,
            extra,
            (fuel - 1) as nat,
        )
}

proof fn lemma_lookup_mentioned(
    v: MapGenValue,
    params: Seq<(Seq<char>, Seq<char>)>,
    d: DeserializedCDDAJsonData,
    extra: KeyedMap<ParameterIdentifier, Parameter>,
    id: Seq<char>,
)
    requires
        params_within(params, d, extra),
        value_outcome(v, params, id),
    ensures
        lookup_mentions(v, d, extra).contains(id),
{
    match v {
        MapGenValue::Param { param, fallback } => {
            lemma_entry_position_bounds(params, param@);
            let pos = entry_position(params, param@);
            if pos < params.len() {
                assert(any_choices(d, extra, params[pos].0).contains(params[pos].1));
            }
        },
        MapGenValue::Switch { switch, cases } => {
            let key = switch_key(params, switch);
            assert(cases.map().contains_key(key));
        },
        MapGenValue::Distribution(dd) => {
            let i = choose|i: int|
                0 <= i < dd.values().len() && inner_outcome(#[trigger] dd.values()[i].spec_data(), params, Some(id));
            let x = dd.values()[i].spec_data();
            match x {
                CDDADistributionInner::Param { param, fallback } => {
                    lemma_entry_position_bounds(params, param@);
                    let pos = entry_position(params, param@);
                    if pos < params.len() {
                        assert(any_choices(d, extra, params[pos].0).contains(params[pos].1));
                    }
                },
                CDDADistributionInner::Switch { switch, cases } => {
                    let key = switch_key(params, switch);
                    assert(cases.map().contains_key(key));
                },
                CDDADistributionInner::Distribution(ddd) => {
                    let j = choose|j: int|
                        0 <= j < ddd.distribution.values().len() && ddd.distribution.values()[j].spec_weight() > 0
                            && #[trigger] ddd.distribution.values()[j].spec_data()@ == id;
                    assert(dist_members(ddd).contains(id));
                },
                CDDADistributionInner::String(_) => {},
            }
            assert(inner_lookup_mentions(x, d, extra).contains(id));
        },
        MapGenValue::String(_) => {},
    }
}

/// Whether the properties `p` may be where a mapping of the kind for the
/// character is found: the properties searched first when they have it,
/// else those of a palette that a palette value may name, searched in turn.
pub open spec fn may_find(
    props: MapProperties,
    palettes: Seq<MapGenValue>,
    d: DeserializedCDDAJsonData,
    extra: KeyedMap<ParameterIdentifier, Parameter>,
    kind: MappingKind,
    c: char,
    fuel: nat,
    p: MapProperties,
) -> bool
    decreases fuel,
{
    if has_mapping(props, kind, c) {
        p == props
    } else {
        exists|i: int, id: Seq<char>|
            0 <= i < palettes.len() && #[trigger] lookup_mentions(palettes[i], d, extra).contains(id)
                && d.palettes.map().contains_key(id) && fuel > 0 && may_find(
                d.palettes.map()[id].properties,
                d.palettes.map()[id].palettes@,
                d,
                extra,
                kind,
                c,
                (fuel - 1) as nat,
                p,
            )
    }
}

/// Whether looking up the mapping may end without one: `props` do not
/// have it, and the first palette value fails to resolve, names no palette
/// of the game data, or names one whose own properties do not have it (its
/// search went on, in vain, through its own palettes).
pub open spec fn may_miss_mapping(
    props: MapProperties,
    palettes: Seq<MapGenValue>,
    d: DeserializedCDDAJsonData,
    params: Seq<(Seq<char>, Seq<char>)>,
    kind: MappingKind,
    c: char,
) -> bool {
    &&& !has_mapping(props, kind, c)
    &&& palettes.len() == 0 || value_may_fail(palettes[0], params) || exists|id: Seq<char>|
        #[trigger] value_outcome(palettes[0], params, id) && (!d.palettes.map().contains_key(id) || !has_mapping(
            d.palettes.map()[id].properties,
            kind,
            c,
        ))
}

/// Looks up the mapping of the kind for the character: in `props`, else in
/// the palettes that `palettes` name, in order, each searched in turn. A
/// palette value that does not resolve, or names a palette that does not
/// exist, ends the search without a mapping.
fn get_random_property_from_character_recursive<'a>(
    props: &'a MapProperties,
    palettes: &'a Vec<MapGenValue>,
    d: &'a DeserializedCDDAJsonData,
    params: &IndexMap<ParameterIdentifier, CDDAIdentifier>,
    kind: MappingKind,
    c: char,
    Ghost(extra): Ghost<KeyedMap<ParameterIdentifier, Parameter>>,
    Ghost(fuel): Ghost<nat>,
) -> (r: Option<&'a MapProperties>)
    requires
        lookups_end(palettes@, *d, extra, fuel),
        params_within(params_view(*params), *d, extra),
    ensures
        r matches Some(p) ==> has_mapping(*p, kind, c) && may_find(*props, palettes@, *d, extra, kind, c, fuel, *p),
        has_mapping(*props, kind, c) ==> (r matches Some(p) && *p == *props),
        r is None ==> may_miss_mapping(*props, palettes@, *d, params_view(*params), kind, c),
    decreases fuel,
{
    if mapping_exists(props, kind, c) {
        return Some(props);
    }
    let ghost pv = params_view(*params);
    let n = palettes.len();
    let mut i: usize = 0;
    while i < n
        invariant
            n == palettes@.len(),
            i <= n,
            !has_mapping(*props, kind, c),
            lookups_end(palettes@, *d, extra, fuel),
            params_within(params_view(*params), *d, extra),
            pv == params_view(*params),
            i > 0 ==> exists|id: Seq<char>|
                #[trigger] value_outcome(palettes@[0], pv, id) && d.palettes.map().contains_key(id) && !has_mapping(
                    d.palettes.map()[id].properties,
                    kind,
                    c,
                ),
        decreases n - i,
    {
        let id = match palettes[i].get_identifier(params) {
            Ok(id) => id,
            Err(_) => {
                proof {
                    assert(value_may_fail(palettes@[i as int], pv));
                }
                return None;
            },
        };
        proof {
            assert(value_outcome(palettes@[i as int], params_view(*params), id@));
            lemma_lookup_mentioned(palettes@[i as int], params_view(*params), *d, extra, id@);
        }
        let palette = match d.palettes.get(&id) {
            Some(p) => p,
            None => {
                proof {
                    assert(value_outcome(palettes@[i as int], pv, id@) && !d.palettes.map().contains_key(id@));
                }
                return None;
            },
        };
        proof {
            assert(lookup_mentions(palettes@[i as int], *d, extra).contains(id@));
        }
        let found = get_random_property_from_character_recursive(
            &palette.properties,
            &palette.palettes,
            d,
            params,
            kind,
            c,
            Ghost(extra),
            Ghost((fuel - 1) as nat),
        );
        match found {
            Some(p) => {
                proof {
                    assert(lookup_mentions(palettes@[i as int], *d, extra).contains(id@));
                }
                return Some(p);
            },
            None => {
                proof {
                    assert(*palette == d.palettes.map()[id@]);
                    assert(value_outcome(palettes@[i as int], pv, id@) && d.palettes.map().contains_key(id@));
                    assert(!has_mapping(d.palettes.map()[id@].properties, kind, c));
                }
            },
        }
        i = i + 1;
    }
    None
}


/// Every monster mapping of the properties has chances that a random draw
/// can be taken from.
pub open spec fn props_ok(p: MapProperties) -> bool {
    &&& forall|c: char| #[trigger] p.monsters.map().contains_key(c) ==> monster_chances_ok(p.monsters.map()[c].monster@)
    &&& forall|c: char| #[trigger] p.monster.map().contains_key(c) ==> monster_chances_ok(p.monster.map()[c].monster@)
}

/// The tiles changed at most at `pos`, and no tile lost its terrain.
pub open spec fn tiles_step(
    old: Map<(u32, u32), InstantiatedTile>,
    new: Map<(u32, u32), InstantiatedTile>,
    pos: (u32, u32),
) -> bool {
    &&& forall|p: (u32, u32)| p != pos ==> (#[trigger] new.contains_key(p) <==> old.contains_key(p))
    &&& forall|p: (u32, u32)| p != pos && #[trigger] new.contains_key(p) ==> new[p] == old[p]
    &&& old.contains_key(pos) ==> new.contains_key(pos)
    &&& old.contains_key(pos) && old[pos].terrain is Some ==> new[pos].terrain is Some
}

/// Whether placing the mapping of the kind for the character may be
/// refused (see each mapping's `apply_to_instantiation`); signs, item
/// groups and vehicles never are.
pub open spec fn mapping_may_fail(
    props: MapProperties,
    kind: MappingKind,
    c: char,
    params: Seq<(Seq<char>, Seq<char>)>,
    d: DeserializedCDDAJsonData,
) -> bool {
    match kind {
        MappingKind::Terrain => terrain_may_fail(props.terrain.map()[c].mapgen_value, params, d),
        MappingKind::Furniture => value_may_fail(props.furniture.map()[c].mapgen_value, params),
        MappingKind::Computer => value_may_fail(props.computer.map()[c].mapgen_value, params),
        MappingKind::Toilet => value_may_fail(props.toilet.map()[c].mapgen_value, params),
        MappingKind::Trap => traps_may_fail(props.trap.map()[c], params),
        MappingKind::Sign => false,
        MappingKind::Gaspump => !weights_valid(list_weights(props.gaspump.map()[c].gaspumps@)),
        MappingKind::Field => !weights_valid(list_weights(props.field.map()[c].field@)),
        MappingKind::Monsters => monsters_may_fail(props.monsters.map()[c], params, d),
        MappingKind::Monster => monsters_may_fail(props.monster.map()[c], params, d),
        MappingKind::Nested => nested_may_fail(props.nested.map()[c], params),
        MappingKind::Corpse => corpses_may_fail(props.corpse.map()[c], d),
        MappingKind::ItemGroups => false,
        MappingKind::Vehicle => false,
    }
}

/// No tile disappeared, and none has another terrain.
pub open spec fn terrain_kept(old: Map<(u32, u32), InstantiatedTile>, new: Map<(u32, u32), InstantiatedTile>) -> bool {
    forall|q: (u32, u32)| #[trigger]
        old.contains_key(q) ==> new.contains_key(q) && new[q].terrain == old[q].terrain
}

/// The layer of a tile that a kind of mapping places on; item groups,
/// nested maps and vehicles place on none of the tile layers here.
pub open spec fn layer_of(kind: MappingKind) -> Option<TileLayer> {
    match kind {
        MappingKind::Terrain => Some(TileLayer::Terrain),
        MappingKind::Furniture => Some(TileLayer::Furniture),
        MappingKind::Trap => Some(TileLayer::Furniture),
        MappingKind::Computer => Some(TileLayer::Furniture),
        MappingKind::Sign => Some(TileLayer::Furniture),
        MappingKind::Toilet => Some(TileLayer::Furniture),
        MappingKind::Gaspump => Some(TileLayer::Furniture),
        MappingKind::Monsters => Some(TileLayer::Monster),
        MappingKind::Monster => Some(TileLayer::Monster),
        MappingKind::Corpse => Some(TileLayer::Monster),
        MappingKind::Field => Some(TileLayer::Field),
        MappingKind::ItemGroups => None,
        MappingKind::Nested => None,
        MappingKind::Vehicle => None,
    }
}

/// What the layer of a tile holds.
pub open spec fn layer_value(t: InstantiatedTile, l: TileLayer) -> Option<MappedCDDAId> {
    match l {
        TileLayer::Terrain => t.terrain,
        TileLayer::Furniture => t.furniture,
        TileLayer::Monster => t.monster,
        TileLayer::Field => t.field,
    }
}

/// A furniture that a value may give: the identifier alone, not `f_null`.
pub open spec fn furniture_value_places(v: MapGenValue, params: Seq<(Seq<char>, Seq<char>)>, m: MappedCDDAId) -> bool {
    plain_tile(m, m.tilesheet_id.id@) && m.tilesheet_id.id@ != NULL_FURNITURE@ && value_outcome(v, params, m.tilesheet_id.id@)
}

/// Whether the mapping of the kind for the character may place `m` on its
/// layer (see each mapping's `apply_to_instantiation`).
pub open spec fn kind_places(
    props: MapProperties,
    kind: MappingKind,
    c: char,
    params: Seq<(Seq<char>, Seq<char>)>,
    d: DeserializedCDDAJsonData,
    m: MappedCDDAId,
) -> bool {
    match kind {
        MappingKind::Terrain => m.tilesheet_id.prefix is None && m.tilesheet_id.postfix is None && terrain_choice(
            props.terrain.map()[c].mapgen_value,
            params,
            d,
            m.tilesheet_id.id@,
        ),
        MappingKind::Furniture => furniture_value_places(props.furniture.map()[c].mapgen_value, params, m),
        MappingKind::Computer => furniture_value_places(props.computer.map()[c].mapgen_value, params, m),
        MappingKind::Toilet => furniture_value_places(props.toilet.map()[c].mapgen_value, params, m),
        MappingKind::Trap => exists|i: int|
            0 <= i < props.trap.map()[c].trap@.len() && props.trap.map()[c].trap@[i].weight > 0 && plain_tile(
                m,
                m.tilesheet_id.id@,
            ) && value_outcome(#[trigger] props.trap.map()[c].trap@[i].data, params, m.tilesheet_id.id@),
        MappingKind::Sign => plain_tile(m, "f_sign"@),
        MappingKind::Gaspump => exists|i: int|
            0 <= i < props.gaspump.map()[c].gaspumps@.len() && props.gaspump.map()[c].gaspumps@[i].weight > 0
                && plain_tile(m, gaspump_id(#[trigger] props.gaspump.map()[c].gaspumps@[i].data.fuel)),
        MappingKind::Field => exists|i: int|
            0 <= i < props.field.map()[c].field@.len() && props.field.map()[c].field@[i].weight > 0 && plain_tile(
                m,
                #[trigger] props.field.map()[c].field@[i].data.field@,
            ),
        MappingKind::Monsters => plain_tile(m, m.tilesheet_id.id@),
        MappingKind::Monster => plain_tile(m, m.tilesheet_id.id@),
        MappingKind::Corpse => exists|i: int|
            0 <= i < props.corpse.map()[c].corpses@.len() && props.corpse.map()[c].corpses@[i].weight > 0
                && d.monster_groups.map().contains_key(#[trigger] props.corpse.map()[c].corpses@[i].data.group@)
                && (m.tilesheet_id.prefix matches Some(p) && p@ == "corpse"@) && m.tilesheet_id.postfix is None,
        _ => false,
    }
}

/// Whether the mapping of the kind for the character may place nothing:
/// a furniture value that may give `f_null`, a trap that may be `tr_null`,
/// a field that may be `fd_null`, a monster whose chance may miss or whose
/// value may fail.
pub open spec fn kind_may_skip(
    props: MapProperties,
    kind: MappingKind,
    c: char,
    params: Seq<(Seq<char>, Seq<char>)>,
) -> bool {
    match kind {
        MappingKind::Furniture => value_outcome(props.furniture.map()[c].mapgen_value, params, NULL_FURNITURE@),
        MappingKind::Computer => value_outcome(props.computer.map()[c].mapgen_value, params, NULL_FURNITURE@),
        MappingKind::Toilet => value_outcome(props.toilet.map()[c].mapgen_value, params, NULL_FURNITURE@),
        MappingKind::Trap => exists|i: int|
            0 <= i < props.trap.map()[c].trap@.len() && props.trap.map()[c].trap@[i].weight > 0 && value_outcome(
                #[trigger] props.trap.map()[c].trap@[i].data,
                params,
                NULL_TRAP@,
            ),
        MappingKind::Field => exists|i: int|
            0 <= i < props.field.map()[c].field@.len() && props.field.map()[c].field@[i].weight > 0 && (#[trigger] props.field.map()[c].field@[i]).data.field@
                == NULL_FIELD@,
        MappingKind::Monsters => monsters_may_skip(props.monsters.map()[c], params),
        MappingKind::Monster => monsters_may_skip(props.monster.map()[c], params),
        _ => false,
    }
}

/// What placing the mapping of the kind for the character at `pos` did to
/// the tiles: on the kind's layer of the tile at `pos` it placed a value the
/// mapping may place, or it placed nothing where the mapping may place
/// nothing; a kind without a layer left the tiles as they were.
pub open spec fn kind_result(
    props: MapProperties,
    kind: MappingKind,
    c: char,
    params: Seq<(Seq<char>, Seq<char>)>,
    d: DeserializedCDDAJsonData,
    old: Map<(u32, u32), InstantiatedTile>,
    new: Map<(u32, u32), InstantiatedTile>,
    pos: (u32, u32),
) -> bool {
    match layer_of(kind) {
        None => new == old,
        Some(l) => (exists|m: MappedCDDAId| #[trigger] placed_on(old, new, pos, l, m) && kind_places(props, kind, c, params, d, m))
            || (new == old && kind_may_skip(props, kind, c, params)),
    }
}

/// The kind of mapping placed at step `i` of a cell, in the order the
/// kinds are placed.
pub open spec fn kind_at(i: int) -> MappingKind {
    if i == 0 {
        MappingKind::Terrain
    } else if i == 1 {
        MappingKind::Furniture
    } else if i == 2 {
        MappingKind::Trap
    } else if i == 3 {
        MappingKind::ItemGroups
    } else if i == 4 {
        MappingKind::Computer
    } else if i == 5 {
        MappingKind::Sign
    } else if i == 6 {
        MappingKind::Toilet
    } else if i == 7 {
        MappingKind::Gaspump
    } else if i == 8 {
        MappingKind::Monsters
    } else if i == 9 {
        MappingKind::Monster
    } else if i == 10 {
        MappingKind::Field
    } else if i == 11 {
        MappingKind::Nested
    } else if i == 12 {
        MappingKind::Vehicle
    } else {
        MappingKind::Corpse
    }
}

/// The step at which a kind of mapping is placed (see `kind_at`).
pub open spec fn kind_order(k: MappingKind) -> int {
    match k {
        MappingKind::Terrain => 0,
        MappingKind::Furniture => 1,
        MappingKind::Trap => 2,
        MappingKind::ItemGroups => 3,
        MappingKind::Computer => 4,
        MappingKind::Sign => 5,
        MappingKind::Toilet => 6,
        MappingKind::Gaspump => 7,
        MappingKind::Monsters => 8,
        MappingKind::Monster => 9,
        MappingKind::Field => 10,
        MappingKind::Nested => 11,
        MappingKind::Vehicle => 12,
        MappingKind::Corpse => 13,
    }
}

/// Whether looking up a mapping of the kind for the character in the map
/// may find one.
pub open spec fn may_be_found(
    m: MapGen,
    d: DeserializedCDDAJsonData,
    extra: KeyedMap<ParameterIdentifier, Parameter>,
    k: MappingKind,
    c: char,
) -> bool {
    exists|p: MapProperties, fuel: nat| #[trigger] may_find(m.common.properties, m.common.palettes@, d, extra, k, c, fuel, p)
}

/// Whether a kind placed after `k` and before step `bound`, on the same
/// layer, may be found for the character.
pub open spec fn found_after_on_layer(
    m: MapGen,
    d: DeserializedCDDAJsonData,
    extra: KeyedMap<ParameterIdentifier, Parameter>,
    k: MappingKind,
    c: char,
    bound: int,
) -> bool {
    exists|k2: MappingKind|
        kind_order(k) < kind_order(k2) < bound && layer_of(k2) == layer_of(k) && #[trigger] may_be_found(m, d, extra, k2, c)
}

/// Whether the mapping of the kind for the character settles its layer of
/// the cell's tile: the kind has a layer, looking it up cannot end without
/// a mapping, and no kind placed after it on the same layer may be found.
pub open spec fn kind_settles(
    m: MapGen,
    d: DeserializedCDDAJsonData,
    extra: KeyedMap<ParameterIdentifier, Parameter>,
    k: MappingKind,
    c: char,
    params: Seq<(Seq<char>, Seq<char>)>,
) -> bool {
    &&& layer_of(k) is Some
    &&& !may_miss_mapping(m.common.properties, m.common.palettes@, d, params, k, c)
    &&& !found_after_on_layer(m, d, extra, k, c, 14)
}

/// Whether the tile at `pos` holds, on the kind's layer, a value that the
/// mapping of the kind found for the character may place, or that mapping
/// may place nothing.
pub open spec fn kind_landed(
    m: MapGen,
    d: DeserializedCDDAJsonData,
    extra: KeyedMap<ParameterIdentifier, Parameter>,
    k: MappingKind,
    c: char,
    params: Seq<(Seq<char>, Seq<char>)>,
    tiles: Map<(u32, u32), InstantiatedTile>,
    pos: (u32, u32),
) -> bool {
    exists|p: MapProperties, fuel: nat|
        #[trigger] may_find(m.common.properties, m.common.palettes@, d, extra, k, c, fuel, p) && ((tiles.contains_key(pos)
            && (layer_value(tiles[pos], layer_of(k)->0) matches Some(v) && kind_places(p, k, c, params, d, v)))
            || kind_may_skip(p, k, c, params))
}

/// Places the mapping of the kind for the character at the position.
/// Item groups place nothing here, and neither do vehicles: turning a
/// vehicle's parts takes floating point, which
/// `VehiclesProperty::apply_to_instantiation` leaves to its caller.
fn apply_mapping(
    props: &MapProperties,
    kind: MappingKind,
    c: char,
    instantiation: &mut InstantiatedMapgen<ParametersCalculated>,
    position: MapgenCellCoordinates,
    d: &DeserializedCDDAJsonData,
) -> (r: Result<(), ApplyPropertyError>)
    requires
        has_mapping(*props, kind, c),
        props_ok(*props),
        regions_ok(*d),
        groups_ok(*d),
        mapgens_ok(*d),
    ensures
        final(instantiation).calculated_parameters == old(instantiation).calculated_parameters,
        tiles_step(old(instantiation).instantiated_tiles.map(), final(instantiation).instantiated_tiles.map(), position.0),
        r is Ok && kind == MappingKind::Terrain ==> final(instantiation).instantiated_tiles.map().contains_key(position.0)
            && final(instantiation).instantiated_tiles.map()[position.0].terrain is Some,
        r is Err ==> mapping_may_fail(*props, kind, c, params_view(old(instantiation).calculated_parameters.0), *d),
        r is Ok ==> kind_result(
            *props,
            kind,
            c,
            params_view(old(instantiation).calculated_parameters.0),
            *d,
            old(instantiation).instantiated_tiles.map(),
            final(instantiation).instantiated_tiles.map(),
            position.0,
        ),
        kind != MappingKind::Terrain ==> terrain_kept(
            old(instantiation).instantiated_tiles.map(),
            final(instantiation).instantiated_tiles.map(),
        ),
        r is Ok && kind == MappingKind::Terrain ==> (final(instantiation).instantiated_tiles.map()[position.0].terrain matches Some(
            t,
        ) && terrain_choice(
            props.terrain.map()[c].mapgen_value,
            params_view(old(instantiation).calculated_parameters.0),
            *d,
            t.tilesheet_id.id@,
        )),
{
    let r = match kind {
        MappingKind::Terrain => props.terrain.get(&c).unwrap().apply_to_instantiation(instantiation, position, d),
        MappingKind::Furniture => props.furniture.get(&c).unwrap().apply_to_instantiation(instantiation, position, d),
        MappingKind::Computer => props.computer.get(&c).unwrap().apply_to_instantiation(instantiation, position, d),
        MappingKind::Toilet => props.toilet.get(&c).unwrap().apply_to_instantiation(instantiation, position, d),
        MappingKind::Trap => props.trap.get(&c).unwrap().apply_to_instantiation(instantiation, position),
        MappingKind::Sign => props.sign.get(&c).unwrap().apply_to_instantiation(instantiation, position),
        MappingKind::Gaspump => props.gaspump.get(&c).unwrap().apply_to_instantiation(instantiation, position),
        MappingKind::Field => props.field.get(&c).unwrap().apply_to_instantiation(instantiation, position),
        MappingKind::Monsters => props.monsters.get(&c).unwrap().apply_to_instantiation(instantiation, position, d),
        MappingKind::Monster => props.monster.get(&c).unwrap().apply_to_instantiation(instantiation, position, d),
        MappingKind::Nested => props.nested.get(&c).unwrap().apply_to_instantiation(instantiation, position, d),
        MappingKind::Corpse => props.corpse.get(&c).unwrap().apply_to_instantiation(instantiation, position, d),
        MappingKind::ItemGroups => Ok(()),
        MappingKind::Vehicle => Ok(()),
    };
    r
}

/// `DistributionInner` resolved with the calculated parameters: a
/// parameter by its value or fallback, a switch by its case, an identifier
/// as it is.
fn resolve_distribution(
    v: &DistributionInner,
    params: &IndexMap<ParameterIdentifier, CDDAIdentifier>,
) -> (r: Result<CDDAIdentifier, crate::identifier::GetIdentifierError>)
    ensures
        v matches DistributionInner::Normal(n) ==> (r matches Ok(id) && id@ == n@),
        !(v is Switch) ==> r is Ok,
{
    match v {
        DistributionInner::Normal(n) => Ok(n.clone()),
        DistributionInner::Param { param, fallback } => resolve_param(params, param, &Some(fallback.clone())),
        DistributionInner::Switch { switch, cases } => resolve_switch(params, switch, cases),
    }
}

/// The game map that a predecessor names: the built-in map of its overmap
/// terrain, or the map of the same name when the terrain has none.
pub open spec fn predecessor_of(m: MapGen, d: DeserializedCDDAJsonData) -> Option<MapGen> {
    match m.common.predecessor {
        None => None,
        Some(pid) => if !d.overmap_terrains.map().contains_key(pid@) {
            None
        } else {
            let ot = d.overmap_terrains.map()[pid@];
            if ot.mapgen is Some && ot.mapgen->0@.len() > 0 {
                Some(d.map_data.map()[ot.mapgen->0@[0].builtin@])
            } else if d.map_data.map().contains_key(pid@) {
                Some(d.map_data.map()[pid@])
            } else {
                None
            }
        },
    }
}

/// Whether following predecessors from `m` reaches a map whose
/// predecessor `p` is not an overmap terrain of the game data.
pub open spec fn pred_missing_ot(m: MapGen, d: DeserializedCDDAJsonData, fuel: nat, p: Seq<char>) -> bool
    decreases fuel,
{
    ||| (m.common.predecessor matches Some(pid) && pid@ == p && !d.overmap_terrains.map().contains_key(p))
    ||| (predecessor_of(m, d) matches Some(pm) && fuel > 0 && pred_missing_ot(pm, d, (fuel - 1) as nat, p))
}

/// Whether following predecessors from `m` reaches a map whose
/// predecessor `p` is an overmap terrain without a built-in map and with no
/// map of its name.
pub open spec fn pred_missing_map(m: MapGen, d: DeserializedCDDAJsonData, fuel: nat, p: Seq<char>) -> bool
    decreases fuel,
{
    ||| (m.common.predecessor matches Some(pid) && pid@ == p && d.overmap_terrains.map().contains_key(p) && !(
    d.overmap_terrains.map()[p].mapgen is Some && d.overmap_terrains.map()[p].mapgen->0@.len() > 0)
        && !d.map_data.map().contains_key(p))
    ||| (predecessor_of(m, d) matches Some(pm) && fuel > 0 && pred_missing_map(pm, d, (fuel - 1) as nat, p))
}

/// Whether placing the fill terrain may be refused: a plain fill that is a
/// regional terrain the default region settings do not know, or a fill
/// taken from a parameter.
pub open spec fn fill_may_fail(m: MapGen, d: DeserializedCDDAJsonData) -> bool {
    match m.common.fill {
        None => false,
        Some(DistributionInner::Normal(n)) => region_unknown(d, n@),
        Some(_) => true,
    }
}

/// The cell position that the mappings of a cell are placed at: its
/// position clamped into the cells.
pub open spec fn cell_pos(p: (u32, u32)) -> (u32, u32) {
    (clamp_cell(p.0), clamp_cell(p.1))
}

/// Whether the tile holds a terrain that the map's own terrain mapping of
/// the character may give.
pub open spec fn mapped_terrain_at(
    m: MapGen,
    c: char,
    tile: InstantiatedTile,
    params: Seq<(Seq<char>, Seq<char>)>,
    d: DeserializedCDDAJsonData,
) -> bool {
    tile.terrain matches Some(t) && terrain_choice(
        m.common.properties.terrain.map()[c].mapgen_value,
        params,
        d,
        t.tilesheet_id.id@,
    )
}

/// Whether the cell at `p` (inside the cells, so its mappings are placed at
/// `p` itself) has the terrain that the map's own terrain mapping of its
/// character may give, where the map has one.
pub open spec fn cell_terrain_landed(
    m: MapGen,
    p: (u32, u32),
    tiles: Map<(u32, u32), InstantiatedTile>,
    params: Seq<(Seq<char>, Seq<char>)>,
    d: DeserializedCDDAJsonData,
) -> bool {
    p.0 < 24 && p.1 < 24 && has_mapping(m.common.properties, MappingKind::Terrain, m.cells.map()[p].character) ==> tiles.contains_key(
        p,
    ) && mapped_terrain_at(m, m.cells.map()[p].character, tiles[p], params, d)
}

/// As `cell_terrain_landed`, where no terrain placement may land on the cell.
pub open spec fn cell_terrain_landed_off_places(
    m: MapGen,
    p: (u32, u32),
    tiles: Map<(u32, u32), InstantiatedTile>,
    params: Seq<(Seq<char>, Seq<char>)>,
    d: DeserializedCDDAJsonData,
) -> bool {
    !terrain_landable(m, p) ==> cell_terrain_landed(m, p, tiles, params, d)
}

/// Every cell inside the cells whose character has a terrain mapping of the
/// map's own, and on which no terrain placement may land, holds a terrain
/// that the mapping may give.
pub open spec fn mapped_terrains_landed(
    m: MapGen,
    tiles: Map<(u32, u32), InstantiatedTile>,
    params: Seq<(Seq<char>, Seq<char>)>,
    d: DeserializedCDDAJsonData,
) -> bool {
    forall|p: (u32, u32)| #[trigger] m.cells.map().contains_key(p) ==> cell_terrain_landed_off_places(m, p, tiles, params, d)
}

/// Whether placing the mappings of the character `c` may be refused: some
/// mapping of some kind that looking it up may find may be refused.
pub open spec fn cell_may_fail(
    m: MapGen,
    c: char,
    params: Seq<(Seq<char>, Seq<char>)>,
    d: DeserializedCDDAJsonData,
    extra: KeyedMap<ParameterIdentifier, Parameter>,
) -> bool {
    exists|k: MappingKind, p: MapProperties, fuel: nat|
        #[trigger] may_find(m.common.properties, m.common.palettes@, d, extra, k, c, fuel, p) && mapping_may_fail(
            p,
            k,
            c,
            params,
            d,
        )
}

/// Whether placing the mappings of some cell of the map may be refused.
pub open spec fn cells_may_fail(
    m: MapGen,
    params: Seq<(Seq<char>, Seq<char>)>,
    d: DeserializedCDDAJsonData,
    extra: KeyedMap<ParameterIdentifier, Parameter>,
) -> bool {
    exists|pos: (u32, u32)| #[trigger]
        m.cells.map().contains_key(pos) && cell_may_fail(m, m.cells.map()[pos].character, params, d, extra)
}

/// Whether following predecessors ends within `fuel` steps.
pub open spec fn predecessors_end(m: MapGen, d: DeserializedCDDAJsonData, fuel: nat) -> bool
    decreases fuel,
{
    match predecessor_of(m, d) {
        None => true,
        Some(p) => fuel > 0 && predecessors_end(p, d, (fuel - 1) as nat),
    }
}

/// A possible value of a number or range: the number, or a value of the
/// range with its upper end left out.
pub open spec fn in_range(r: crate::number_or_range::NumberOrRange<i32>, v: int) -> bool {
    match r {
        crate::number_or_range::NumberOrRange::Number(n) => v == n,
        crate::number_or_range::NumberOrRange::Range((a, b)) => a <= v < b,
    }
}

pub open spec fn range_ok(r: crate::number_or_range::NumberOrRange<i32>) -> bool {
    r is Range ==> r.spec_bounds().0 < r.spec_bounds().1
}

/// A placement can be drawn and turned with the map: its ranges are not
/// empty, and every position it may draw is in the map's quarter of
/// unsigned numbers where turning is defined.
pub open spec fn place_ok<T>(p: crate::place::PlaceOuter<T>, m: MapGen) -> bool {
    &&& range_ok(p.x) && range_ok(p.y) && range_ok(p.repeat)
    &&& forall|x: int, y: int|
        in_range(p.x, x) && in_range(p.y, y) ==> 0 <= x <= u32::MAX && 0 <= y <= u32::MAX && transform_defined(
            m.rotation,
            m.map_size,
            (x as u32, y as u32),
        )
}

/// A map can be instantiated without a panic: its cells turn with it, its
/// fill terrain is not a switch, its terrain and furniture placements can
/// be drawn, its monster mappings have usable chances, and calculating its
/// parameters ends.
pub open spec fn map_ok(m: MapGen, d: DeserializedCDDAJsonData) -> bool {
    &&& forall|p: (u32, u32)| #[trigger] m.cells.map().contains_key(p) ==> transform_defined(m.rotation, m.map_size, p)
    &&& !(m.common.fill matches Some(DistributionInner::Switch { .. }))
    &&& forall|i: int| 0 <= i < m.place.terrain@.len() ==> place_ok(#[trigger] m.place.terrain@[i], m)
    &&& forall|i: int| 0 <= i < m.place.furniture@.len() ==> place_ok(#[trigger] m.place.furniture@[i], m)
    &&& props_ok(m.common.properties)
    &&& exists|f: nat| crate::calculate::palettes_end(m.common.palettes@, d.palettes.map(), m.common.parameters, f)
}

/// The game data can instantiate maps, looking up mappings with parameters
/// among `any_choices` with `extra`: regional terrain, monster groups and
/// parameter calculations end.
pub open spec fn data_ok(d: DeserializedCDDAJsonData, extra: KeyedMap<ParameterIdentifier, Parameter>) -> bool {
    &&& regions_ok(d)
    &&& groups_ok(d)
    &&& mapgens_ok(d)
}

/// The predecessors of the map, followed within `fuel` steps, can be
/// instantiated: a predecessor's overmap terrain that names a built-in map
/// names a map of the game data, and each map reached is `map_ok` with
/// lookups that end.
pub open spec fn chain_ok(
    m: MapGen,
    d: DeserializedCDDAJsonData,
    extra: KeyedMap<ParameterIdentifier, Parameter>,
    fuel: nat,
) -> bool
    decreases fuel,
{
    &&& (m.common.predecessor matches Some(pid) && d.overmap_terrains.map().contains_key(pid@)
        && d.overmap_terrains.map()[pid@].mapgen is Some && d.overmap_terrains.map()[pid@].mapgen->0@.len() > 0)
        ==> d.map_data.map().contains_key(d.overmap_terrains.map()[m.common.predecessor->0@].mapgen->0@[0].builtin@)
    &&& (predecessor_of(m, d) matches Some(p) ==> fuel > 0 && map_ok(p, d) && (exists|f: nat|
        lookups_end(p.common.palettes@, d, extra, f)) && chain_ok(p, d, extra, (fuel - 1) as nat))
}

proof fn lemma_chain_ends(
    m: MapGen,
    d: DeserializedCDDAJsonData,
    extra: KeyedMap<ParameterIdentifier, Parameter>,
    fuel: nat,
)
    requires
        chain_ok(m, d, extra, fuel),
    ensures
        predecessors_end(m, d, fuel),
    decreases fuel,
{
    if let Some(p) = predecessor_of(m, d) {
        lemma_chain_ends(p, d, extra, (fuel - 1) as nat);
    }
}

/// The position of the tile of the cell at `p`: turned with the map and
/// kept within the bounds of a map.
pub open spec fn cell_tile(m: MapGen, p: (u32, u32)) -> (u32, u32) {
    let t = spec_transform(m.rotation, m.map_size, p);
    (clamp_cell(t.0 as u32), clamp_cell(t.1 as u32))
}

/// What holds of every instantiation of the tiles of a map: the tile of
/// every cell exists, and holds a terrain when the map has a fill terrain.
pub open spec fn cells_instantiated(m: MapGen, tiles: Map<(u32, u32), InstantiatedTile>) -> bool {
    forall|p: (u32, u32)| #[trigger]
        m.cells.map().contains_key(p) ==> tiles.contains_key(cell_tile(m, p)) && (m.common.fill is Some
            ==> tiles[cell_tile(m, p)].terrain is Some)
}

proof fn lemma_found_in(
    props: MapProperties,
    palettes: Seq<MapGenValue>,
    d: DeserializedCDDAJsonData,
    extra: KeyedMap<ParameterIdentifier, Parameter>,
    kind: MappingKind,
    c: char,
    fuel: nat,
    p: MapProperties,
)
    requires
        may_find(props, palettes, d, extra, kind, c, fuel, p),
        lookups_end(palettes, d, extra, fuel),
        props_ok(props),
    ensures
        p == props || exists|k: Seq<char>| #[trigger] d.palettes.map().contains_key(k) && p == d.palettes.map()[k].properties,
        props_ok(p),
    decreases fuel,
{
    if !has_mapping(props, kind, c) {
        let (i, id) = choose|i: int, id: Seq<char>|
            0 <= i < palettes.len() && #[trigger] lookup_mentions(palettes[i], d, extra).contains(id)
                && d.palettes.map().contains_key(id) && fuel > 0 && may_find(
                d.palettes.map()[id].properties,
                d.palettes.map()[id].palettes@,
                d,
                extra,
                kind,
                c,
                (fuel - 1) as nat,
                p,
            );
        lemma_found_in(
            d.palettes.map()[id].properties,
            d.palettes.map()[id].palettes@,
            d,
            extra,
            kind,
            c,
            (fuel - 1) as nat,
            p,
        );
    }
}

/// The mappings of a map.
pub open spec fn props_of(m: MapGen) -> MapProperties {
    m.common.properties
}

/// The parameters of a map.
pub open spec fn params_of(m: MapGen) -> KeyedMap<ParameterIdentifier, Parameter> {
    m.common.parameters
}

/// No tile disappeared and none lost its terrain.
pub open spec fn keeps(old: Map<(u32, u32), InstantiatedTile>, new: Map<(u32, u32), InstantiatedTile>) -> bool {
    forall|q: (u32, u32)| #[trigger]
        old.contains_key(q) ==> new.contains_key(q) && (old[q].terrain is Some ==> new[q].terrain is Some)
}

fn clone_opt_mapped(m: &Option<MappedCDDAId>) -> (r: Option<MappedCDDAId>)
    ensures
        r is Some <==> m is Some,
{
    match m {
        Some(x) => Some(x.clone_mapped()),
        None => None,
    }
}

/// The kinds of mappings, in the order they are placed.
fn mapping_kinds() -> (r: Vec<MappingKind>)
    ensures
        r@.len() == 14,
        forall|i: int| 0 <= i < 14 ==> #[trigger] r@[i] == kind_at(i),
        r@ == seq![
            MappingKind::Terrain,
            MappingKind::Furniture,
            MappingKind::Trap,
            MappingKind::ItemGroups,
            MappingKind::Computer,
            MappingKind::Sign,
            MappingKind::Toilet,
            MappingKind::Gaspump,
            MappingKind::Monsters,
            MappingKind::Monster,
            MappingKind::Field,
            MappingKind::Nested,
            MappingKind::Vehicle,
            MappingKind::Corpse,
        ],
{
    let r = vec![
        MappingKind::Terrain,
        MappingKind::Furniture,
        MappingKind::Trap,
        MappingKind::ItemGroups,
        MappingKind::Computer,
        MappingKind::Sign,
        MappingKind::Toilet,
        MappingKind::Gaspump,
        MappingKind::Monsters,
        MappingKind::Monster,
        MappingKind::Field,
        MappingKind::Nested,
        MappingKind::Vehicle,
        MappingKind::Corpse,
    ];
    assert forall|i: int| 0 <= i < 14 implies #[trigger] r@[i] == kind_at(i) by {
        if i == 0 {} else if i == 1 {} else if i == 2 {} else if i == 3 {} else if i == 4 {} else if i == 5 {}
        else if i == 6 {} else if i == 7 {} else if i == 8 {} else if i == 9 {} else if i == 10 {} else if i == 11 {}
        else if i == 12 {} else {}
    }
    r
}

/// Placing on the terrain layer keeps the other layers of every tile.
proof fn lemma_layer_others_kept(
    before: Map<(u32, u32), InstantiatedTile>,
    after: Map<(u32, u32), InstantiatedTile>,
    pos: (u32, u32),
    l: TileLayer,
    m: MappedCDDAId,
)
    requires
        placed_on(before, after, pos, l, m),
        l == TileLayer::Terrain,
    ensures
        forall|q: (u32, u32)| #[trigger] before.contains_key(q) ==> others_kept_at(before, after, q),
{
    assert forall|q: (u32, u32)| #[trigger] before.contains_key(q) implies others_kept_at(before, after, q) by {
        if q == pos {
            assert(tile_or_empty(before, pos) == before[pos]);
        }
    }
}

/// Whether some furniture placement of the map may land on `q`.
pub open spec fn furniture_landable(m: MapGen, q: (u32, u32)) -> bool {
    exists|i: int, x: int, y: int|
        #![trigger m.place.furniture@[i], place_tile(m, x, y)]
        0 <= i < m.place.furniture@.len() && in_range(m.place.furniture@[i].x, x) && in_range(m.place.furniture@[i].y, y)
            && place_tile(m, x, y) == q
}

/// Every tile is still there with the same monster and field, and the same
/// furniture where no furniture placement may land.
pub open spec fn layers_kept_off_places(
    m: MapGen,
    old: Map<(u32, u32), InstantiatedTile>,
    new: Map<(u32, u32), InstantiatedTile>,
) -> bool {
    forall|q: (u32, u32)| #[trigger]
        old.contains_key(q) ==> new.contains_key(q) && new[q].monster == old[q].monster && new[q].field == old[q].field && (
        !furniture_landable(m, q) ==> new[q].furniture == old[q].furniture)
}

/// Places a terrain identifier: `t_null` as it is, any other after
/// regional replacement.
fn place_terrain_id(
    ident: CDDAIdentifier,
    instantiation: &mut InstantiatedMapgen<ParametersCalculated>,
    position: MapgenCellCoordinates,
    d: &DeserializedCDDAJsonData,
) -> (r: Result<(), ApplyPropertyError>)
    requires
        regions_ok(*d),
    ensures
        final(instantiation).calculated_parameters == old(instantiation).calculated_parameters,
        tiles_step(old(instantiation).instantiated_tiles.map(), final(instantiation).instantiated_tiles.map(), position.0),
        r is Err <==> ident@ != crate::types::NULL_TERRAIN@ && region_unknown(*d, ident@),
        r is Err ==> final(instantiation).instantiated_tiles == old(instantiation).instantiated_tiles,
        forall|q: (u32, u32)| #[trigger] old(instantiation).instantiated_tiles.map().contains_key(q) ==> others_kept_at(
            old(instantiation).instantiated_tiles.map(),
            final(instantiation).instantiated_tiles.map(),
            q,
        ),
        r is Ok ==> exists|m: MappedCDDAId|
            #[trigger] placed_on(
                old(instantiation).instantiated_tiles.map(),
                final(instantiation).instantiated_tiles.map(),
                position.0,
                TileLayer::Terrain,
                m,
            ) && plain_tile(m, m.tilesheet_id.id@) && if ident@ == crate::types::NULL_TERRAIN@ {
                m.tilesheet_id.id@ == ident@
            } else {
                region_replaced(*d, ident@, m.tilesheet_id.id@)
            },
{
    let ghost before = instantiation.instantiated_tiles.map();
    let null = CDDAIdentifier::from_str(crate::types::NULL_TERRAIN);
    if ident.eq_id(&null) {
        let m = plain(ident);
        instantiation.place_terrain(position, m);
        proof {
            assert(placed_on(before, instantiation.instantiated_tiles.map(), position.0, TileLayer::Terrain, m));
            lemma_layer_others_kept(before, instantiation.instantiated_tiles.map(), position.0, TileLayer::Terrain, m);
        }
        return Ok(());
    }
    let replaced = d.replace_possible_region_settings(&ident)?;
    let m = plain(replaced);
    instantiation.place_terrain(position, m);
    proof {
        assert(placed_on(before, instantiation.instantiated_tiles.map(), position.0, TileLayer::Terrain, m));
        lemma_layer_others_kept(before, instantiation.instantiated_tiles.map(), position.0, TileLayer::Terrain, m);
    }
    Ok(())
}

proof fn lemma_step_keeps(
    start: Map<(u32, u32), InstantiatedTile>,
    before: Map<(u32, u32), InstantiatedTile>,
    after: Map<(u32, u32), InstantiatedTile>,
    pos: (u32, u32),
    tp: (u32, u32),
)
    requires
        keeps(start, before),
        tiles_step(before, after, pos),
        before.contains_key(tp),
    ensures
        keeps(start, after),
        after.contains_key(tp),
        before[tp].terrain is Some ==> after[tp].terrain is Some,
{
    assert forall|q: (u32, u32)| #[trigger] start.contains_key(q) implies after.contains_key(q) && (start[q].terrain is Some
        ==> after[q].terrain is Some) by {
        assert(before.contains_key(q));
        if q != pos {
            assert(after.contains_key(q) <==> before.contains_key(q));
            assert(after[q] == before[q]);
        }
    }
    if tp != pos {
        assert(after.contains_key(tp) <==> before.contains_key(tp));
        assert(after[tp] == before[tp]);
    }
}

/// The tile at `q` is still there, with the same furniture, monster and
/// field.
pub open spec fn others_kept_at(
    old: Map<(u32, u32), InstantiatedTile>,
    new: Map<(u32, u32), InstantiatedTile>,
    q: (u32, u32),
) -> bool {
    new.contains_key(q) && new[q].furniture == old[q].furniture && new[q].monster == old[q].monster && new[q].field
        == old[q].field
}

proof fn lemma_kind_at_order(i: int)
    requires
        0 <= i < 14,
    ensures
        kind_order(kind_at(i)) == i,
{
}

proof fn lemma_kind_order_bounds(k: MappingKind)
    ensures
        0 <= kind_order(k) < 14,
{
}

/// One step of placing the mappings of a cell keeps what the steps before
/// settled on the other layers, and settles the layer of the kind placed.
proof fn lemma_cell_step(
    m: MapGen,
    d: DeserializedCDDAJsonData,
    extra: KeyedMap<ParameterIdentifier, Parameter>,
    c: char,
    params: Seq<(Seq<char>, Seq<char>)>,
    k: int,
    kind: MappingKind,
    start: Map<(u32, u32), InstantiatedTile>,
    before: Map<(u32, u32), InstantiatedTile>,
    after: Map<(u32, u32), InstantiatedTile>,
    cpos: (u32, u32),
    found: Option<MapProperties>,
    fuel: nat,
)
    requires
        0 <= k < 14,
        kind == kind_at(k),
        forall|q: (u32, u32)| q != cpos && #[trigger] start.contains_key(q) ==> others_kept_at(start, before, q),
        forall|kk: MappingKind|
            kind_order(kk) < k && layer_of(kk) is Some && !may_miss_mapping(
                m.common.properties,
                m.common.palettes@,
                d,
                params,
                kk,
                c,
            ) && !found_after_on_layer(m, d, extra, kk, c, k) ==> #[trigger] kind_landed(m, d, extra, kk, c, params, before, cpos),
        match found {
            Some(p) => may_find(m.common.properties, m.common.palettes@, d, extra, kind, c, fuel, p) && kind_result(
                p,
                kind,
                c,
                params,
                d,
                before,
                after,
                cpos,
            ) && tiles_step(before, after, cpos),
            None => after == before && may_miss_mapping(m.common.properties, m.common.palettes@, d, params, kind, c),
        },
    ensures
        forall|q: (u32, u32)| q != cpos && #[trigger] start.contains_key(q) ==> others_kept_at(start, after, q),
        forall|kk: MappingKind|
            kind_order(kk) < k + 1 && layer_of(kk) is Some && !may_miss_mapping(
                m.common.properties,
                m.common.palettes@,
                d,
                params,
                kk,
                c,
            ) && !found_after_on_layer(m, d, extra, kk, c, k + 1) ==> #[trigger] kind_landed(m, d, extra, kk, c, params, after, cpos),
{
    lemma_kind_at_order(k);
    assert forall|q: (u32, u32)| q != cpos && #[trigger] start.contains_key(q) implies others_kept_at(start, after, q) by {
        assert(others_kept_at(start, before, q));
        if found is Some {
            assert(after.contains_key(q) <==> before.contains_key(q));
            assert(after[q] == before[q]);
        }
    }
    assert forall|kk: MappingKind|
        kind_order(kk) < k + 1 && layer_of(kk) is Some && !may_miss_mapping(
            m.common.properties,
            m.common.palettes@,
            d,
            params,
            kk,
            c,
        ) && !found_after_on_layer(m, d, extra, kk, c, k + 1) implies #[trigger] kind_landed(m, d, extra, kk, c, params, after, cpos) by {
        if kk == kind {
            let p = found->0;
            assert(may_find(m.common.properties, m.common.palettes@, d, extra, kind, c, fuel, p));
            let l = layer_of(kind)->0;
            if after == before && kind_may_skip(p, kind, c, params) {
            } else {
                let mm = choose|mm: MappedCDDAId| #[trigger] placed_on(before, after, cpos, l, mm) && kind_places(p, kind, c, params, d, mm);
                assert(after.contains_key(cpos));
                assert(layer_value(after[cpos], l) == Some(mm));
            }
        } else {
            assert(kind_order(kk) != k) by {
                if kind_order(kk) == k {
                    lemma_kind_order_bounds(kk);
                    assert(kind_at(kind_order(kk)) == kk);
                }
            }
            assert(!found_after_on_layer(m, d, extra, kk, c, k));
            assert(kind_landed(m, d, extra, kk, c, params, before, cpos));
            if let Some(p) = found {
                assert(may_find(m.common.properties, m.common.palettes@, d, extra, kind, c, fuel, p));
                assert(may_be_found(m, d, extra, kind, c));
                if layer_of(kind) == layer_of(kk) {
                    assert(found_after_on_layer(m, d, extra, kk, c, k + 1));
                }
                if layer_of(kind) is Some && !(after == before) {
                    let l = layer_of(kind)->0;
                    let mm = choose|mm: MappedCDDAId| #[trigger] placed_on(before, after, cpos, l, mm) && kind_places(p, kind, c, params, d, mm);
                    let (p2, f2) = choose|p2: MapProperties, f2: nat|
                        #[trigger] may_find(m.common.properties, m.common.palettes@, d, extra, kk, c, f2, p2) && ((before.contains_key(cpos)
                            && (layer_value(before[cpos], layer_of(kk)->0) matches Some(v) && kind_places(p2, kk, c, params, d, v)))
                            || kind_may_skip(p2, kk, c, params));
                    assert(may_find(m.common.properties, m.common.palettes@, d, extra, kk, c, f2, p2));
                    if before.contains_key(cpos) {
                        assert(layer_value(after[cpos], layer_of(kk)->0) == layer_value(before[cpos], layer_of(kk)->0));
                    }
                }
            }
        }
    }
}

impl MapGen {
    /// Fills the tile of one cell (turned with the map) with the fill
    /// terrain where it has none, then places each kind of mapping that the
    /// cell's character has, at the cell's position.
    fn instantiate_cell(
        &self,
        pos: (u32, u32),
        character: char,
        fill: &Option<MappedCDDAId>,
        instantiation: &mut InstantiatedMapgen<ParametersCalculated>,
        d: &DeserializedCDDAJsonData,
        Ghost(extra): Ghost<KeyedMap<ParameterIdentifier, Parameter>>,
        Ghost(lfuel): Ghost<nat>,
    ) -> (r: Result<(), GetMappedCDDAIdsError>)
        requires
            transform_defined(self.rotation, self.map_size, pos),
            data_ok(*d, extra),
            props_ok(self.common.properties),
            lookups_end(self.common.palettes@, *d, extra, lfuel),
            params_within(params_view(old(instantiation).calculated_parameters.0), *d, extra),
        ensures
            final(instantiation).calculated_parameters == old(instantiation).calculated_parameters,
            keeps(old(instantiation).instantiated_tiles.map(), final(instantiation).instantiated_tiles.map()),
            r is Ok ==> final(instantiation).instantiated_tiles.map().contains_key(cell_tile(*self, pos)) && (fill is Some
                ==> final(instantiation).instantiated_tiles.map()[cell_tile(*self, pos)].terrain is Some),
            r matches Err(e) ==> e is Property,
            r is Err ==> cell_may_fail(*self, character, params_view(old(instantiation).calculated_parameters.0), *d, extra),
            forall|q: (u32, u32)|
                q != cell_pos(pos) && #[trigger] old(instantiation).instantiated_tiles.map().contains_key(q) && old(instantiation).instantiated_tiles.map()[q].terrain is Some ==> final(instantiation).instantiated_tiles.map().contains_key(q)
                    && final(instantiation).instantiated_tiles.map()[q].terrain == old(instantiation).instantiated_tiles.map()[q].terrain,
            r is Ok && has_mapping(self.common.properties, MappingKind::Terrain, character) ==> final(instantiation).instantiated_tiles.map().contains_key(cell_pos(pos)) && mapped_terrain_at(
                *self,
                character,
                final(instantiation).instantiated_tiles.map()[cell_pos(pos)],
                params_view(old(instantiation).calculated_parameters.0),
                *d,
            ),
            r is Ok ==> forall|kk: MappingKind|
                kind_settles(*self, *d, extra, kk, character, params_view(old(instantiation).calculated_parameters.0))
                    ==> #[trigger] kind_landed(
                    *self,
                    *d,
                    extra,
                    kk,
                    character,
                    params_view(old(instantiation).calculated_parameters.0),
                    final(instantiation).instantiated_tiles.map(),
                    cell_pos(pos),
                ),
            forall|q: (u32, u32)|
                q != cell_pos(pos) && #[trigger] old(instantiation).instantiated_tiles.map().contains_key(q) ==> others_kept_at(
                    old(instantiation).instantiated_tiles.map(),
                    final(instantiation).instantiated_tiles.map(),
                    q,
                ),
    {
        let ghost start = instantiation.instantiated_tiles.map();
        let tp = MapgenCellCoordinates::from(self.transform_coordinates(pos));
        let existing = instantiation.instantiated_tiles.remove(&tp);
        let tile = match existing {
            None => {
                let mut t = InstantiatedTile::default();
                t.terrain = clone_opt_mapped(fill);
                t
            },
            Some(t) => {
                let mut t = t;
                if t.terrain.is_none() {
                    t.terrain = clone_opt_mapped(fill);
                }
                t
            },
        };
        instantiation.instantiated_tiles.insert(tp, tile);
        proof {
            assert(tp.0 == cell_tile(*self, pos));
        }
        let ghost filled = instantiation.instantiated_tiles.map();
        proof {
            assert forall|q: (u32, u32)| #[trigger] start.contains_key(q) && start[q].terrain is Some implies filled.contains_key(q)
                && filled[q].terrain == start[q].terrain by {
                if q == tp.0 {
                    assert(existing == Some(start[q]));
                }
            }
        }
        proof {
            assert forall|q: (u32, u32)| #[trigger] start.contains_key(q) implies others_kept_at(start, filled, q) by {
                if q == tp.0 {
                    assert(existing == Some(start[q]));
                }
            }
        }
        let kinds = mapping_kinds();
        let mut k: usize = 0;
        while k < kinds.len()
            invariant
                k <= kinds@.len(),
                kinds@.len() == 14,
                forall|i: int| 0 <= i < 14 ==> #[trigger] kinds@[i] == kind_at(i),
                forall|q: (u32, u32)|
                    q != cell_pos(pos) && #[trigger] start.contains_key(q) ==> others_kept_at(
                        start,
                        instantiation.instantiated_tiles.map(),
                        q,
                    ),
                forall|kk: MappingKind|
                    kind_order(kk) < k && layer_of(kk) is Some && !may_miss_mapping(
                        self.common.properties,
                        self.common.palettes@,
                        *d,
                        params_view(old(instantiation).calculated_parameters.0),
                        kk,
                        character,
                    ) && !found_after_on_layer(*self, *d, extra, kk, character, k as int) ==> #[trigger] kind_landed(
                        *self,
                        *d,
                        extra,
                        kk,
                        character,
                        params_view(old(instantiation).calculated_parameters.0),
                        instantiation.instantiated_tiles.map(),
                        cell_pos(pos),
                    ),
                data_ok(*d, extra),
                props_ok(self.common.properties),
                lookups_end(self.common.palettes@, *d, extra, lfuel),
                params_within(params_view(instantiation.calculated_parameters.0), *d, extra),
                instantiation.calculated_parameters == old(instantiation).calculated_parameters,
                start == old(instantiation).instantiated_tiles.map(),
                keeps(start, instantiation.instantiated_tiles.map()),
                instantiation.instantiated_tiles.map().contains_key(tp.0),
                fill is Some ==> instantiation.instantiated_tiles.map()[tp.0].terrain is Some,
                kinds@ == seq![
                    MappingKind::Terrain,
                    MappingKind::Furniture,
                    MappingKind::Trap,
                    MappingKind::ItemGroups,
                    MappingKind::Computer,
                    MappingKind::Sign,
                    MappingKind::Toilet,
                    MappingKind::Gaspump,
                    MappingKind::Monsters,
                    MappingKind::Monster,
                    MappingKind::Field,
                    MappingKind::Nested,
                    MappingKind::Vehicle,
                    MappingKind::Corpse,
                ],
                forall|q: (u32, u32)| #[trigger]
                    start.contains_key(q) && start[q].terrain is Some ==> filled.contains_key(q) && filled[q].terrain
                        == start[q].terrain,
                forall|q: (u32, u32)|
                    q != cell_pos(pos) && #[trigger] filled.contains_key(q) && filled[q].terrain is Some
                        ==> instantiation.instantiated_tiles.map().contains_key(q)
                        && instantiation.instantiated_tiles.map()[q].terrain == filled[q].terrain,
                k > 0 && has_mapping(self.common.properties, MappingKind::Terrain, character) ==> instantiation.instantiated_tiles.map().contains_key(
                    cell_pos(pos),
                ) && mapped_terrain_at(
                    *self,
                    character,
                    instantiation.instantiated_tiles.map()[cell_pos(pos)],
                    params_view(old(instantiation).calculated_parameters.0),
                    *d,
                ),
            decreases kinds@.len() - k,
        {
            let kind = kinds[k];
            let ghost at_step = instantiation.instantiated_tiles.map();
            let found = get_random_property_from_character_recursive(
                &self.common.properties,
                &self.common.palettes,
                d,
                &instantiation.calculated_parameters.0,
                kind,
                character,
                Ghost(extra),
                Ghost(lfuel),
            );
            match found {
                Some(p) => {
                    proof {
                        lemma_found_in(props_of(*self), self.common.palettes@, *d, extra, kind, character, lfuel, *p);
                    }
                    let ghost before = instantiation.instantiated_tiles.map();
                    let mpos = MapgenCellCoordinates::from(pos);
                    let applied = apply_mapping(p, kind, character, instantiation, mpos, d);
                    proof {
                        lemma_step_keeps(start, before, instantiation.instantiated_tiles.map(), mpos.0, tp.0);
                        assert(mpos.0 == cell_pos(pos));
                        if k == 0 && has_mapping(props_of(*self), MappingKind::Terrain, character) {
                            assert(kind == MappingKind::Terrain);
                            assert(*p == props_of(*self));
                        }
                        if k > 0 {
                            assert(kind != MappingKind::Terrain);
                        }
                    }
                    match applied {
                        Ok(()) => {
                            proof {
                                lemma_cell_step(
                                    *self,
                                    *d,
                                    extra,
                                    character,
                                    params_view(old(instantiation).calculated_parameters.0),
                                    k as int,
                                    kind,
                                    start,
                                    at_step,
                                    instantiation.instantiated_tiles.map(),
                                    cell_pos(pos),
                                    Some(*p),
                                    lfuel,
                                );
                            }
                        },
                        Err(e) => {
                            proof {
                                assert(may_find(
                                    self.common.properties,
                                    self.common.palettes@,
                                    *d,
                                    extra,
                                    kind,
                                    character,
                                    lfuel,
                                    *p,
                                ));
                            }
                            proof {
                                let now = instantiation.instantiated_tiles.map();
                                assert forall|q: (u32, u32)|
                                    q != cell_pos(pos) && #[trigger] start.contains_key(q) && start[q].terrain is Some implies now.contains_key(
                                    q,
                                ) && now[q].terrain == start[q].terrain by {
                                    assert(filled.contains_key(q) && filled[q].terrain == start[q].terrain);
                                    assert(before.contains_key(q) && before[q].terrain == filled[q].terrain);
                                    assert(q != mpos.0);
                                }
                            }
                            return Err(GetMappedCDDAIdsError::Property(e));
                        },
                    }
                },
                None => {
                    proof {
                        lemma_cell_step(
                            *self,
                            *d,
                            extra,
                            character,
                            params_view(old(instantiation).calculated_parameters.0),
                            k as int,
                            kind,
                            start,
                            at_step,
                            instantiation.instantiated_tiles.map(),
                            cell_pos(pos),
                            None,
                            lfuel,
                        );
                    }
                },
            }
            k = k + 1;
        }
        proof {
            assert forall|kk: MappingKind|
                kind_settles(*self, *d, extra, kk, character, params_view(old(instantiation).calculated_parameters.0))
                    implies #[trigger] kind_landed(
                    *self,
                    *d,
                    extra,
                    kk,
                    character,
                    params_view(old(instantiation).calculated_parameters.0),
                    instantiation.instantiated_tiles.map(),
                    cell_pos(pos),
                ) by {
                lemma_kind_order_bounds(kk);
            }
        }
        Ok(())
    }
}

proof fn lemma_keeps_step(
    start: Map<(u32, u32), InstantiatedTile>,
    before: Map<(u32, u32), InstantiatedTile>,
    after: Map<(u32, u32), InstantiatedTile>,
    pos: (u32, u32),
)
    requires
        keeps(start, before),
        tiles_step(before, after, pos),
    ensures
        keeps(start, after),
{
    assert forall|q: (u32, u32)| #[trigger] start.contains_key(q) implies after.contains_key(q) && (start[q].terrain is Some
        ==> after[q].terrain is Some) by {
        assert(before.contains_key(q));
        if q != pos {
            assert(after.contains_key(q) <==> before.contains_key(q));
            assert(after[q] == before[q]);
        }
    }
}

/// The parameters that a map may calculate are among `any_choices`.
pub open spec fn own_covered(m: MapGen, d: DeserializedCDDAJsonData, extra: KeyedMap<ParameterIdentifier, Parameter>) -> bool {
    forall|n: Seq<char>, s: Seq<char>|
        #[trigger] param_choices(d.palettes.map(), m.common.parameters, n).contains(s) ==> any_choices(d, extra, n).contains(
            s,
        )
}

fn first_builtin(mapgen: &Option<Vec<crate::game_data::OvermapTerrainMapgen>>) -> (r: Option<&CDDAIdentifier>)
    ensures
        match r {
            Some(b) => mapgen is Some && mapgen->0@.len() > 0 && *b == mapgen->0@[0].builtin,
            None => !(mapgen is Some && mapgen->0@.len() > 0),
        },
{
    match mapgen {
        Some(v) => if v.len() > 0 {
            Some(&v[0].builtin)
        } else {
            None
        },
        None => None,
    }
}

/// Where a placement drawn at `(x, y)` lands in the map: turned with the
/// map, then clamped into the cells.
pub open spec fn place_tile(m: MapGen, x: int, y: int) -> (u32, u32) {
    let t = spec_transform(m.rotation, m.map_size, (x as u32, y as u32));
    (clamp_cell(t.0 as u32), clamp_cell(t.1 as u32))
}

/// A terrain placement that always places: it repeats at least once, its
/// chance is at least 100, and it names a terrain that placing does not
/// refuse.
pub open spec fn terrain_place_certain(p: PlaceOuter<Arc<PlaceInnerTerrain>>, d: DeserializedCDDAJsonData) -> bool {
    &&& p.repeat.spec_bounds().0 >= 1
    &&& p.chance >= 100
    &&& p.inner.terrain_id matches DistributionInner::Normal(n) && (n@ == crate::types::NULL_TERRAIN@ || !region_unknown(
        d,
        n@,
    ))
}

/// A furniture placement that always places: it repeats at least once, its
/// chance is at least 100, and it names a furniture other than `f_null`.
pub open spec fn furniture_place_certain(p: PlaceOuter<Arc<PlaceInnerFurniture>>) -> bool {
    &&& p.repeat.spec_bounds().0 >= 1
    &&& p.chance >= 100
    &&& p.inner.furniture_id matches DistributionInner::Normal(n) && n@ != NULL_FURNITURE@
}

/// Whether some terrain placement of the map may land on `q`.
pub open spec fn terrain_landable(m: MapGen, q: (u32, u32)) -> bool {
    exists|i: int, x: int, y: int|
        #![trigger m.place.terrain@[i], place_tile(m, x, y)]
        0 <= i < m.place.terrain@.len() && in_range(m.place.terrain@[i].x, x) && in_range(m.place.terrain@[i].y, y)
            && place_tile(m, x, y) == q
}

/// The terrain of every tile that no terrain placement may land on is kept.
pub open spec fn terrain_kept_off_places(
    m: MapGen,
    old: Map<(u32, u32), InstantiatedTile>,
    new: Map<(u32, u32), InstantiatedTile>,
) -> bool {
    forall|q: (u32, u32)| #[trigger]
        old.contains_key(q) && !terrain_landable(m, q) ==> new.contains_key(q) && new[q].terrain == old[q].terrain
}

/// Some position that the placement may draw holds a terrain.
pub open spec fn terrain_placed(
    tiles: Map<(u32, u32), InstantiatedTile>,
    m: MapGen,
    p: PlaceOuter<Arc<PlaceInnerTerrain>>,
) -> bool {
    exists|x: int, y: int|
        in_range(p.x, x) && in_range(p.y, y) && #[trigger] tiles.contains_key(place_tile(m, x, y)) && tiles[place_tile(
            m,
            x,
            y,
        )].terrain is Some
}

/// Some position that the placement may draw holds a furniture.
pub open spec fn furniture_placed(
    tiles: Map<(u32, u32), InstantiatedTile>,
    m: MapGen,
    p: PlaceOuter<Arc<PlaceInnerFurniture>>,
) -> bool {
    exists|x: int, y: int|
        in_range(p.x, x) && in_range(p.y, y) && #[trigger] tiles.contains_key(place_tile(m, x, y)) && tiles[place_tile(
            m,
            x,
            y,
        )].furniture is Some
}

/// No tile with a furniture lost it.
pub open spec fn furniture_keeps(old: Map<(u32, u32), InstantiatedTile>, new: Map<(u32, u32), InstantiatedTile>) -> bool {
    forall|q: (u32, u32)| #[trigger]
        old.contains_key(q) && old[q].furniture is Some ==> new.contains_key(q) && new[q].furniture is Some
}

proof fn lemma_terrain_kept_all(
    a: Map<(u32, u32), InstantiatedTile>,
    b: Map<(u32, u32), InstantiatedTile>,
    m: MapGen,
    p: PlaceOuter<Arc<PlaceInnerTerrain>>,
)
    requires
        keeps(a, b),
        terrain_placed(a, m, p),
    ensures
        terrain_placed(b, m, p),
{
    let (x, y) = choose|x: int, y: int|
        in_range(p.x, x) && in_range(p.y, y) && #[trigger] a.contains_key(place_tile(m, x, y)) && a[place_tile(
            m,
            x,
            y,
        )].terrain is Some;
    assert(b.contains_key(place_tile(m, x, y)));
}

proof fn lemma_terrain_kept(
    a: Map<(u32, u32), InstantiatedTile>,
    b: Map<(u32, u32), InstantiatedTile>,
    m: MapGen,
    p: PlaceOuter<Arc<PlaceInnerTerrain>>,
    pos: (u32, u32),
)
    requires
        tiles_step(a, b, pos),
        terrain_placed(a, m, p),
    ensures
        terrain_placed(b, m, p),
{
    let (x, y) = choose|x: int, y: int|
        in_range(p.x, x) && in_range(p.y, y) && #[trigger] a.contains_key(place_tile(m, x, y)) && a[place_tile(
            m,
            x,
            y,
        )].terrain is Some;
    let q = place_tile(m, x, y);
    if q != pos {
        assert(b.contains_key(q));
    }
    assert(b.contains_key(q));
}

proof fn lemma_furniture_step(
    a: Map<(u32, u32), InstantiatedTile>,
    before: Map<(u32, u32), InstantiatedTile>,
    after: Map<(u32, u32), InstantiatedTile>,
    pos: (u32, u32),
)
    requires
        furniture_keeps(a, before),
        after.contains_key(pos) && after[pos].furniture is Some,
        forall|q: (u32, u32)| q != pos ==> (#[trigger] after.contains_key(q) <==> before.contains_key(q)),
        forall|q: (u32, u32)| q != pos && #[trigger] after.contains_key(q) ==> after[q] == before[q],
    ensures
        furniture_keeps(a, after),
{
}

proof fn lemma_furniture_kept(
    a: Map<(u32, u32), InstantiatedTile>,
    b: Map<(u32, u32), InstantiatedTile>,
    m: MapGen,
    p: PlaceOuter<Arc<PlaceInnerFurniture>>,
)
    requires
        furniture_keeps(a, b),
        furniture_placed(a, m, p),
    ensures
        furniture_placed(b, m, p),
{
    let (x, y) = choose|x: int, y: int|
        in_range(p.x, x) && in_range(p.y, y) && #[trigger] a.contains_key(place_tile(m, x, y)) && a[place_tile(
            m,
            x,
            y,
        )].furniture is Some;
    assert(b.contains_key(place_tile(m, x, y)));
}

impl MapGen {
    /// Places the terrain and furniture placements of the map: each is
    /// repeated as often as a draw from its repeat gives, at a position
    /// drawn from its ranges and turned with the map, when a draw of
    /// `0..=100` does not exceed its chance; a placement that fails is
    /// skipped.
    fn apply_places(&self, instantiation: &mut InstantiatedMapgen<ParametersCalculated>, d: &DeserializedCDDAJsonData)
        requires
            map_ok(*self, *d),
            regions_ok(*d),
        ensures
            final(instantiation).calculated_parameters == old(instantiation).calculated_parameters,
            keeps(old(instantiation).instantiated_tiles.map(), final(instantiation).instantiated_tiles.map()),
            forall|i: int|
                0 <= i < self.place.terrain@.len() && terrain_place_certain(#[trigger] self.place.terrain@[i], *d)
                    ==> terrain_placed(final(instantiation).instantiated_tiles.map(), *self, self.place.terrain@[i]),
            forall|j: int|
                0 <= j < self.place.furniture@.len() && furniture_place_certain(#[trigger] self.place.furniture@[j])
                    ==> furniture_placed(final(instantiation).instantiated_tiles.map(), *self, self.place.furniture@[j]),
            terrain_kept_off_places(*self, old(instantiation).instantiated_tiles.map(), final(instantiation).instantiated_tiles.map()),
            layers_kept_off_places(*self, old(instantiation).instantiated_tiles.map(), final(instantiation).instantiated_tiles.map()),
    {
        let ghost start = instantiation.instantiated_tiles.map();
        let mut i: usize = 0;
        while i < self.place.terrain.len()
            invariant
                i <= self.place.terrain@.len(),
                map_ok(*self, *d),
                regions_ok(*d),
                instantiation.calculated_parameters == old(instantiation).calculated_parameters,
                start == old(instantiation).instantiated_tiles.map(),
                keeps(start, instantiation.instantiated_tiles.map()),
                terrain_kept_off_places(*self, start, instantiation.instantiated_tiles.map()),
                layers_kept_off_places(*self, start, instantiation.instantiated_tiles.map()),
                forall|i2: int|
                    0 <= i2 < i && terrain_place_certain(#[trigger] self.place.terrain@[i2], *d) ==> terrain_placed(
                        instantiation.instantiated_tiles.map(),
                        *self,
                        self.place.terrain@[i2],
                    ),
            decreases self.place.terrain@.len() - i,
        {
            let place = &self.place.terrain[i];
            proof {
                assert(place_ok(self.place.terrain@[i as int], *self));
            }
            let ghost at_outer = instantiation.instantiated_tiles.map();
            let upper = place.repeat.rand_number();
            let mut k: i32 = 0;
            while k < upper
                invariant
                    place_ok(*place, *self),
                    *place == self.place.terrain@[i as int],
                    i < self.place.terrain@.len(),
                    regions_ok(*d),
                    instantiation.calculated_parameters == old(instantiation).calculated_parameters,
                    start == old(instantiation).instantiated_tiles.map(),
                    keeps(start, instantiation.instantiated_tiles.map()),
                terrain_kept_off_places(*self, start, instantiation.instantiated_tiles.map()),
                layers_kept_off_places(*self, start, instantiation.instantiated_tiles.map()),
                    keeps(at_outer, instantiation.instantiated_tiles.map()),
                    k > 0 && terrain_place_certain(*place, *d) ==> terrain_placed(
                        instantiation.instantiated_tiles.map(),
                        *self,
                        *place,
                    ),
                decreases upper - k,
            {
                let x = place.x.rand_number();
                let y = place.y.rand_number();
                proof {
                    assert(in_range(place.x, x as int) && in_range(place.y, y as int));
                }
                let tpos = self.transform_coordinates((x as u32, y as u32));
                let roll = random_range_inclusive_i32(0, 100);
                let ghost now = instantiation.instantiated_tiles.map();
                if roll <= place.chance {
                    match resolve_distribution(&place.inner.terrain_id, &instantiation.calculated_parameters.0) {
                        Ok(id) => {
                            let ghost before = instantiation.instantiated_tiles.map();
                            let mpos = MapgenCellCoordinates::from(tpos);
                            let res = place_terrain_id(id, instantiation, mpos, d);
                            proof {
                                lemma_keeps_step(start, before, instantiation.instantiated_tiles.map(), mpos.0);
                                lemma_keeps_step(at_outer, before, instantiation.instantiated_tiles.map(), mpos.0);
                                assert forall|q: (u32, u32)| #[trigger] start.contains_key(q) implies instantiation.instantiated_tiles.map().contains_key(
                                    q,
                                ) && instantiation.instantiated_tiles.map()[q].monster == start[q].monster
                                    && instantiation.instantiated_tiles.map()[q].field == start[q].field && (!furniture_landable(*self, q)
                                    ==> instantiation.instantiated_tiles.map()[q].furniture == start[q].furniture) by {
                                    assert(before.contains_key(q));
                                    assert(others_kept_at(before, instantiation.instantiated_tiles.map(), q));
                                }
                                assert(mpos.0 == place_tile(*self, x as int, y as int));
                                assert forall|q: (u32, u32)| #[trigger]
                                    start.contains_key(q) && !terrain_landable(*self, q) implies instantiation.instantiated_tiles.map().contains_key(
                                    q,
                                ) && instantiation.instantiated_tiles.map()[q].terrain == start[q].terrain by {
                                    if q == mpos.0 {
                                        assert(self.place.terrain@[i as int] == *place);
                                        assert(in_range(self.place.terrain@[i as int].x, x as int));
                                        assert(in_range(self.place.terrain@[i as int].y, y as int));
                                        assert(place_tile(*self, x as int, y as int) == q);
                                        assert(terrain_landable(*self, q));
                                    }
                                }
                                if res is Ok {
                                    assert(mpos.0 == place_tile(*self, x as int, y as int));
                                    assert(instantiation.instantiated_tiles.map().contains_key(mpos.0));
                                    assert(terrain_placed(instantiation.instantiated_tiles.map(), *self, *place));
                                }
                                if k > 0 && terrain_place_certain(*place, *d) {
                                    lemma_terrain_kept(before, instantiation.instantiated_tiles.map(), *self, *place, mpos.0);
                                }
                            }
                        },
                        Err(_) => {},
                    }
                }
                proof {
                    if terrain_place_certain(*place, *d) {
                        assert(roll <= place.chance);
                    }
                }
                k = k + 1;
            }
            proof {
                assert forall|i2: int|
                    0 <= i2 < i + 1 && terrain_place_certain(#[trigger] self.place.terrain@[i2], *d) implies terrain_placed(
                    instantiation.instantiated_tiles.map(),
                    *self,
                    self.place.terrain@[i2],
                ) by {
                    if i2 < i {
                        lemma_terrain_kept_all(at_outer, instantiation.instantiated_tiles.map(), *self, self.place.terrain@[i2]);
                    }
                }
            }
            i = i + 1;
        }
        let ghost after_terrain = instantiation.instantiated_tiles.map();
        let mut j: usize = 0;
        while j < self.place.furniture.len()
            invariant
                j <= self.place.furniture@.len(),
                map_ok(*self, *d),
                instantiation.calculated_parameters == old(instantiation).calculated_parameters,
                start == old(instantiation).instantiated_tiles.map(),
                keeps(start, instantiation.instantiated_tiles.map()),
                terrain_kept_off_places(*self, start, instantiation.instantiated_tiles.map()),
                layers_kept_off_places(*self, start, instantiation.instantiated_tiles.map()),
                keeps(after_terrain, instantiation.instantiated_tiles.map()),
                forall|i2: int|
                    0 <= i2 < self.place.terrain@.len() && terrain_place_certain(#[trigger] self.place.terrain@[i2], *d)
                        ==> terrain_placed(after_terrain, *self, self.place.terrain@[i2]),
                forall|j2: int|
                    0 <= j2 < j && furniture_place_certain(#[trigger] self.place.furniture@[j2]) ==> furniture_placed(
                        instantiation.instantiated_tiles.map(),
                        *self,
                        self.place.furniture@[j2],
                    ),
            decreases self.place.furniture@.len() - j,
        {
            let place = &self.place.furniture[j];
            proof {
                assert(place_ok(self.place.furniture@[j as int], *self));
            }
            let ghost at_outer = instantiation.instantiated_tiles.map();
            let upper = place.repeat.rand_number();
            let mut k: i32 = 0;
            while k < upper
                invariant
                    place_ok(*place, *self),
                    *place == self.place.furniture@[j as int],
                    j < self.place.furniture@.len(),
                    instantiation.calculated_parameters == old(instantiation).calculated_parameters,
                    start == old(instantiation).instantiated_tiles.map(),
                    keeps(start, instantiation.instantiated_tiles.map()),
                terrain_kept_off_places(*self, start, instantiation.instantiated_tiles.map()),
                layers_kept_off_places(*self, start, instantiation.instantiated_tiles.map()),
                    keeps(after_terrain, instantiation.instantiated_tiles.map()),
                    furniture_keeps(at_outer, instantiation.instantiated_tiles.map()),
                    k > 0 && furniture_place_certain(*place) ==> furniture_placed(
                        instantiation.instantiated_tiles.map(),
                        *self,
                        *place,
                    ),
                decreases upper - k,
            {
                let x = place.x.rand_number();
                let y = place.y.rand_number();
                proof {
                    assert(in_range(place.x, x as int) && in_range(place.y, y as int));
                }
                let tpos = self.transform_coordinates((x as u32, y as u32));
                let roll = random_range_inclusive_i32(0, 100);
                if roll <= place.chance {
                    match resolve_distribution(&place.inner.furniture_id, &instantiation.calculated_parameters.0) {
                        Ok(id) => {
                            if !id.eq_id(&CDDAIdentifier::from_str(NULL_FURNITURE)) {
                                let ghost before = instantiation.instantiated_tiles.map();
                                let mpos = MapgenCellCoordinates::from(tpos);
                                instantiation.place_furniture(mpos, MappedCDDAId::simple(TilesheetCDDAId::simple(id)));
                                proof {
                                    lemma_keeps_step(start, before, instantiation.instantiated_tiles.map(), mpos.0);
                                    lemma_keeps_step(after_terrain, before, instantiation.instantiated_tiles.map(), mpos.0);
                                    assert(mpos.0 == place_tile(*self, x as int, y as int));
                                    assert forall|q: (u32, u32)| #[trigger] start.contains_key(q) implies instantiation.instantiated_tiles.map().contains_key(
                                        q,
                                    ) && instantiation.instantiated_tiles.map()[q].monster == start[q].monster
                                        && instantiation.instantiated_tiles.map()[q].field == start[q].field && (!furniture_landable(*self, q)
                                        ==> instantiation.instantiated_tiles.map()[q].furniture == start[q].furniture) by {
                                        assert(before.contains_key(q));
                                        if q == mpos.0 {
                                            assert(tile_or_empty(before, q) == before[q]);
                                            assert(self.place.furniture@[j as int] == *place);
                                            assert(in_range(self.place.furniture@[j as int].x, x as int));
                                            assert(in_range(self.place.furniture@[j as int].y, y as int));
                                            assert(place_tile(*self, x as int, y as int) == q);
                                            assert(furniture_landable(*self, q));
                                        }
                                    }
                                    assert(instantiation.instantiated_tiles.map().contains_key(mpos.0));
                                    assert(furniture_placed(instantiation.instantiated_tiles.map(), *self, *place));
                                    lemma_furniture_step(at_outer, before, instantiation.instantiated_tiles.map(), mpos.0);
                                    if k > 0 && furniture_place_certain(*place) {
                                        lemma_furniture_kept(before, instantiation.instantiated_tiles.map(), *self, *place);
                                    }
                                }
                            }
                        },
                        Err(_) => {},
                    }
                }
                proof {
                    if furniture_place_certain(*place) {
                        assert(roll <= place.chance);
                    }
                }
                k = k + 1;
            }
            proof {
                assert forall|j2: int|
                    0 <= j2 < j + 1 && furniture_place_certain(#[trigger] self.place.furniture@[j2]) implies furniture_placed(
                    instantiation.instantiated_tiles.map(),
                    *self,
                    self.place.furniture@[j2],
                ) by {
                    if j2 < j {
                        lemma_furniture_kept(at_outer, instantiation.instantiated_tiles.map(), *self, self.place.furniture@[j2]);
                    }
                }
            }
            j = j + 1;
        }
        proof {
            assert forall|i2: int|
                0 <= i2 < self.place.terrain@.len() && terrain_place_certain(#[trigger] self.place.terrain@[i2], *d) implies terrain_placed(
                instantiation.instantiated_tiles.map(),
                *self,
                self.place.terrain@[i2],
            ) by {
                lemma_terrain_kept_all(after_terrain, instantiation.instantiated_tiles.map(), *self, self.place.terrain@[i2]);
            }
        }
    }
}

proof fn lemma_params_within(
    params: Seq<(Seq<char>, Seq<char>)>,
    m: MapGen,
    d: DeserializedCDDAJsonData,
    extra: KeyedMap<ParameterIdentifier, Parameter>,
)
    requires
        params_from(params, d.palettes.map(), m.common.parameters),
        own_covered(m, d, extra),
    ensures
        params_within(params, d, extra),
{
    assert forall|i: int| 0 <= i < params.len() implies any_choices(d, extra, params[i].0).contains(#[trigger] params[i].1) by {
        assert(param_choices(d.palettes.map(), m.common.parameters, params[i].0).contains(params[i].1));
    }
}

/// A map of the game data calculates parameters among `any_choices`.
proof fn lemma_data_map_covered(d: DeserializedCDDAJsonData, extra: KeyedMap<ParameterIdentifier, Parameter>, k: Seq<char>)
    requires
        d.map_data.map().contains_key(k),
    ensures
        own_covered(d.map_data.map()[k], d, extra),
{
    let m = d.map_data.map()[k];
    assert forall|n: Seq<char>, s: Seq<char>| #[trigger]
        param_choices(d.palettes.map(), m.common.parameters, n).contains(s) implies any_choices(d, extra, n).contains(s) by {
        if m.common.parameters.map().contains_key(n) && dist_members(m.common.parameters.map()[n].default).contains(s) {
            assert(d.map_data.map().contains_key(k));
        } else {
            assert(param_choices(d.palettes.map(), extra, n).contains(s));
        }
    }
}

/// At the cell `p` inside the cells, the layer of each kind that settles
/// it (see `kind_settles`) holds what the mapping found for the cell's
/// character may place there, or that mapping may place nothing.
pub open spec fn cell_layers_landed(
    m: MapGen,
    p: (u32, u32),
    tiles: Map<(u32, u32), InstantiatedTile>,
    params: Seq<(Seq<char>, Seq<char>)>,
    d: DeserializedCDDAJsonData,
    extra: KeyedMap<ParameterIdentifier, Parameter>,
) -> bool {
    p.0 < 24 && p.1 < 24 ==> forall|k: MappingKind|
        kind_settles(m, d, extra, k, m.cells.map()[p].character, params) ==> #[trigger] kind_landed(
            m,
            d,
            extra,
            k,
            m.cells.map()[p].character,
            params,
            tiles,
            p,
        )
}

/// As `cell_layers_landed`, for the kinds whose layer no placement of the
/// map may reach at the cell: terrain placements the terrain, furniture
/// placements the furniture.
pub open spec fn cell_layers_landed_off_places(
    m: MapGen,
    p: (u32, u32),
    tiles: Map<(u32, u32), InstantiatedTile>,
    params: Seq<(Seq<char>, Seq<char>)>,
    d: DeserializedCDDAJsonData,
    extra: KeyedMap<ParameterIdentifier, Parameter>,
) -> bool {
    p.0 < 24 && p.1 < 24 ==> forall|k: MappingKind|
        kind_settles(m, d, extra, k, m.cells.map()[p].character, params) && !(layer_of(k) == Some(TileLayer::Terrain)
            && terrain_landable(m, p)) && !(layer_of(k) == Some(TileLayer::Furniture) && furniture_landable(m, p))
            ==> #[trigger] kind_landed(m, d, extra, k, m.cells.map()[p].character, params, tiles, p)
}

/// Every cell inside the cells holds, on the layer of each kind of mapping
/// that its character has (in the map or a palette), what that mapping may
/// place, or the mapping may place nothing; unless looking the mapping up
/// may end without one, a kind placed later on the same layer may be found,
/// or a placement of the map may land on that layer of the cell.
pub open spec fn mapped_layers_landed(
    m: MapGen,
    tiles: Map<(u32, u32), InstantiatedTile>,
    params: Seq<(Seq<char>, Seq<char>)>,
    d: DeserializedCDDAJsonData,
    extra: KeyedMap<ParameterIdentifier, Parameter>,
) -> bool {
    forall|p: (u32, u32)| #[trigger] m.cells.map().contains_key(p) ==> cell_layers_landed_off_places(m, p, tiles, params, d, extra)
}

/// What the layer of a kind held at `p` stays when the tile's value there
/// is kept.
proof fn lemma_landed_moves(
    m: MapGen,
    d: DeserializedCDDAJsonData,
    extra: KeyedMap<ParameterIdentifier, Parameter>,
    k: MappingKind,
    c: char,
    params: Seq<(Seq<char>, Seq<char>)>,
    before: Map<(u32, u32), InstantiatedTile>,
    after: Map<(u32, u32), InstantiatedTile>,
    p: (u32, u32),
)
    requires
        kind_landed(m, d, extra, k, c, params, before, p),
        before.contains_key(p) && layer_value(before[p], layer_of(k)->0) is Some ==> after.contains_key(p) && layer_value(
            after[p],
            layer_of(k)->0,
        ) == layer_value(before[p], layer_of(k)->0),
    ensures
        kind_landed(m, d, extra, k, c, params, after, p),
{
    let (p2, f2) = choose|p2: MapProperties, f2: nat|
        #[trigger] may_find(m.common.properties, m.common.palettes@, d, extra, k, c, f2, p2) && ((before.contains_key(p)
            && (layer_value(before[p], layer_of(k)->0) matches Some(v) && kind_places(p2, k, c, params, d, v)))
            || kind_may_skip(p2, k, c, params));
    assert(may_find(m.common.properties, m.common.palettes@, d, extra, k, c, f2, p2));
}

impl MapGen {
    fn instantiate_tiles_with(
        &self,
        instantiation: &mut InstantiatedMapgen<ParametersCalculated>,
        d: &DeserializedCDDAJsonData,
        Ghost(extra): Ghost<KeyedMap<ParameterIdentifier, Parameter>>,
        Ghost(fuel): Ghost<nat>,
    ) -> (r: Result<(), GetMappedCDDAIdsError>)
        requires
            map_ok(*self, *d),
            data_ok(*d, extra),
            exists|f: nat| lookups_end(self.common.palettes@, *d, extra, f),
            predecessors_end(*self, *d, fuel),
            chain_ok(*self, *d, extra, fuel),
            params_within(params_view(old(instantiation).calculated_parameters.0), *d, extra),
        ensures
            final(instantiation).calculated_parameters == old(instantiation).calculated_parameters,
            (r matches Err(GetMappedCDDAIdsError::MissingRegionSettings)) <==> default_region(*d) is None,
            r is Ok ==> cells_instantiated(*self, final(instantiation).instantiated_tiles.map()),
            r matches Err(GetMappedCDDAIdsError::MissingRegionSettings) ==> final(instantiation).instantiated_tiles
                == old(instantiation).instantiated_tiles,
            r is Ok ==> mapped_terrains_landed(
                *self,
                final(instantiation).instantiated_tiles.map(),
                params_view(old(instantiation).calculated_parameters.0),
                *d,
            ),
            r is Ok ==> mapped_layers_landed(
                *self,
                final(instantiation).instantiated_tiles.map(),
                params_view(old(instantiation).calculated_parameters.0),
                *d,
                extra,
            ),
            r matches Err(GetMappedCDDAIdsError::MissingOvermapTerrainForPredecessor(p)) ==> pred_missing_ot(
                *self,
                *d,
                fuel,
                p@,
            ),
            r matches Err(GetMappedCDDAIdsError::MissingMapgenEntryForPredecessor(p)) ==> pred_missing_map(
                *self,
                *d,
                fuel,
                p@,
            ),
            r matches Err(GetMappedCDDAIdsError::CalculateParameters(_)) ==> self.common.predecessor is Some,
            r matches Err(GetMappedCDDAIdsError::Property(_)) ==> self.common.predecessor is Some || fill_may_fail(
                *self,
                *d,
            ) || cells_may_fail(*self, params_view(old(instantiation).calculated_parameters.0), *d, extra),
        decreases fuel, 0nat,
    {
        let key = CDDAIdentifier::from_str(crate::types::DEFAULT_REGION_SETTING_ENTRY);
        if !d.region_settings.contains_key(&key) {
            return Err(GetMappedCDDAIdsError::MissingRegionSettings);
        }
        proof {
            assert(default_region(*d) is Some);
        }
        let fill: Option<MappedCDDAId> = match &self.common.fill {
            None => None,
            Some(fd) => {
                let id = match resolve_distribution(fd, &instantiation.calculated_parameters.0) {
                    Ok(id) => id,
                    Err(_) => {
                        proof {
                            assert(false);
                        }
                        return Err(GetMappedCDDAIdsError::MissingRegionSettings);
                    },
                };
                let replaced = match d.replace_possible_region_settings(&id) {
                    Ok(x) => x,
                    Err(e) => {
                        return Err(GetMappedCDDAIdsError::Property(e));
                    },
                };
                Some(MappedCDDAId::simple(TilesheetCDDAId::simple(replaced)))
            },
        };
        match &self.common.predecessor {
            None => {},
            Some(pid) => {
                let predecessor = match d.overmap_terrains.get(pid) {
                    Some(p) => p,
                    None => {
                        return Err(GetMappedCDDAIdsError::MissingOvermapTerrainForPredecessor(pid.0.clone()));
                    },
                };
                let builtin = first_builtin(&predecessor.mapgen);
                let pred_map = match builtin {
                    Some(b) => {
                        proof {
                            assert(d.overmap_terrains.map().contains_key(pid@));
                        }
                        d.map_data.get(b).unwrap()
                    },
                    None => match d.map_data.get(pid) {
                        Some(m) => m,
                        None => {
                            return Err(GetMappedCDDAIdsError::MissingMapgenEntryForPredecessor(pid.0.clone()));
                        },
                    },
                };
                let ghost pkey = match builtin {
                    Some(b) => b@,
                    None => pid@,
                };
                proof {
                    assert(d.map_data.map().contains_key(pkey) && *pred_map == d.map_data.map()[pkey]);
                    assert(predecessor_of(*self, *d) == Some(*pred_map));
                    lemma_data_map_covered(*d, extra, pkey);
                }
                let instantiated_predecessor = pred_map.instantiate_with(d, Ghost(extra), Ghost((fuel - 1) as nat))?;
                pred_map.instantiate_tiles_with(instantiation, d, Ghost(extra), Ghost((fuel - 1) as nat))?;
                instantiation.instantiated_tiles = instantiated_predecessor.instantiated_tiles;
            },
        }
        let ghost lfuel = choose|f: nat| lookups_end(self.common.palettes@, *d, extra, f);
        let n = self.cells.len();
        let mut i: usize = 0;
        while i < n
            invariant
                n == self.cells.entries().len(),
                i <= n,
                map_ok(*self, *d),
                data_ok(*d, extra),
                lookups_end(self.common.palettes@, *d, extra, lfuel),
                params_within(params_view(instantiation.calculated_parameters.0), *d, extra),
                instantiation.calculated_parameters == old(instantiation).calculated_parameters,
                fill is Some <==> self.common.fill is Some,
                default_region(*d) is Some,
                forall|j: int| #![trigger self.cells.entries()[j]]
                    0 <= j < i ==> {
                        let p = self.cells.entries()[j].0;
                        &&& instantiation.instantiated_tiles.map().contains_key(cell_tile(*self, p))
                        &&& fill is Some ==> instantiation.instantiated_tiles.map()[cell_tile(*self, p)].terrain is Some
                    },
                forall|j: int| #![trigger self.cells.entries()[j]]
                    0 <= j < i ==> cell_terrain_landed(
                        *self,
                        self.cells.entries()[j].0,
                        instantiation.instantiated_tiles.map(),
                        params_view(old(instantiation).calculated_parameters.0),
                        *d,
                    ),
                forall|j: int| #![trigger self.cells.entries()[j]]
                    0 <= j < i ==> cell_layers_landed(
                        *self,
                        self.cells.entries()[j].0,
                        instantiation.instantiated_tiles.map(),
                        params_view(old(instantiation).calculated_parameters.0),
                        *d,
                        extra,
                    ),
            decreases n - i,
        {
            let pos = *self.cells.key_at(i);
            let cell = self.cells.value_at(i);
            proof {
                assert(self.cells.map().contains_key(pos));
            }
            let ghost before = instantiation.instantiated_tiles.map();
            self.cells.lemma_entries_cover();
            self.instantiate_cell(pos, cell.character, &fill, instantiation, d, Ghost(extra), Ghost(lfuel))?;
            proof {
                assert forall|j: int| #![trigger self.cells.entries()[j]] 0 <= j < i + 1 implies {
                    let p = self.cells.entries()[j].0;
                    &&& instantiation.instantiated_tiles.map().contains_key(cell_tile(*self, p))
                    &&& fill is Some ==> instantiation.instantiated_tiles.map()[cell_tile(*self, p)].terrain is Some
                } by {
                    if j < i {
                        let p = self.cells.entries()[j].0;
                        assert(before.contains_key(cell_tile(*self, p)));
                    }
                }
                assert forall|j: int| #![trigger self.cells.entries()[j]] 0 <= j < i + 1 implies cell_terrain_landed(
                    *self,
                    self.cells.entries()[j].0,
                    instantiation.instantiated_tiles.map(),
                    params_view(old(instantiation).calculated_parameters.0),
                    *d,
                ) by {
                    let p = self.cells.entries()[j].0;
                    assert(self.cells.entries()[j].0.key() == p);
                    if j < i {
                        assert(self.cells.entries()[i as int].0.key() != self.cells.entries()[j].0.key());
                        assert(p != pos);
                        if p.0 < 24 && p.1 < 24 {
                            assert(cell_pos(pos) != p);
                        }
                    } else {
                        assert(p == pos);
                        assert(cell.character == self.cells.map()[p].character);
                        if p.0 < 24 && p.1 < 24 {
                            assert(cell_pos(pos) == p);
                        }
                    }
                }
                let after = instantiation.instantiated_tiles.map();
                let params0 = params_view(old(instantiation).calculated_parameters.0);
                assert forall|j: int| #![trigger self.cells.entries()[j]] 0 <= j < i + 1 implies cell_layers_landed(
                    *self,
                    self.cells.entries()[j].0,
                    after,
                    params0,
                    *d,
                    extra,
                ) by {
                    let p = self.cells.entries()[j].0;
                    assert(self.cells.entries()[j].0.key() == p);
                    if j < i && p.0 < 24 && p.1 < 24 {
                        assert(self.cells.entries()[i as int].0.key() != self.cells.entries()[j].0.key());
                        assert(cell_pos(pos) != p);
                        let c = self.cells.map()[p].character;
                        assert(cell_layers_landed(*self, p, before, params0, *d, extra));
                        assert forall|k: MappingKind| kind_settles(*self, *d, extra, k, c, params0) implies #[trigger] kind_landed(
                            *self,
                            *d,
                            extra,
                            k,
                            c,
                            params0,
                            after,
                            p,
                        ) by {
                            assert(kind_landed(*self, *d, extra, k, c, params0, before, p));
                            if before.contains_key(p) {
                                assert(others_kept_at(before, after, p));
                            }
                            lemma_landed_moves(*self, *d, extra, k, c, params0, before, after, p);
                        }
                    } else if j == i && p.0 < 24 && p.1 < 24 {
                        assert(p == pos);
                        assert(cell.character == self.cells.map()[p].character);
                        assert(cell_pos(pos) == p);
                    }
                }
            }
            i = i + 1;
        }
        let ghost after_cells = instantiation.instantiated_tiles.map();
        self.apply_places(instantiation, d);
        self.cells.lemma_entries_cover();
        proof {
            let after = instantiation.instantiated_tiles.map();
            let params0 = params_view(old(instantiation).calculated_parameters.0);
            assert forall|p: (u32, u32)| #[trigger] self.cells.map().contains_key(p) implies cell_layers_landed_off_places(
                *self,
                p,
                after,
                params0,
                *d,
                extra,
            ) by {
                let j = choose|j: int| 0 <= j < self.cells.entries().len() && #[trigger] self.cells.entries()[j].0.key() == p;
                assert(self.cells.entries()[j].0 == p);
                assert(cell_layers_landed(*self, p, after_cells, params0, *d, extra));
                if p.0 < 24 && p.1 < 24 {
                    let c = self.cells.map()[p].character;
                    assert forall|k: MappingKind|
                        kind_settles(*self, *d, extra, k, c, params0) && !(layer_of(k) == Some(TileLayer::Terrain)
                            && terrain_landable(*self, p)) && !(layer_of(k) == Some(TileLayer::Furniture) && furniture_landable(
                            *self,
                            p,
                        )) implies #[trigger] kind_landed(*self, *d, extra, k, c, params0, after, p) by {
                        assert(kind_landed(*self, *d, extra, k, c, params0, after_cells, p));
                        lemma_landed_moves(*self, *d, extra, k, c, params0, after_cells, after, p);
                    }
                }
            }
        }
        proof {
            assert forall|p: (u32, u32)| #[trigger] self.cells.map().contains_key(p) implies cell_terrain_landed_off_places(
                *self,
                p,
                instantiation.instantiated_tiles.map(),
                params_view(old(instantiation).calculated_parameters.0),
                *d,
            ) by {
                let j = choose|j: int| 0 <= j < self.cells.entries().len() && #[trigger] self.cells.entries()[j].0.key() == p;
                assert(self.cells.entries()[j].0 == p);
                assert(cell_terrain_landed(
                    *self,
                    p,
                    after_cells,
                    params_view(old(instantiation).calculated_parameters.0),
                    *d,
                ));
            }
            assert forall|p: (u32, u32)| #[trigger] self.cells.map().contains_key(p) implies instantiation.instantiated_tiles.map().contains_key(
                cell_tile(*self, p),
            ) && (self.common.fill is Some ==> instantiation.instantiated_tiles.map()[cell_tile(*self, p)].terrain is Some) by {
                let j = choose|j: int| 0 <= j < self.cells.entries().len() && #[trigger] self.cells.entries()[j].0.key() == p;
                assert(self.cells.entries()[j].0 == p);
                assert(after_cells.contains_key(cell_tile(*self, p)));
            }
        }
        Ok(())
    }

    fn instantiate_with(
        &self,
        d: &DeserializedCDDAJsonData,
        Ghost(extra): Ghost<KeyedMap<ParameterIdentifier, Parameter>>,
        Ghost(fuel): Ghost<nat>,
    ) -> (r: Result<InstantiatedMapgen<ParametersCalculated>, GetMappedCDDAIdsError>)
        requires
            map_ok(*self, *d),
            data_ok(*d, extra),
            exists|f: nat| lookups_end(self.common.palettes@, *d, extra, f),
            predecessors_end(*self, *d, fuel),
            chain_ok(*self, *d, extra, fuel),
            own_covered(*self, *d, extra),
        ensures
            r matches Ok(i) ==> cells_instantiated(*self, i.instantiated_tiles.map()) && params_from(
                params_view(i.calculated_parameters.0),
                d.palettes.map(),
                self.common.parameters,
            ),
            default_region(*d) is None ==> r is Err,
            r matches Err(GetMappedCDDAIdsError::MissingRegionSettings) ==> default_region(*d) is None,
            r matches Ok(i) ==> mapped_terrains_landed(
                *self,
                i.instantiated_tiles.map(),
                params_view(i.calculated_parameters.0),
                *d,
            ),
            r matches Ok(i) ==> mapped_layers_landed(
                *self,
                i.instantiated_tiles.map(),
                params_view(i.calculated_parameters.0),
                *d,
                extra,
            ),
            r matches Err(GetMappedCDDAIdsError::MissingOvermapTerrainForPredecessor(p)) ==> pred_missing_ot(
                *self,
                *d,
                fuel,
                p@,
            ),
            r matches Err(GetMappedCDDAIdsError::MissingMapgenEntryForPredecessor(p)) ==> pred_missing_map(
                *self,
                *d,
                fuel,
                p@,
            ),
            r matches Err(GetMappedCDDAIdsError::CalculateParameters(_)) ==> self.common.predecessor is Some
                || calc_may_fail(self.common.palettes@, d.palettes.map(), self.common.parameters),
            r matches Err(GetMappedCDDAIdsError::Property(_)) ==> self.common.predecessor is Some || fill_may_fail(
                *self,
                *d,
            ) || exists|params: Seq<(Seq<char>, Seq<char>)>|
                params_from(params, d.palettes.map(), self.common.parameters) && #[trigger] cells_may_fail(
                    *self,
                    params,
                    *d,
                    extra,
                ),
        decreases fuel, 1nat,
    {
        let params = match CalculateRandomParameters.calculate_parameters(self, d) {
            Ok(p) => p,
            Err(e) => {
                return Err(GetMappedCDDAIdsError::CalculateParameters(e));
            },
        };
        let mut instantiation = InstantiatedMapgen::new().calculate_parameters(params);
        proof {
            lemma_params_within(params_view(instantiation.calculated_parameters.0), *self, *d, extra);
        }
        let ghost pv = params_view(instantiation.calculated_parameters.0);
        let tiles = self.instantiate_tiles_with(&mut instantiation, d, Ghost(extra), Ghost(fuel));
        match tiles {
            Ok(()) => {},
            Err(e) => {
                proof {
                    assert(params_from(pv, d.palettes.map(), self.common.parameters));
                }
                return Err(e);
            },
        }
        Ok(instantiation)
    }
}

/// A map can be instantiated with the game data without a panic and
/// without endless recursion (see `map_ok`, `data_ok`, `lookups_end` and
/// `chain_ok`).
pub open spec fn instantiable(m: MapGen, d: DeserializedCDDAJsonData) -> bool {
    &&& map_ok(m, d)
    &&& data_ok(d, m.common.parameters)
    &&& exists|f: nat| lookups_end(m.common.palettes@, d, m.common.parameters, f)
    &&& exists|f: nat| chain_ok(m, d, m.common.parameters, f)
}

proof fn lemma_own_covered(m: MapGen, d: DeserializedCDDAJsonData)
    ensures
        own_covered(m, d, m.common.parameters),
{
}

impl MapGen {
    /// Places the tiles of the map into `instantiation` with its calculated
    /// parameters: the default region settings must be loaded; a
    /// predecessor is instantiated first and its tiles taken; then the tile
    /// of every cell (turned with the map) gets the fill terrain where it
    /// has no terrain, and the mappings of each kind that the cell's
    /// character has (in the map, else in its palettes) are placed; then
    /// the terrain and furniture placements. Where placing a mapping or the
    /// fill terrain fails, the error is returned. A cell inside the cells
    /// whose character has a terrain mapping of the map's own holds one of
    /// the mapping's values, unless a terrain placement may land on it; and
    /// on the layer of each kind of mapping its character has, it holds what
    /// that mapping may place (see `mapped_layers_landed`).
    pub fn instantiate_tiles(
        &self,
        instantiation: &mut InstantiatedMapgen<ParametersCalculated>,
        cdda_data: &DeserializedCDDAJsonData,
    ) -> (r: Result<(), GetMappedCDDAIdsError>)
        requires
            instantiable(*self, *cdda_data),
            params_within(params_view(old(instantiation).calculated_parameters.0), *cdda_data, self.common.parameters),
        ensures
            final(instantiation).calculated_parameters == old(instantiation).calculated_parameters,
            (r matches Err(GetMappedCDDAIdsError::MissingRegionSettings)) <==> default_region(*cdda_data) is None,
            r is Ok ==> cells_instantiated(*self, final(instantiation).instantiated_tiles.map()),
            r matches Err(GetMappedCDDAIdsError::MissingRegionSettings) ==> final(instantiation).instantiated_tiles
                == old(instantiation).instantiated_tiles,
            r is Ok ==> mapped_terrains_landed(
                *self,
                final(instantiation).instantiated_tiles.map(),
                params_view(old(instantiation).calculated_parameters.0),
                *cdda_data,
            ),
            r is Ok ==> mapped_layers_landed(
                *self,
                final(instantiation).instantiated_tiles.map(),
                params_view(old(instantiation).calculated_parameters.0),
                *cdda_data,
                self.common.parameters,
            ),
            r matches Err(GetMappedCDDAIdsError::MissingOvermapTerrainForPredecessor(p)) ==> exists|f: nat|
                pred_missing_ot(*self, *cdda_data, f, p@),
            r matches Err(GetMappedCDDAIdsError::MissingMapgenEntryForPredecessor(p)) ==> exists|f: nat|
                pred_missing_map(*self, *cdda_data, f, p@),
            r matches Err(GetMappedCDDAIdsError::CalculateParameters(_)) ==> self.common.predecessor is Some,
            r matches Err(GetMappedCDDAIdsError::Property(_)) ==> self.common.predecessor is Some || fill_may_fail(
                *self,
                *cdda_data,
            ) || cells_may_fail(
                *self,
                params_view(old(instantiation).calculated_parameters.0),
                *cdda_data,
                self.common.parameters,
            ),
            default_region(*cdda_data) is Some && self.common.predecessor is None && !fill_may_fail(*self, *cdda_data)
                && !cells_may_fail(
                *self,
                params_view(old(instantiation).calculated_parameters.0),
                *cdda_data,
                self.common.parameters,
            ) ==> r is Ok,
    {
        let ghost fuel = choose|f: nat| chain_ok(*self, *cdda_data, params_of(*self), f);
        proof {
            lemma_chain_ends(*self, *cdda_data, params_of(*self), fuel);
        }
        self.instantiate_tiles_with(instantiation, cdda_data, Ghost(params_of(*self)), Ghost(fuel))
    }

    /// The map instantiated: its parameters calculated at random (see
    /// `CalculateRandomParameters`), then its tiles placed (see
    /// `instantiate_tiles`).
    pub fn instantiate(
        &self,
        calculate_parameters_strategy: CalculateRandomParameters,
        cdda_data: &DeserializedCDDAJsonData,
    ) -> (r: Result<InstantiatedMapgen<ParametersCalculated>, GetMappedCDDAIdsError>)
        requires
            instantiable(*self, *cdda_data),
        ensures
            r matches Ok(i) ==> cells_instantiated(*self, i.instantiated_tiles.map()) && params_from(
                params_view(i.calculated_parameters.0),
                cdda_data.palettes.map(),
                self.common.parameters,
            ),
            default_region(*cdda_data) is None ==> r is Err,
            r matches Err(GetMappedCDDAIdsError::MissingRegionSettings) ==> default_region(*cdda_data) is None,
            r matches Ok(i) ==> mapped_terrains_landed(
                *self,
                i.instantiated_tiles.map(),
                params_view(i.calculated_parameters.0),
                *cdda_data,
            ),
            r matches Ok(i) ==> mapped_layers_landed(
                *self,
                i.instantiated_tiles.map(),
                params_view(i.calculated_parameters.0),
                *cdda_data,
                self.common.parameters,
            ),
            r matches Err(GetMappedCDDAIdsError::MissingOvermapTerrainForPredecessor(p)) ==> exists|f: nat|
                pred_missing_ot(*self, *cdda_data, f, p@),
            r matches Err(GetMappedCDDAIdsError::MissingMapgenEntryForPredecessor(p)) ==> exists|f: nat|
                pred_missing_map(*self, *cdda_data, f, p@),
            r matches Err(GetMappedCDDAIdsError::CalculateParameters(_)) ==> self.common.predecessor is Some
                || calc_may_fail(self.common.palettes@, cdda_data.palettes.map(), self.common.parameters),
            r matches Err(GetMappedCDDAIdsError::Property(_)) ==> self.common.predecessor is Some || fill_may_fail(
                *self,
                *cdda_data,
            ) || exists|params: Seq<(Seq<char>, Seq<char>)>|
                params_from(params, cdda_data.palettes.map(), self.common.parameters) && #[trigger] cells_may_fail(
                    *self,
                    params,
                    *cdda_data,
                    self.common.parameters,
                ),
            default_region(*cdda_data) is Some && self.common.predecessor is None && !calc_may_fail(
                self.common.palettes@,
                cdda_data.palettes.map(),
                self.common.parameters,
            ) && !fill_may_fail(*self, *cdda_data) && (forall|params: Seq<(Seq<char>, Seq<char>)>|
                params_from(params, cdda_data.palettes.map(), self.common.parameters) ==> !#[trigger] cells_may_fail(
                    *self,
                    params,
                    *cdda_data,
                    self.common.parameters,
                )) ==> r is Ok,
    {
        let ghost fuel = choose|f: nat| chain_ok(*self, *cdda_data, params_of(*self), f);
        proof {
            lemma_own_covered(*self, *cdda_data);
            lemma_chain_ends(*self, *cdda_data, params_of(*self), fuel);
        }
        self.instantiate_with(cdda_data, Ghost(params_of(*self)), Ghost(fuel))
    }
}
} // verus!
