use vstd::prelude::*;
use crate::calculate::{palettes_end, value_outcome, CalculateParametersError, CalculateRandomParameters};
use crate::cdda_json::{DeserializedCDDAJsonData, TileLayer};
use crate::entries::{group_choice_ends, group_may_fail, GetRandomMonsterError};
use crate::game_data::{has_prefix, region_chain_ok, region_outcome, replace_region_setting, CDDARegionSettings, RegionIdentifier};
use crate::identifier::{params_view, value_may_fail, value_must_fail, GetIdentifierError};
use crate::map_data::{MapGenGaspumpFuelType, MapGenMonsterType};
use crate::map_instance::{
    tile_or_empty, with_layer, InstantiatedMapgen, MapgenCellCoordinates, ParametersCalculated,
};
use crate::mapped_id::{MappedCDDAId, TilesheetCDDAId};
use crate::om_terrain::starts_with;
use crate::properties::{
    CorpsesProperty, FieldsProperty, FurnitureProperty, GaspumpsProperty, MonstersProperty, NestedProperty,
    SignsProperty, TerrainProperty, TrapsProperty, VehiclesProperty,
};
use crate::overmap_vehicle_data::VehiclePartPlacement;
use crate::vehicles::{place_vehicle_parts, vehicle_part_fits, vehicle_placed, VehiclePart};
use crate::random::{random_range_u32, sample_weighted_index, weights_valid};
use crate::tileset::Rotation;
use crate::types::{
    CDDAIdentifier, Weighted, DEFAULT_REGION_SETTING_ENTRY, NULL_FIELD, NULL_FURNITURE, NULL_NESTED, NULL_TERRAIN,
    NULL_TRAP,
};

verus! {

/// Why a mapping could not be placed.
pub enum ApplyPropertyError {
    GetIdentifierError(GetIdentifierError),
    InvalidWeights(Vec<i32>),
    MissingMonsterGroup(String),
    RandomMonster(GetRandomMonsterError),
    MissingNestedMapgen(String),
    CalculateParameters(CalculateParametersError),
    UnknownRegionTerrain(String),
    MissingVehicle(String),
}

/// The weights of a weighted list, in order.
pub open spec fn list_weights<T>(l: Seq<Weighted<T>>) -> Seq<i32> {
    Seq::new(l.len(), |i: int| l[i].weight)
}

/// Picks an entry of the list at random with the entries' weights.
pub fn pick_weighted<T>(list: &Vec<Weighted<T>>) -> (r: Result<usize, ApplyPropertyError>)
    ensures
        r is Ok <==> weights_valid(list_weights(list@)),
        r matches Ok(i) ==> i < list@.len() && list@[i as int].weight > 0,
        r matches Err(e) ==> (e matches ApplyPropertyError::InvalidWeights(w) && w@ == list_weights(list@)),
{
    let mut weights: Vec<i32> = Vec::new();
    let mut i: usize = 0;
    while i < list.len()
        invariant
            i <= list@.len(),
            weights@ == list_weights(list@).take(i as int),
        decreases list@.len() - i,
    {
        weights.push(list[i].weight);
        proof {
            assert(weights@ =~= list_weights(list@).take(i + 1));
        }
        i = i + 1;
    }
    proof {
        assert(list_weights(list@).take(list@.len() as int) =~= list_weights(list@));
    }
    match sample_weighted_index(&weights) {
        Ok(k) => Ok(k),
        Err(_) => Err(ApplyPropertyError::InvalidWeights(weights)),
    }
}

/// The default region settings of the game data, if loaded.
pub open spec fn default_region(d: DeserializedCDDAJsonData) -> Option<CDDARegionSettings> {
    if d.region_settings.map().contains_key(DEFAULT_REGION_SETTING_ENTRY@) {
        Some(d.region_settings.map()[DEFAULT_REGION_SETTING_ENTRY@])
    } else {
        None
    }
}

/// Every regional terrain that the default region settings know ends its
/// replacement without a panic.
pub open spec fn regions_ok(d: DeserializedCDDAJsonData) -> bool {
    default_region(d) matches Some(rs) ==> forall|k: Seq<char>| #[trigger]
        rs.region_terrain_and_furniture.terrain.map().contains_key(k) ==> exists|f: nat| region_chain_ok(rs, k, f)
}

/// Whether replacing a regional terrain with the default region settings
/// may turn `x` into `id`.
pub open spec fn region_replaced(d: DeserializedCDDAJsonData, x: Seq<char>, id: Seq<char>) -> bool {
    match default_region(d) {
        Some(rs) => exists|f: nat| region_outcome(rs, x, id, f),
        None => id == x,
    }
}

/// Whether `x` is a regional terrain that the default region settings do
/// not know, which replacing it refuses.
pub open spec fn region_unknown(d: DeserializedCDDAJsonData, x: Seq<char>) -> bool {
    default_region(d) matches Some(rs) && starts_with(x, "t_region"@)
        && !rs.region_terrain_and_furniture.terrain.map().contains_key(x)
}

/// Whether placing the terrain value may be refused: the value may fail to
/// resolve, or may give a regional terrain that is not known.
pub open spec fn terrain_may_fail(
    v: crate::types::MapGenValue,
    params: Seq<(Seq<char>, Seq<char>)>,
    d: DeserializedCDDAJsonData,
) -> bool {
    value_may_fail(v, params) || exists|x: Seq<char>| #[trigger]
        value_outcome(v, params, x) && x != NULL_TERRAIN@ && region_unknown(d, x)
}

/// A tile on no special footing: the identifier alone, facing north,
/// neither broken nor open.
pub open spec fn plain_tile(m: MappedCDDAId, id: Seq<char>) -> bool {
    &&& m.tilesheet_id.id@ == id
    &&& m.tilesheet_id.prefix is None
    &&& m.tilesheet_id.postfix is None
    &&& m.rotation == Rotation::Deg0
    &&& !m.is_broken
    &&& !m.is_open
}

/// The tiles after the layer of the tile at `pos` took `m`.
pub open spec fn placed_on(
    before: Map<(u32, u32), crate::map_instance::InstantiatedTile>,
    after: Map<(u32, u32), crate::map_instance::InstantiatedTile>,
    pos: (u32, u32),
    layer: TileLayer,
    m: MappedCDDAId,
) -> bool {
    after == before.insert(pos, with_layer(tile_or_empty(before, pos), layer, m))
}

pub(crate) fn plain(id: CDDAIdentifier) -> (r: MappedCDDAId)
    ensures
        plain_tile(r, id@),
{
    MappedCDDAId::simple(TilesheetCDDAId::simple(id))
}

impl DeserializedCDDAJsonData {
    /// A regional terrain replaced with the default region settings, when
    /// they are loaded (see `replace_region_setting`); any other identifier
    /// as it is. A regional terrain that the settings do not know is an
    /// error.
    pub fn replace_possible_region_settings(&self, id: &CDDAIdentifier) -> (r: Result<CDDAIdentifier, ApplyPropertyError>)
        requires
            regions_ok(*self),
        ensures
            r matches Ok(x) ==> region_replaced(*self, id@, x@),
            r matches Err(e) ==> e matches ApplyPropertyError::UnknownRegionTerrain(s) && s@ == id@,
            default_region(*self) is None ==> r is Ok,
            !starts_with(id@, "t_region"@) ==> (r matches Ok(x) && x@ == id@),
            r is Err <==> region_unknown(*self, id@),
    {
        proof {
            reveal_strlit("t_region");
        }
        let key = CDDAIdentifier::from_str(DEFAULT_REGION_SETTING_ENTRY);
        match self.region_settings.get(&key) {
            None => Ok(id.clone()),
            Some(rs) => {
                if has_prefix(id.0.as_str(), "t_region") && !rs.region_terrain_and_furniture.terrain.contains_key(
                    &RegionIdentifier(id.0.clone()),
                ) {
                    return Err(ApplyPropertyError::UnknownRegionTerrain(id.0.clone()));
                }
                proof {
                    assert(key@ == DEFAULT_REGION_SETTING_ENTRY@);
                    assert(default_region(*self) == Some(*rs));
                    if !starts_with(id@, "t_region"@) {
                        assert(region_chain_ok(*rs, id@, 0));
                        assert(exists|f: nat| region_chain_ok(*rs, id@, f));
                    } else {
                        assert(rs.region_terrain_and_furniture.terrain.map().contains_key(id@));
                        assert(regions_ok(*self));
                        assert(default_region(*self) matches Some(q) && q == *rs);
                        assert(exists|f: nat| region_chain_ok(*rs, id@, f));
                    }
                }
                let r = replace_region_setting(id, rs, &self.terrain, &self.furniture);
                Ok(r)
            },
        }
    }
}

/// Whether placing the terrain value may put the terrain `id`: `t_null` as
/// it is, any other identifier the value may give after regional
/// replacement.
pub open spec fn terrain_choice(
    v: crate::types::MapGenValue,
    params: Seq<(Seq<char>, Seq<char>)>,
    d: DeserializedCDDAJsonData,
    id: Seq<char>,
) -> bool {
    exists|x: Seq<char>| #[trigger]
        value_outcome(v, params, x) && if x == NULL_TERRAIN@ {
            id == x
        } else {
            region_replaced(d, x, id)
        }
}

impl TerrainProperty {
    /// Places the terrain that the mapping's value gives (regional terrain
    /// replaced) at the position.
    pub fn apply_to_instantiation(
        &self,
        instantiation: &mut InstantiatedMapgen<ParametersCalculated>,
        position: MapgenCellCoordinates,
        json_data: &DeserializedCDDAJsonData,
    ) -> (r: Result<(), ApplyPropertyError>)
        requires
            regions_ok(*json_data),
        ensures
            final(instantiation).calculated_parameters == old(instantiation).calculated_parameters,
            r is Ok ==> exists|m: MappedCDDAId|
                placed_on(
                    old(instantiation).instantiated_tiles.map(),
                    final(instantiation).instantiated_tiles.map(),
                    position.0,
                    TileLayer::Terrain,
                    m,
                ) && m.tilesheet_id.prefix is None && m.tilesheet_id.postfix is None && terrain_choice(
                    self.mapgen_value,
                    params_view(old(instantiation).calculated_parameters.0),
                    *json_data,
                    m.tilesheet_id.id@,
                ),
            r is Err ==> final(instantiation).instantiated_tiles == old(instantiation).instantiated_tiles,
            r is Err ==> terrain_may_fail(self.mapgen_value, params_view(old(instantiation).calculated_parameters.0), *json_data),
            value_must_fail(self.mapgen_value, params_view(old(instantiation).calculated_parameters.0)) ==> r is Err,
    {
        let ident = match self.mapgen_value.get_identifier(&instantiation.calculated_parameters.0) {
            Ok(i) => i,
            Err(e) => {
                return Err(ApplyPropertyError::GetIdentifierError(e));
            },
        };
        let ghost params = params_view(instantiation.calculated_parameters.0);
        proof {
            assert(value_outcome(self.mapgen_value, params, ident@));
        }
        let ghost before = instantiation.instantiated_tiles.map();
        let null = CDDAIdentifier::from_str(NULL_TERRAIN);
        if ident.eq_id(&null) {
            let m = plain(null);
            instantiation.place_terrain(position, m);
            proof {
                assert(placed_on(before, instantiation.instantiated_tiles.map(), position.0, TileLayer::Terrain, m));
                assert(terrain_choice(self.mapgen_value, params, *json_data, m.tilesheet_id.id@));
            }
            return Ok(());
        }
        let replaced = match json_data.replace_possible_region_settings(&ident) {
            Ok(x) => x,
            Err(e) => {
                proof {
                    assert(value_outcome(self.mapgen_value, params, ident@) && ident@ != NULL_TERRAIN@ && region_unknown(
                        *json_data,
                        ident@,
                    ));
                }
                return Err(e);
            },
        };
        let m = plain(replaced);
        instantiation.place_terrain(position, m);
        proof {
            assert(placed_on(before, instantiation.instantiated_tiles.map(), position.0, TileLayer::Terrain, m));
            assert(terrain_choice(self.mapgen_value, params, *json_data, m.tilesheet_id.id@));
        }
        Ok(())
    }
}

impl FurnitureProperty {
    /// Places the furniture that the mapping's value gives at the position;
    /// `f_null` places nothing.
    pub fn apply_to_instantiation(
        &self,
        instantiation: &mut InstantiatedMapgen<ParametersCalculated>,
        position: MapgenCellCoordinates,
        json_data: &DeserializedCDDAJsonData,
    ) -> (r: Result<(), ApplyPropertyError>)
        ensures
            final(instantiation).calculated_parameters == old(instantiation).calculated_parameters,
            r is Ok ==> (final(instantiation).instantiated_tiles.map() == old(instantiation).instantiated_tiles.map()
                && value_outcome(self.mapgen_value, params_view(old(instantiation).calculated_parameters.0), NULL_FURNITURE@))
                || exists|m: MappedCDDAId|
                placed_on(
                    old(instantiation).instantiated_tiles.map(),
                    final(instantiation).instantiated_tiles.map(),
                    position.0,
                    TileLayer::Furniture,
                    m,
                ) && plain_tile(m, m.tilesheet_id.id@) && m.tilesheet_id.id@ != NULL_FURNITURE@ && value_outcome(
                    self.mapgen_value,
                    params_view(old(instantiation).calculated_parameters.0),
                    m.tilesheet_id.id@,
                ),
            r is Err ==> final(instantiation).instantiated_tiles == old(instantiation).instantiated_tiles,
            r is Err ==> value_may_fail(self.mapgen_value, params_view(old(instantiation).calculated_parameters.0)),
            value_must_fail(self.mapgen_value, params_view(old(instantiation).calculated_parameters.0)) ==> r is Err,
    {
        let ident = match self.mapgen_value.get_identifier(&instantiation.calculated_parameters.0) {
            Ok(i) => i,
            Err(e) => {
                return Err(ApplyPropertyError::GetIdentifierError(e));
            },
        };
        proof {
            assert(value_outcome(self.mapgen_value, params_view(instantiation.calculated_parameters.0), ident@));
        }
        let ghost before = instantiation.instantiated_tiles.map();
        if ident.eq_id(&CDDAIdentifier::from_str(NULL_FURNITURE)) {
            return Ok(());
        }
        let m = plain(ident);
        instantiation.place_furniture(position, m);
        proof {
            assert(placed_on(before, instantiation.instantiated_tiles.map(), position.0, TileLayer::Furniture, m));
        }
        Ok(())
    }
}

impl SignsProperty {
    /// Places a sign (`f_sign`) at the position.
    pub fn apply_to_instantiation(
        &self,
        instantiation: &mut InstantiatedMapgen<ParametersCalculated>,
        position: MapgenCellCoordinates,
    ) -> (r: Result<(), ApplyPropertyError>)
        ensures
            final(instantiation).calculated_parameters == old(instantiation).calculated_parameters,
            r is Ok,
            exists|m: MappedCDDAId|
                placed_on(
                    old(instantiation).instantiated_tiles.map(),
                    final(instantiation).instantiated_tiles.map(),
                    position.0,
                    TileLayer::Furniture,
                    m,
                ) && plain_tile(m, "f_sign"@),
    {
        let ghost before = instantiation.instantiated_tiles.map();
        let m = plain(CDDAIdentifier::from_str("f_sign"));
        instantiation.place_furniture(position, m);
        proof {
            assert(placed_on(before, instantiation.instantiated_tiles.map(), position.0, TileLayer::Furniture, m));
        }
        Ok(())
    }
}

impl FieldsProperty {
    /// Places a field picked at random with the weights of the mapping;
    /// `fd_null` places nothing.
    pub fn apply_to_instantiation(
        &self,
        instantiation: &mut InstantiatedMapgen<ParametersCalculated>,
        position: MapgenCellCoordinates,
    ) -> (r: Result<(), ApplyPropertyError>)
        ensures
            final(instantiation).calculated_parameters == old(instantiation).calculated_parameters,
            r is Ok <==> weights_valid(list_weights(self.field@)),
            r is Ok ==> (final(instantiation).instantiated_tiles.map() == old(instantiation).instantiated_tiles.map()
                && exists|i: int|
                0 <= i < self.field@.len() && self.field@[i].weight > 0 && (#[trigger] self.field@[i]).data.field@
                    == NULL_FIELD@) || exists|m: MappedCDDAId, i: int|
                0 <= i < self.field@.len() && self.field@[i].weight > 0 && #[trigger] placed_on(
                    old(instantiation).instantiated_tiles.map(),
                    final(instantiation).instantiated_tiles.map(),
                    position.0,
                    TileLayer::Field,
                    m,
                ) && plain_tile(m, #[trigger] self.field@[i].data.field@),
            r is Err ==> final(instantiation).instantiated_tiles == old(instantiation).instantiated_tiles,
    {
        let i = pick_weighted(&self.field)?;
        let field = &self.field[i].data;
        if field.field.eq_id(&CDDAIdentifier::from_str(NULL_FIELD)) {
            return Ok(());
        }
        let ghost before = instantiation.instantiated_tiles.map();
        let m = plain(field.field.clone());
        instantiation.place_field(position, m);
        proof {
            assert(placed_on(before, instantiation.instantiated_tiles.map(), position.0, TileLayer::Field, m));
            assert(plain_tile(m, self.field@[i as int].data.field@));
        }
        Ok(())
    }
}

/// The furniture that a gas pump of the given fuel shows.
pub open spec fn gaspump_id(fuel: Option<MapGenGaspumpFuelType>) -> Seq<char> {
    match fuel {
        Some(MapGenGaspumpFuelType::Diesel) => "t_diesel_pump"@,
        Some(MapGenGaspumpFuelType::Jp8) => "t_jp8_pump"@,
        _ => "t_gas_pump"@,
    }
}

/// Each fuel that has a pump of its own gets it, and no other fuel does: a
/// diesel pump exactly for diesel, a jet fuel pump exactly for jet fuel, and
/// the gasoline pump for gasoline, aviation gasoline and an unnamed fuel.
pub proof fn law_gaspump_per_fuel(f: Option<MapGenGaspumpFuelType>)
    ensures
        gaspump_id(f) == "t_diesel_pump"@ <==> f == Some(MapGenGaspumpFuelType::Diesel),
        gaspump_id(f) == "t_jp8_pump"@ <==> f == Some(MapGenGaspumpFuelType::Jp8),
        gaspump_id(f) == "t_gas_pump"@ <==> !(f == Some(MapGenGaspumpFuelType::Diesel) || f == Some(
            MapGenGaspumpFuelType::Jp8,
        )),
{
    reveal_strlit("t_diesel_pump");
    reveal_strlit("t_jp8_pump");
    reveal_strlit("t_gas_pump");
    assert("t_diesel_pump"@ != "t_jp8_pump"@) by {
        assert("t_diesel_pump"@[2] != "t_jp8_pump"@[2]);
    }
    assert("t_diesel_pump"@ != "t_gas_pump"@) by {
        assert("t_diesel_pump"@[2] != "t_gas_pump"@[2]);
    }
    assert("t_jp8_pump"@ != "t_gas_pump"@) by {
        assert("t_jp8_pump"@[2] != "t_gas_pump"@[2]);
    }
}

/// Pumps of different fuels differ exactly where one of the fuels is
/// diesel or jet fuel: a mapping of diesel pumps never shows a gasoline
/// pump.
pub proof fn law_gaspumps_differ_by_fuel(a: Option<MapGenGaspumpFuelType>, b: Option<MapGenGaspumpFuelType>)
    requires
        a == Some(MapGenGaspumpFuelType::Diesel) || a == Some(MapGenGaspumpFuelType::Jp8),
        a != b,
    ensures
        gaspump_id(a) != gaspump_id(b),
{
    law_gaspump_per_fuel(a);
    law_gaspump_per_fuel(b);
}

impl GaspumpsProperty {
    /// Places the pump of a gas pump picked at random with the weights of
    /// the mapping: a diesel or jet fuel pump for those fuels, else a gas pump.
    pub fn apply_to_instantiation(
        &self,
        instantiation: &mut InstantiatedMapgen<ParametersCalculated>,
        position: MapgenCellCoordinates,
    ) -> (r: Result<(), ApplyPropertyError>)
        ensures
            final(instantiation).calculated_parameters == old(instantiation).calculated_parameters,
            r is Ok <==> weights_valid(list_weights(self.gaspumps@)),
            r is Ok ==> exists|m: MappedCDDAId, i: int|
                0 <= i < self.gaspumps@.len() && self.gaspumps@[i].weight > 0 && #[trigger] placed_on(
                    old(instantiation).instantiated_tiles.map(),
                    final(instantiation).instantiated_tiles.map(),
                    position.0,
                    TileLayer::Furniture,
                    m,
                ) && plain_tile(m, gaspump_id(#[trigger] self.gaspumps@[i].data.fuel)),
            r is Err ==> final(instantiation).instantiated_tiles == old(instantiation).instantiated_tiles,
    {
        let i = pick_weighted(&self.gaspumps)?;
        let pump = &self.gaspumps[i].data;
        let id = match &pump.fuel {
            Some(MapGenGaspumpFuelType::Diesel) => "t_diesel_pump",
            Some(MapGenGaspumpFuelType::Jp8) => "t_jp8_pump",
            _ => "t_gas_pump",
        };
        let ghost before = instantiation.instantiated_tiles.map();
        let m = plain(CDDAIdentifier::from_str(id));
        instantiation.place_furniture(position, m);
        proof {
            assert(placed_on(before, instantiation.instantiated_tiles.map(), position.0, TileLayer::Furniture, m));
            assert(plain_tile(m, gaspump_id(self.gaspumps@[i as int].data.fuel)));
        }
        Ok(())
    }
}

/// Whether placing a trap may be refused: the weights admit no choice, or
/// an entry that may be picked may fail to resolve.
pub open spec fn traps_may_fail(t: TrapsProperty, params: Seq<(Seq<char>, Seq<char>)>) -> bool {
    !weights_valid(list_weights(t.trap@)) || exists|i: int|
        0 <= i < t.trap@.len() && t.trap@[i].weight > 0 && value_may_fail(#[trigger] t.trap@[i].data, params)
}

impl TrapsProperty {
    /// Places a trap picked at random with the weights of the mapping, as
    /// its value resolves, on the furniture layer; `tr_null` places nothing.
    pub fn apply_to_instantiation(
        &self,
        instantiation: &mut InstantiatedMapgen<ParametersCalculated>,
        position: MapgenCellCoordinates,
    ) -> (r: Result<(), ApplyPropertyError>)
        ensures
            final(instantiation).calculated_parameters == old(instantiation).calculated_parameters,
            !weights_valid(list_weights(self.trap@)) ==> r is Err,
            r is Ok ==> (final(instantiation).instantiated_tiles.map() == old(instantiation).instantiated_tiles.map()
                && exists|i: int|
                0 <= i < self.trap@.len() && self.trap@[i].weight > 0 && value_outcome(
                    #[trigger] self.trap@[i].data,
                    params_view(old(instantiation).calculated_parameters.0),
                    NULL_TRAP@,
                )) || exists|m: MappedCDDAId, i: int|
                0 <= i < self.trap@.len() && self.trap@[i].weight > 0 && #[trigger] placed_on(
                    old(instantiation).instantiated_tiles.map(),
                    final(instantiation).instantiated_tiles.map(),
                    position.0,
                    TileLayer::Furniture,
                    m,
                ) && plain_tile(m, m.tilesheet_id.id@) && value_outcome(
                    #[trigger] self.trap@[i].data,
                    params_view(old(instantiation).calculated_parameters.0),
                    m.tilesheet_id.id@,
                ),
            r is Err ==> final(instantiation).instantiated_tiles == old(instantiation).instantiated_tiles,
            r is Err ==> traps_may_fail(*self, params_view(old(instantiation).calculated_parameters.0)),
            (forall|i: int|
                0 <= i < self.trap@.len() && self.trap@[i].weight > 0 ==> value_must_fail(
                    #[trigger] self.trap@[i].data,
                    params_view(old(instantiation).calculated_parameters.0),
                )) ==> r is Err,
    {
        let i = pick_weighted(&self.trap)?;
        let ident = match self.trap[i].data.get_identifier(&instantiation.calculated_parameters.0) {
            Ok(id) => id,
            Err(e) => {
                proof {
                    assert(value_may_fail(self.trap@[i as int].data, params_view(instantiation.calculated_parameters.0)));
                }
                return Err(ApplyPropertyError::GetIdentifierError(e));
            },
        };
        proof {
            assert(!value_must_fail(self.trap@[i as int].data, params_view(instantiation.calculated_parameters.0)));
        }
        proof {
            assert(value_outcome(self.trap@[i as int].data, params_view(instantiation.calculated_parameters.0), ident@));
        }
        if ident.eq_id(&CDDAIdentifier::from_str(NULL_TRAP)) {
            return Ok(());
        }
        let ghost before = instantiation.instantiated_tiles.map();
        let m = plain(ident);
        instantiation.place_furniture(position, m);
        proof {
            assert(placed_on(before, instantiation.instantiated_tiles.map(), position.0, TileLayer::Furniture, m));
        }
        Ok(())
    }
}

/// Every monster group of the game data ends a random choice.
pub open spec fn groups_ok(d: DeserializedCDDAJsonData) -> bool {
    forall|k: Seq<char>| #[trigger]
        d.monster_groups.map().contains_key(k) ==> exists|f: nat|
            group_choice_ends(d.monster_groups.map()[k], d.monster_groups.map(), f)
}

/// The chance of every monster of the list that is a range is a range
/// that a random draw can be taken from.
pub open spec fn monster_chances_ok(l: Seq<Weighted<crate::map_data::MapGenMonsters>>) -> bool {
    forall|i: int| 0 <= i < l.len() ==> (#[trigger] l[i].data.chance matches Some(c) ==> (c is Range ==> c.spec_bounds().0
        < c.spec_bounds().1))
}

/// Whether placing a monster entry may be refused: a group whose value may
/// fail to resolve, or may name a group that is not known or whose choice
/// may fail. A monster value that fails places nothing, without an error.
pub open spec fn monster_group_may_fail(
    t: MapGenMonsterType,
    params: Seq<(Seq<char>, Seq<char>)>,
    d: DeserializedCDDAJsonData,
) -> bool {
    match t {
        MapGenMonsterType::Monster { .. } => false,
        MapGenMonsterType::MonsterGroup { group } => value_may_fail(group, params) || exists|g: Seq<char>| #[trigger]
            value_outcome(group, params, g) && (!d.monster_groups.map().contains_key(g) || group_may_fail(
                d.monster_groups.map()[g],
                d.monster_groups.map(),
            )),
    }
}

/// Whether placing a monster may be refused: the weights admit no choice,
/// or an entry that may be picked is a group that may fail.
pub open spec fn monsters_may_fail(
    m: MonstersProperty,
    params: Seq<(Seq<char>, Seq<char>)>,
    d: DeserializedCDDAJsonData,
) -> bool {
    !weights_valid(list_weights(m.monster@)) || exists|i: int|
        0 <= i < m.monster@.len() && m.monster@[i].weight > 0 && monster_group_may_fail(
            #[trigger] m.monster@[i].data.id,
            params,
            d,
        )
}

/// The chance of a monster entry: as written, one when absent.
pub open spec fn chance_of(c: Option<crate::number_or_range::NumberOrRange<u32>>) -> crate::number_or_range::NumberOrRange<u32> {
    match c {
        Some(c) => c,
        None => crate::number_or_range::NumberOrRange::Number(1u32),
    }
}

/// Whether a chance out of 100 may miss: some draw it may take misses.
pub open spec fn chance_may_miss(c: crate::number_or_range::NumberOrRange<u32>) -> bool {
    !(c is Number && c.spec_bounds().0 >= 100) && exists|draw: int|
        c.spec_draw_bounds(100).0 <= draw < c.spec_draw_bounds(100).1 && !#[trigger] c.spec_hit(100, draw)
}

/// Whether placing a monster may place nothing: an entry that may be
/// picked has a chance that may miss, or is a monster value that may fail
/// to resolve.
pub open spec fn monsters_may_skip(m: MonstersProperty, params: Seq<(Seq<char>, Seq<char>)>) -> bool {
    exists|i: int|
        0 <= i < m.monster@.len() && m.monster@[i].weight > 0 && (chance_may_miss(chance_of(#[trigger] m.monster@[i].data.chance))
            || (m.monster@[i].data.id matches MapGenMonsterType::Monster { monster } && value_may_fail(monster, params)))
}

impl MonstersProperty {
    /// Places a monster: an entry is picked at random with the weights of
    /// the mapping and kept when its chance (out of 100, one when absent)
    /// hits; a monster value places that monster unless it fails to
    /// resolve, a group places a random monster of the group.
    pub fn apply_to_instantiation(
        &self,
        instantiation: &mut InstantiatedMapgen<ParametersCalculated>,
        position: MapgenCellCoordinates,
        json_data: &DeserializedCDDAJsonData,
    ) -> (r: Result<(), ApplyPropertyError>)
        requires
            groups_ok(*json_data),
            monster_chances_ok(self.monster@),
        ensures
            final(instantiation).calculated_parameters == old(instantiation).calculated_parameters,
            !weights_valid(list_weights(self.monster@)) ==> r is Err,
            r is Ok ==> (final(instantiation).instantiated_tiles.map() == old(instantiation).instantiated_tiles.map()
                && monsters_may_skip(*self, params_view(old(instantiation).calculated_parameters.0)))
                || exists|m: MappedCDDAId| #[trigger]
                placed_on(
                    old(instantiation).instantiated_tiles.map(),
                    final(instantiation).instantiated_tiles.map(),
                    position.0,
                    TileLayer::Monster,
                    m,
                ) && plain_tile(m, m.tilesheet_id.id@),
            r is Err ==> final(instantiation).instantiated_tiles == old(instantiation).instantiated_tiles,
            r is Err ==> monsters_may_fail(*self, params_view(old(instantiation).calculated_parameters.0), *json_data),
    {
        let i = pick_weighted(&self.monster)?;
        let monster = &self.monster[i].data;
        proof {
            assert(monster_chances_ok(self.monster@) ==> (self.monster@[i as int].data.chance matches Some(c) ==> (
            c is Range ==> c.spec_bounds().0 < c.spec_bounds().1)));
        }
        let hit = match &monster.chance {
            Some(c) => c.is_random_hit(100),
            None => crate::number_or_range::NumberOrRange::Number(1u32).is_random_hit(100),
        };
        if !hit {
            proof {
                let c = chance_of(self.monster@[i as int].data.chance);
                assert(chance_may_miss(c));
            }
            return Ok(());
        }
        let ident = match &monster.id {
            MapGenMonsterType::Monster { monster } => match monster.get_identifier(&instantiation.calculated_parameters.0) {
                Ok(id) => id,
                Err(_) => {
                    proof {
                        assert(value_may_fail(*monster, params_view(instantiation.calculated_parameters.0)));
                    }
                    return Ok(());
                },
            },
            MapGenMonsterType::MonsterGroup { group } => {
                let ghost params = params_view(instantiation.calculated_parameters.0);
                let id = match group.get_identifier(&instantiation.calculated_parameters.0) {
                    Ok(id) => id,
                    Err(e) => {
                        proof {
                            assert(monster_group_may_fail(self.monster@[i as int].data.id, params, *json_data));
                        }
                        return Err(ApplyPropertyError::GetIdentifierError(e));
                    },
                };
                proof {
                    assert(value_outcome(*group, params, id@));
                }
                let mon_group = match json_data.monster_groups.get(&id) {
                    Some(g) => g,
                    None => {
                        proof {
                            assert(monster_group_may_fail(self.monster@[i as int].data.id, params, *json_data));
                        }
                        return Err(ApplyPropertyError::MissingMonsterGroup(id.0));
                    },
                };
                match mon_group.get_random_monster(&json_data.monster_groups, &instantiation.calculated_parameters.0) {
                    Ok(m) => m,
                    Err(e) => {
                        proof {
                            assert(monster_group_may_fail(self.monster@[i as int].data.id, params, *json_data));
                        }
                        return Err(ApplyPropertyError::RandomMonster(e));
                    },
                }
            },
        };
        let ghost before = instantiation.instantiated_tiles.map();
        let m = plain(ident);
        instantiation.place_monster(position, m);
        proof {
            assert(placed_on(before, instantiation.instantiated_tiles.map(), position.0, TileLayer::Monster, m));
        }
        Ok(())
    }
}

/// Whether placing a corpse may be refused: the weights admit no choice,
/// or an entry that may be picked names a group that is not known or whose
/// choice may fail.
pub open spec fn corpses_may_fail(cp: CorpsesProperty, d: DeserializedCDDAJsonData) -> bool {
    !weights_valid(list_weights(cp.corpses@)) || exists|i: int|
        0 <= i < cp.corpses@.len() && cp.corpses@[i].weight > 0 && (!d.monster_groups.map().contains_key(
            #[trigger] cp.corpses@[i].data.group@,
        ) || group_may_fail(d.monster_groups.map()[cp.corpses@[i].data.group@], d.monster_groups.map()))
}

impl CorpsesProperty {
    /// Places the corpse of a random monster of a group: an entry is picked
    /// at random with the weights of the mapping, and a monster of its
    /// group is placed with the prefix `corpse`.
    pub fn apply_to_instantiation(
        &self,
        instantiation: &mut InstantiatedMapgen<ParametersCalculated>,
        position: MapgenCellCoordinates,
        json_data: &DeserializedCDDAJsonData,
    ) -> (r: Result<(), ApplyPropertyError>)
        requires
            groups_ok(*json_data),
        ensures
            final(instantiation).calculated_parameters == old(instantiation).calculated_parameters,
            !weights_valid(list_weights(self.corpses@)) ==> r is Err,
            r is Ok ==> exists|m: MappedCDDAId, i: int|
                0 <= i < self.corpses@.len() && self.corpses@[i].weight > 0 && json_data.monster_groups.map().contains_key(
                    #[trigger] self.corpses@[i].data.group@,
                ) && #[trigger] placed_on(
                    old(instantiation).instantiated_tiles.map(),
                    final(instantiation).instantiated_tiles.map(),
                    position.0,
                    TileLayer::Monster,
                    m,
                ) && (m.tilesheet_id.prefix matches Some(p) && p@ == "corpse"@) && m.tilesheet_id.postfix is None,
            r is Err ==> final(instantiation).instantiated_tiles == old(instantiation).instantiated_tiles,
            r is Err ==> corpses_may_fail(*self, *json_data),
    {
        let i = pick_weighted(&self.corpses)?;
        let corpse = &self.corpses[i].data;
        let group = match json_data.monster_groups.get(&corpse.group) {
            Some(g) => g,
            None => {
                proof {
                    assert(!json_data.monster_groups.map().contains_key(self.corpses@[i as int].data.group@));
                }
                return Err(ApplyPropertyError::MissingMonsterGroup(corpse.group.0.clone()));
            },
        };
        proof {
            assert(json_data.monster_groups.map().contains_key(self.corpses@[i as int].data.group@));
        }
        let monster = match group.get_random_monster(&json_data.monster_groups, &instantiation.calculated_parameters.0) {
            Ok(m) => m,
            Err(e) => {
                proof {
                    assert(group_may_fail(
                        json_data.monster_groups.map()[self.corpses@[i as int].data.group@],
                        json_data.monster_groups.map(),
                    ));
                }
                return Err(ApplyPropertyError::RandomMonster(e));
            },
        };
        let m = MappedCDDAId::simple(
            TilesheetCDDAId { id: monster, prefix: Some(String::from_str("corpse")), postfix: None },
        );
        proof {
            reveal_strlit("corpse");
        }
        let ghost before = instantiation.instantiated_tiles.map();
        instantiation.place_monster(position, m);
        proof {
            assert(placed_on(before, instantiation.instantiated_tiles.map(), position.0, TileLayer::Monster, m));
            assert(json_data.monster_groups.map().contains_key(self.corpses@[i as int].data.group@));
        }
        Ok(())
    }
}

/// Every map of the game data can have its parameters calculated without
/// endless recursion through palettes.
pub open spec fn mapgens_ok(d: DeserializedCDDAJsonData) -> bool {
    forall|k: Seq<char>| #[trigger]
        d.map_data.map().contains_key(k) ==> exists|f: nat|
            palettes_end(d.map_data.map()[k].common.palettes@, d.palettes.map(), d.map_data.map()[k].common.parameters, f)
}

/// Whether placing a nested map may be refused: the weights of the
/// mapping admit no choice, or an entry that may be picked has chunk
/// weights that admit none, or a chunk that may be picked fails to resolve
/// or names a map (which must exist, and whose parameters may fail to be
/// calculated).
pub open spec fn nested_may_fail(
    n: NestedProperty,
    params: Seq<(Seq<char>, Seq<char>)>,
) -> bool {
    !weights_valid(list_weights(n.nested@)) || exists|i: int|
        0 <= i < n.nested@.len() && n.nested@[i].weight > 0 && chunks_may_fail(#[trigger] n.nested@[i].data, params)
}

pub open spec fn chunks_may_fail(m: crate::map_data::MapGenNested, params: Seq<(Seq<char>, Seq<char>)>) -> bool {
    !weights_valid(list_weights(m.chunks@)) || exists|c: int|
        0 <= c < m.chunks@.len() && m.chunks@[c].weight > 0 && (value_may_fail(#[trigger] m.chunks@[c].data, params)
            || exists|id: Seq<char>| #[trigger] value_outcome(m.chunks@[c].data, params, id) && id != NULL_NESTED@)
}

impl NestedProperty {
    /// Places a nested map: an entry is picked at random with the weights
    /// of the mapping, then one of its chunks; `null` places nothing, any
    /// other chunk must be a map of the game data, whose parameters are
    /// calculated and which is placed at the position.
    pub fn apply_to_instantiation(
        &self,
        instantiation: &mut InstantiatedMapgen<ParametersCalculated>,
        position: MapgenCellCoordinates,
        json_data: &DeserializedCDDAJsonData,
    ) -> (r: Result<(), ApplyPropertyError>)
        requires
            mapgens_ok(*json_data),
        ensures
            final(instantiation).calculated_parameters == old(instantiation).calculated_parameters,
            !weights_valid(list_weights(self.nested@)) ==> r is Err,
            r matches Err(ApplyPropertyError::MissingNestedMapgen(s)) ==> !json_data.map_data.map().contains_key(s@),
            final(instantiation).instantiated_tiles.map() == old(instantiation).instantiated_tiles.map(),
            r is Err ==> nested_may_fail(*self, params_view(old(instantiation).calculated_parameters.0)),
    {
        let ghost params = params_view(instantiation.calculated_parameters.0);
        let i = pick_weighted(&self.nested)?;
        let nested = &self.nested[i].data;
        let c = match pick_weighted(&nested.chunks) {
            Ok(c) => c,
            Err(e) => {
                proof {
                    assert(chunks_may_fail(self.nested@[i as int].data, params));
                }
                return Err(e);
            },
        };
        let selected = match nested.chunks[c].data.get_identifier(&instantiation.calculated_parameters.0) {
            Ok(id) => id,
            Err(e) => {
                proof {
                    assert(value_may_fail(nested.chunks@[c as int].data, params));
                    assert(chunks_may_fail(self.nested@[i as int].data, params));
                }
                return Err(ApplyPropertyError::GetIdentifierError(e));
            },
        };
        if selected.eq_id(&CDDAIdentifier::from_str(NULL_NESTED)) {
            return Ok(());
        }
        proof {
            assert(value_outcome(nested.chunks@[c as int].data, params, selected@));
            assert(chunks_may_fail(self.nested@[i as int].data, params));
        }
        let nested_mapgen = match json_data.map_data.get(&selected) {
            Some(m) => m,
            None => {
                return Err(ApplyPropertyError::MissingNestedMapgen(selected.0));
            },
        };
        let params = match CalculateRandomParameters.calculate_parameters(nested_mapgen, json_data) {
            Ok(p) => p,
            Err(e) => {
                return Err(ApplyPropertyError::CalculateParameters(e));
            },
        };
        let instantiated = InstantiatedMapgen::new().calculate_parameters(params);
        instantiation.place_nested(position, instantiated);
        proof {
            assert(instantiation.instantiated_tiles.map() =~= old(instantiation).instantiated_tiles.map());
        }
        Ok(())
    }
}

/// The identifier of a part written for a vehicle placement.
pub open spec fn part_ident(p: VehiclePart) -> CDDAIdentifier {
    match p {
        VehiclePart::Inline(id) => id,
        VehiclePart::Object { part } => part,
    }
}

/// The parts of a vehicle's placements, in order, each at the turned
/// position of its placement (`turned[j]` for placement `j`).
pub open spec fn spec_vehicle_parts(
    placements: Seq<VehiclePartPlacement>,
    turned: Seq<(i32, i32)>,
) -> Seq<((i32, i32), CDDAIdentifier)>
    decreases placements.len(),
{
    if placements.len() == 0 || turned.len() == 0 {
        Seq::empty()
    } else {
        spec_vehicle_parts(placements.drop_last(), turned.drop_last()) + Seq::new(
            placements.last().parts@.len(),
            |k: int| (turned.last(), part_ident(placements.last().parts@[k])),
        )
    }
}

/// Whether `turned` holds, for each placement, a position that `turn` may
/// give for the placement's position and the angle.
pub open spec fn turned_by<F: Fn(i32, (i32, i32)) -> (i32, i32)>(
    placements: Seq<VehiclePartPlacement>,
    turned: Seq<(i32, i32)>,
    turn: F,
    angle: i32,
) -> bool {
    &&& turned.len() == placements.len()
    &&& forall|j: int|
        0 <= j < placements.len() ==> call_ensures(turn, (angle, (placements[j].x, placements[j].y)), #[trigger] turned[j])
}

/// The parts of the placements, each at its placement's position turned by
/// `turn` with the angle.
fn vehicle_parts_turned<F: Fn(i32, (i32, i32)) -> (i32, i32)>(
    placements: &Vec<VehiclePartPlacement>,
    angle: i32,
    turn: F,
) -> (r: (Vec<((i32, i32), CDDAIdentifier)>, Ghost<Seq<(i32, i32)>>))
    requires
        forall|a: i32, p: (i32, i32)| call_requires(turn, (a, p)),
    ensures
        turned_by(placements@, r.1@, turn, angle),
        r.0@ == spec_vehicle_parts(placements@, r.1@),
{
    let mut out: Vec<((i32, i32), CDDAIdentifier)> = Vec::new();
    let ghost mut ts: Seq<(i32, i32)> = Seq::empty();
    let mut j: usize = 0;
    while j < placements.len()
        invariant
            j <= placements@.len(),
            ts.len() == j,
            forall|a: i32, p: (i32, i32)| call_requires(turn, (a, p)),
            forall|jj: int|
                0 <= jj < j ==> call_ensures(turn, (angle, (placements@[jj].x, placements@[jj].y)), #[trigger] ts[jj]),
            out@ == spec_vehicle_parts(placements@.subrange(0, j as int), ts),
        decreases placements@.len() - j,
    {
        let pl = &placements[j];
        let t = turn(angle, (pl.x, pl.y));
        let ghost base = out@;
        let mut k: usize = 0;
        while k < pl.parts.len()
            invariant
                k <= pl.parts@.len(),
                out@ == base + Seq::new(k as nat, |kk: int| (t, part_ident(pl.parts@[kk]))),
            decreases pl.parts@.len() - k,
        {
            let id = match &pl.parts[k] {
                VehiclePart::Inline(id) => id.clone(),
                VehiclePart::Object { part } => part.clone(),
            };
            out.push((t, id));
            k = k + 1;
            proof {
                assert(out@ =~= base + Seq::new(k as nat, |kk: int| (t, part_ident(pl.parts@[kk]))));
            }
        }
        proof {
            let prefix = placements@.subrange(0, j as int + 1);
            assert(prefix.drop_last() =~= placements@.subrange(0, j as int));
            assert(prefix.last() == *pl);
            let nts = ts.push(t);
            assert(nts.drop_last() =~= ts);
            assert(out@ =~= spec_vehicle_parts(prefix, nts));
            ts = nts;
        }
        j = j + 1;
    }
    proof {
        assert(placements@.subrange(0, placements@.len() as int) =~= placements@);
    }
    (out, Ghost(ts))
}

impl VehiclesProperty {
    /// Places a vehicle: an entry is picked at random with the weights of
    /// the mapping, and the vehicle it names must be in the game data; an
    /// angle is drawn from the entry's rotations (0 when it has none). Each
    /// placement of the vehicle is turned by the angle with `turn` (a
    /// rotation of the plane, which takes floating point), the sprites are
    /// turned as `sprite_rotation` gives for the angle, and the parts are
    /// placed at the position (see `place_vehicle_parts`), broken as a draw
    /// for the entry's status gives.
    pub fn apply_to_instantiation<F: Fn(i32, (i32, i32)) -> (i32, i32), G: Fn(i32) -> Rotation>(
        &self,
        instantiation: &mut InstantiatedMapgen<ParametersCalculated>,
        position: MapgenCellCoordinates,
        json_data: &DeserializedCDDAJsonData,
        turn: F,
        sprite_rotation: G,
    ) -> (r: Result<(), ApplyPropertyError>)
        requires
            forall|a: i32, p: (i32, i32)| call_requires(turn, (a, p)),
            forall|a: i32| call_requires(sprite_rotation, (a,)),
            forall|a: i32, p: (i32, i32), t: (i32, i32)| call_ensures(turn, (a, p), t) ==> vehicle_part_fits(position.0, t),
            forall|i: int|
                0 <= i < self.vehicles@.len() ==> (#[trigger] self.vehicles@[i]).data.rotation.values().len() <= u32::MAX,
        ensures
            final(instantiation).calculated_parameters == old(instantiation).calculated_parameters,
            !weights_valid(list_weights(self.vehicles@)) ==> r is Err,
            weights_valid(list_weights(self.vehicles@)) && (forall|i: int|
                0 <= i < self.vehicles@.len() && self.vehicles@[i].weight > 0 ==> json_data.vehicles.map().contains_key(
                    (#[trigger] self.vehicles@[i]).data.vehicle@,
                )) ==> r is Ok,
            r matches Err(ApplyPropertyError::MissingVehicle(v)) ==> !json_data.vehicles.map().contains_key(v@),
            r is Err ==> final(instantiation).instantiated_tiles == old(instantiation).instantiated_tiles,
            r is Ok ==> exists|i: int, angle: i32, turned: Seq<(i32, i32)>, rotation: Rotation|
                #![trigger turned_by(json_data.vehicles.map()[self.vehicles@[i].data.vehicle@].parts@, turned, turn, angle), call_ensures(sprite_rotation, (angle,), rotation)]
                0 <= i < self.vehicles@.len() && self.vehicles@[i].weight > 0 && json_data.vehicles.map().contains_key(
                    self.vehicles@[i].data.vehicle@,
                ) && (if self.vehicles@[i].data.rotation.values().len() == 0 {
                    angle == 0
                } else {
                    self.vehicles@[i].data.rotation.values().contains(angle)
                }) && turned_by(
                    json_data.vehicles.map()[self.vehicles@[i].data.vehicle@].parts@,
                    turned,
                    turn,
                    angle,
                ) && call_ensures(sprite_rotation, (angle,), rotation) && vehicle_placed(
                    old(instantiation).instantiated_tiles.map(),
                    final(instantiation).instantiated_tiles.map(),
                    position.0,
                    spec_vehicle_parts(json_data.vehicles.map()[self.vehicles@[i].data.vehicle@].parts@, turned),
                    json_data.vehicle_parts,
                    rotation,
                    self.vehicles@[i].data.status,
                ),
    {
        let i = pick_weighted(&self.vehicles)?;
        let entry = &self.vehicles[i].data;
        let vehicle = match json_data.vehicles.get(&entry.vehicle) {
            Some(v) => v,
            None => {
                return Err(ApplyPropertyError::MissingVehicle(entry.vehicle.0.clone()));
            },
        };
        let n = entry.rotation.len();
        let angle: i32 = if n == 0 {
            0
        } else {
            let k = random_range_u32(0, n as u32);
            *entry.rotation.get(k as usize)
        };
        let rotation = sprite_rotation(angle);
        let (parts, Ghost(turned)) = vehicle_parts_turned(&vehicle.parts, angle, turn);
        proof {
            assert forall|k: int| 0 <= k < parts@.len() implies vehicle_part_fits(position.0, (#[trigger] parts@[k]).0) by {
                lemma_vehicle_parts_turned(vehicle.parts@, turned, turn, angle, position.0, k);
            }
        }
        let ghost before = instantiation.instantiated_tiles.map();
        place_vehicle_parts(instantiation, position, &parts, &json_data.vehicle_parts, rotation, entry.status);
        proof {
            assert(turned_by(vehicle.parts@, turned, turn, angle));
            if n > 0 {
                assert(entry.rotation.values().contains(angle));
            }
        }
        Ok(())
    }
}

/// Every part of the turned placements lies where `turn` took its
/// placement.
proof fn lemma_vehicle_parts_turned<F: Fn(i32, (i32, i32)) -> (i32, i32)>(
    placements: Seq<VehiclePartPlacement>,
    turned: Seq<(i32, i32)>,
    turn: F,
    angle: i32,
    pos: (u32, u32),
    k: int,
)
    requires
        turned_by(placements, turned, turn, angle),
        forall|a: i32, p: (i32, i32), t: (i32, i32)| call_ensures(turn, (a, p), t) ==> vehicle_part_fits(pos, t),
        0 <= k < spec_vehicle_parts(placements, turned).len(),
    ensures
        vehicle_part_fits(pos, spec_vehicle_parts(placements, turned)[k].0),
    decreases placements.len(),
{
    if placements.len() > 0 {
        let rest = spec_vehicle_parts(placements.drop_last(), turned.drop_last());
        let j = placements.len() - 1;
        assert(call_ensures(turn, (angle, (placements[j].x, placements[j].y)), turned[j]));
        if k < rest.len() {
            assert(turned_by(placements.drop_last(), turned.drop_last(), turn, angle)) by {
                assert forall|jj: int| 0 <= jj < placements.drop_last().len() implies call_ensures(
                    turn,
                    (angle, (placements.drop_last()[jj].x, placements.drop_last()[jj].y)),
                    #[trigger] turned.drop_last()[jj],
                ) by {
                    assert(call_ensures(turn, (angle, (placements[jj].x, placements[jj].y)), turned[jj]));
                }
            }
            lemma_vehicle_parts_turned(placements.drop_last(), turned.drop_last(), turn, angle, pos, k);
        }
    }
}

} // verus!
