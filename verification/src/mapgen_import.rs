use vstd::prelude::*;
use std::sync::Arc;
use crate::keyed_map::KeyedMap;
use crate::number_or_range::NumberOrRange;
use crate::place::{
    place_shift_fits, places_shift_fit, remap_places, spec_remap_places, MapPlaces, PlaceInnerComputers, PlaceInnerCorpses, PlaceInnerFields, PlaceInnerFurniture, PlaceInnerGaspumps,
    PlaceInnerItems, PlaceInnerMonster, PlaceInnerMonsters, PlaceInnerNested, PlaceInnerSigns, PlaceInnerTerrain,
    PlaceInnerToilets, PlaceInnerTraps, PlaceInnerVehicles, PlaceOuter,
};
use crate::map_data::{
    nested_converted, to_weighted_list, weighted_list_matches, MapGenComputer, MapGenCorpse, MapGenField,
    MapGenGaspump, MapGenItem, MapGenMonsters, MapGenNestedIntermediate, MapGenSign, MapGenTrap, MapGenVehicle,
};
use crate::properties::{
    CorpsesProperty, FieldsProperty, FurnitureProperty, GaspumpsProperty, ItemsProperty, MapProperties,
    MonstersProperty, NestedProperty, SignsProperty, TerrainProperty, TrapsProperty, VehiclesProperty,
};
use crate::map::{Cell, MapDataCollection, MapDataFlag, MapDataRotation, MapGen, MapGenCommon};
use crate::map_data::{SetIntermediate, Weight};
use crate::om_terrain::OmTerrain;
use crate::palettes::Parameter;
use crate::types::{CDDAIdentifier, DistributionInner, ParameterIdentifier, MapGenValue, MeabyVec, MeabyWeighted, Weighted};

verus! {

/// What the characters of a mapgen entry map to, by kind, as written.
pub struct CharacterMappings {
    pub terrain: KeyedMap<char, MapGenValue>,
    pub furniture: KeyedMap<char, MapGenValue>,
    pub items: KeyedMap<char, MeabyVec<MeabyWeighted<MapGenItem>>>,
    pub monsters: KeyedMap<char, MeabyVec<MeabyWeighted<MapGenMonsters>>>,
    pub monster: KeyedMap<char, MeabyVec<MeabyWeighted<MapGenMonsters>>>,
    pub nested: KeyedMap<char, MeabyVec<MeabyWeighted<MapGenNestedIntermediate>>>,
    pub toilets: KeyedMap<char, ()>,
    pub fields: KeyedMap<char, MeabyVec<MeabyWeighted<MapGenField>>>,
    pub computers: KeyedMap<char, MeabyVec<MeabyWeighted<MapGenComputer>>>,
    pub signs: KeyedMap<char, MeabyVec<MeabyWeighted<MapGenSign>>>,
    pub gaspumps: KeyedMap<char, MeabyVec<MeabyWeighted<MapGenGaspump>>>,
    pub traps: KeyedMap<char, MeabyVec<MeabyWeighted<MapGenTrap>>>,
    pub vehicles: KeyedMap<char, MeabyVec<MeabyWeighted<MapGenVehicle>>>,
    pub corpses: KeyedMap<char, MeabyVec<MeabyWeighted<MapGenCorpse>>>,
}

/// Whether a mapgen value is the plain identifier `id`.
pub open spec fn is_plain_id(v: MapGenValue, id: Seq<char>) -> bool {
    v matches MapGenValue::String(i) && i@ == id
}

/// The mapgen value of a trap entry.
pub open spec fn trap_value(t: MapGenTrap) -> MapGenValue {
    match t {
        MapGenTrap::TrapRef { trap } => trap,
        MapGenTrap::MapGenValue(v) => v,
    }
}

/// The nested chunks of a mapping, each with its weight, made of their
/// written form.
pub open spec fn nested_list_matches(r: Seq<Weighted<crate::map_data::MapGenNested>>, m: Seq<MeabyWeighted<MapGenNestedIntermediate>>) -> bool {
    &&& r.len() == m.len()
    &&& forall|i: int|
        0 <= i < m.len() ==> #[trigger] r[i].weight == m[i].spec_weight() && nested_converted(
            r[i].data,
            m[i].spec_data(),
        )
}

/// The trap values of a mapping, each with its weight.
pub open spec fn trap_list_matches(r: Seq<Weighted<MapGenValue>>, m: Seq<MeabyWeighted<MapGenTrap>>) -> bool {
    &&& r.len() == m.len()
    &&& forall|i: int|
        0 <= i < m.len() ==> #[trigger] r[i].weight == m[i].spec_weight() && r[i].data == trap_value(
            m[i].spec_data(),
        )
}

/// Two maps keyed by character with the same characters, whose values are
/// related by `rel`.
pub open spec fn same_keys_and<A, B>(a: KeyedMap<char, A>, b: KeyedMap<char, B>, rel: spec_fn(A, B) -> bool) -> bool {
    &&& a.map().dom() == b.map().dom()
    &&& forall|c: char| #[trigger] a.map().contains_key(c) ==> rel(a.map()[c], b.map()[c])
}

/// The mappings of a map made of the written mappings: terrain and
/// furniture keep their values; toilets place the furniture `f_toilet` and
/// computers `f_console`; the other kinds keep their entries with weights
/// (an unweighted entry weighs one), nested chunks in their converted form
/// and traps by their mapgen value.
pub open spec fn properties_converted(p: MapProperties, m: CharacterMappings) -> bool {
    &&& same_keys_and(m.terrain, p.terrain, |a: MapGenValue, b: TerrainProperty| b.mapgen_value == a)
    &&& same_keys_and(m.furniture, p.furniture, |a: MapGenValue, b: FurnitureProperty| b.mapgen_value == a)
    &&& same_keys_and(m.toilets, p.toilet, |a: (), b: FurnitureProperty| is_plain_id(b.mapgen_value, "f_toilet"@))
    &&& same_keys_and(
        m.computers,
        p.computer,
        |a: MeabyVec<MeabyWeighted<MapGenComputer>>, b: FurnitureProperty| is_plain_id(b.mapgen_value, "f_console"@),
    )
    &&& same_keys_and(
        m.monsters,
        p.monsters,
        |a: MeabyVec<MeabyWeighted<MapGenMonsters>>, b: MonstersProperty| weighted_list_matches(b.monster@, a.values()),
    )
    &&& same_keys_and(
        m.monster,
        p.monster,
        |a: MeabyVec<MeabyWeighted<MapGenMonsters>>, b: MonstersProperty| weighted_list_matches(b.monster@, a.values()),
    )
    &&& same_keys_and(
        m.nested,
        p.nested,
        |a: MeabyVec<MeabyWeighted<MapGenNestedIntermediate>>, b: NestedProperty| nested_list_matches(b.nested@, a.values()),
    )
    &&& same_keys_and(
        m.fields,
        p.field,
        |a: MeabyVec<MeabyWeighted<MapGenField>>, b: FieldsProperty| weighted_list_matches(b.field@, a.values()),
    )
    &&& same_keys_and(
        m.items,
        p.item_groups,
        |a: MeabyVec<MeabyWeighted<MapGenItem>>, b: ItemsProperty| weighted_list_matches(b.items@, a.values()),
    )
    &&& same_keys_and(
        m.signs,
        p.sign,
        |a: MeabyVec<MeabyWeighted<MapGenSign>>, b: SignsProperty| weighted_list_matches(b.signs@, a.values()),
    )
    &&& same_keys_and(
        m.gaspumps,
        p.gaspump,
        |a: MeabyVec<MeabyWeighted<MapGenGaspump>>, b: GaspumpsProperty| weighted_list_matches(b.gaspumps@, a.values()),
    )
    &&& same_keys_and(
        m.traps,
        p.trap,
        |a: MeabyVec<MeabyWeighted<MapGenTrap>>, b: TrapsProperty| trap_list_matches(b.trap@, a.values()),
    )
    &&& same_keys_and(
        m.vehicles,
        p.vehicle,
        |a: MeabyVec<MeabyWeighted<MapGenVehicle>>, b: VehiclesProperty| weighted_list_matches(b.vehicles@, a.values()),
    )
    &&& same_keys_and(
        m.corpses,
        p.corpse,
        |a: MeabyVec<MeabyWeighted<MapGenCorpse>>, b: CorpsesProperty| weighted_list_matches(b.corpses@, a.values()),
    )
}

pub(crate) fn terrain_property(v: MapGenValue) -> (o: TerrainProperty)
    ensures
        o.mapgen_value == v,
{
    TerrainProperty { mapgen_value: v }
}

pub(crate) fn furniture_property(v: MapGenValue) -> (o: FurnitureProperty)
    ensures
        o.mapgen_value == v,
{
    FurnitureProperty { mapgen_value: v }
}

fn toilet_property(v: ()) -> (o: FurnitureProperty)
    ensures
        is_plain_id(o.mapgen_value, "f_toilet"@),
{
    FurnitureProperty { mapgen_value: MapGenValue::String(CDDAIdentifier::from_str("f_toilet")) }
}

fn computer_property(v: MeabyVec<MeabyWeighted<MapGenComputer>>) -> (o: FurnitureProperty)
    ensures
        is_plain_id(o.mapgen_value, "f_console"@),
{
    FurnitureProperty { mapgen_value: MapGenValue::String(CDDAIdentifier::from_str("f_console")) }
}

pub(crate) fn monsters_property(v: MeabyVec<MeabyWeighted<MapGenMonsters>>) -> (o: MonstersProperty)
    ensures
        weighted_list_matches(o.monster@, v.values()),
{
    MonstersProperty { monster: to_weighted_list(v) }
}

fn nested_entry(w: MeabyWeighted<MapGenNestedIntermediate>) -> (o: Weighted<crate::map_data::MapGenNested>)
    ensures
        o.weight == w.spec_weight(),
        nested_converted(o.data, w.spec_data()),
{
    let w = w.to_weighted();
    Weighted::new(w.data.into_nested(), w.weight)
}

fn nested_property(v: MeabyVec<MeabyWeighted<MapGenNestedIntermediate>>) -> (o: NestedProperty)
    ensures
        nested_list_matches(o.nested@, v.values()),
{
    NestedProperty { nested: v.map(nested_entry) }
}

fn fields_property(v: MeabyVec<MeabyWeighted<MapGenField>>) -> (o: FieldsProperty)
    ensures
        weighted_list_matches(o.field@, v.values()),
{
    FieldsProperty { field: to_weighted_list(v) }
}

fn items_property(v: MeabyVec<MeabyWeighted<MapGenItem>>) -> (o: ItemsProperty)
    ensures
        weighted_list_matches(o.items@, v.values()),
{
    ItemsProperty { items: to_weighted_list(v) }
}

fn signs_property(v: MeabyVec<MeabyWeighted<MapGenSign>>) -> (o: SignsProperty)
    ensures
        weighted_list_matches(o.signs@, v.values()),
{
    SignsProperty { signs: to_weighted_list(v) }
}

fn gaspumps_property(v: MeabyVec<MeabyWeighted<MapGenGaspump>>) -> (o: GaspumpsProperty)
    ensures
        weighted_list_matches(o.gaspumps@, v.values()),
{
    GaspumpsProperty { gaspumps: to_weighted_list(v) }
}

fn trap_entry(w: MeabyWeighted<MapGenTrap>) -> (o: Weighted<MapGenValue>)
    ensures
        o.weight == w.spec_weight(),
        o.data == trap_value(w.spec_data()),
{
    let w = w.to_weighted();
    let id = match w.data {
        MapGenTrap::TrapRef { trap } => trap,
        MapGenTrap::MapGenValue(v) => v,
    };
    Weighted::new(id, w.weight)
}

fn traps_property(v: MeabyVec<MeabyWeighted<MapGenTrap>>) -> (o: TrapsProperty)
    ensures
        trap_list_matches(o.trap@, v.values()),
{
    TrapsProperty { trap: v.map(trap_entry) }
}

fn vehicles_property(v: MeabyVec<MeabyWeighted<MapGenVehicle>>) -> (o: VehiclesProperty)
    ensures
        weighted_list_matches(o.vehicles@, v.values()),
{
    VehiclesProperty { vehicles: to_weighted_list(v) }
}

fn corpses_property(v: MeabyVec<MeabyWeighted<MapGenCorpse>>) -> (o: CorpsesProperty)
    ensures
        weighted_list_matches(o.corpses@, v.values()),
{
    CorpsesProperty { corpses: to_weighted_list(v) }
}

impl CharacterMappings {
    /// The mappings of the map (see `properties_converted`).
    pub fn get_properties(self) -> (r: MapProperties)
        ensures
            properties_converted(r, self),
    {
        let ghost m = self;
        let CharacterMappings {
            terrain,
            furniture,
            items,
            monsters,
            monster,
            nested,
            toilets,
            fields,
            computers,
            signs,
            gaspumps,
            traps,
            vehicles,
            corpses,
        } = self;
        let r = MapProperties {
            terrain: terrain.map_values(terrain_property),
            furniture: furniture.map_values(furniture_property),
            monsters: monsters.map_values(monsters_property),
            nested: nested.map_values(nested_property),
            field: fields.map_values(fields_property),
            item_groups: items.map_values(items_property),
            computer: computers.map_values(computer_property),
            toilet: toilets.map_values(toilet_property),
            sign: signs.map_values(signs_property),
            gaspump: gaspumps.map_values(gaspumps_property),
            trap: traps.map_values(traps_property),
            vehicle: vehicles.map_values(vehicles_property),
            corpse: corpses.map_values(corpses_property),
            monster: monster.map_values(monsters_property),
        };
        proof {
            reveal_strlit("f_toilet");
            reveal_strlit("f_console");
        }
        r
    }
}

/// The placements of a mapgen entry by kind, as written, in coordinates of
/// the whole grid of maps.
pub struct PlaceLists {
    pub place_furniture: Vec<PlaceOuter<PlaceInnerFurniture>>,
    pub place_toilets: Vec<PlaceOuter<PlaceInnerToilets>>,
    pub place_terrain: Vec<PlaceOuter<PlaceInnerTerrain>>,
    pub place_computers: Vec<PlaceOuter<PlaceInnerComputers>>,
    pub place_signs: Vec<PlaceOuter<PlaceInnerSigns>>,
    pub place_traps: Vec<PlaceOuter<PlaceInnerTraps>>,
    pub place_gaspumps: Vec<PlaceOuter<PlaceInnerGaspumps>>,
    pub place_monsters: Vec<PlaceOuter<PlaceInnerMonsters>>,
    pub place_monster: Vec<PlaceOuter<PlaceInnerMonster>>,
    pub place_nested: Vec<PlaceOuter<PlaceInnerNested>>,
    pub place_fields: Vec<PlaceOuter<PlaceInnerFields>>,
    pub place_items: Vec<PlaceOuter<PlaceInnerItems>>,
    pub place_vehicles: Vec<PlaceOuter<PlaceInnerVehicles>>,
    pub place_corpses: Vec<PlaceOuter<PlaceInnerCorpses>>,
}

/// The same placements with the placed value shared.
pub open spec fn shared_places<T>(r: Seq<PlaceOuter<Arc<T>>>, s: Seq<PlaceOuter<T>>) -> bool {
    &&& r.len() == s.len()
    &&& forall|i: int|
        0 <= i < s.len() ==> #[trigger] r[i].x == s[i].x && r[i].y == s[i].y && r[i].repeat == s[i].repeat
            && r[i].chance == s[i].chance && *r[i].inner == s[i].inner
}

fn share_places<T>(list: Vec<PlaceOuter<T>>) -> (r: Vec<PlaceOuter<Arc<T>>>)
    ensures
        shared_places(r@, list@),
{
    let ghost vals = list@;
    let n = list.len();
    let mut rev = crate::types::reverse_vec(list);
    let mut out: Vec<PlaceOuter<Arc<T>>> = Vec::new();
    let mut i: usize = 0;
    while i < n
        invariant
            n == vals.len(),
            i <= n,
            rev@.len() == n - i,
            forall|j: int| 0 <= j < n - i ==> #[trigger] rev@[j] == vals[n - 1 - j],
            out@.len() == i,
            forall|j: int|
                0 <= j < i ==> #[trigger] out@[j].x == vals[j].x && out@[j].y == vals[j].y && out@[j].repeat
                    == vals[j].repeat && out@[j].chance == vals[j].chance && *out@[j].inner == vals[j].inner,
        decreases n - i,
    {
        let p = rev.pop().unwrap();
        assert(p == vals[i as int]);
        let PlaceOuter { inner, x, y, repeat, chance } = p;
        out.push(PlaceOuter { inner: Arc::new(inner), x, y, repeat, chance });
        i = i + 1;
    }
    out
}

/// A monster placement takes the placement's chance as its own.
pub open spec fn monster_chance_set(m: MapGenMonsters, w: MapGenMonsters, chance: i32) -> bool {
    &&& m.id == w.id
    &&& m.pack_size == w.pack_size
    &&& m.chance == Some(NumberOrRange::<u32>::Number(chance as u32))
}

pub open spec fn monster_places<T>(
    r: Seq<PlaceOuter<Arc<T>>>,
    s: Seq<PlaceOuter<T>>,
    value: spec_fn(T) -> MapGenMonsters,
) -> bool {
    &&& r.len() == s.len()
    &&& forall|i: int|
        0 <= i < s.len() ==> #[trigger] r[i].x == s[i].x && r[i].y == s[i].y && r[i].repeat == s[i].repeat
            && r[i].chance == s[i].chance && monster_chance_set(value(*r[i].inner), value(s[i].inner), s[i].chance)
}

fn share_monsters_places(list: Vec<PlaceOuter<PlaceInnerMonsters>>) -> (r: Vec<PlaceOuter<Arc<PlaceInnerMonsters>>>)
    ensures
        monster_places(r@, list@, |p: PlaceInnerMonsters| p.value),
{
    let ghost vals = list@;
    let n = list.len();
    let mut rev = crate::types::reverse_vec(list);
    let mut out: Vec<PlaceOuter<Arc<PlaceInnerMonsters>>> = Vec::new();
    let mut i: usize = 0;
    while i < n
        invariant
            n == vals.len(),
            i <= n,
            rev@.len() == n - i,
            forall|j: int| 0 <= j < n - i ==> #[trigger] rev@[j] == vals[n - 1 - j],
            out@.len() == i,
            forall|j: int|
                0 <= j < i ==> #[trigger] out@[j].x == vals[j].x && out@[j].y == vals[j].y && out@[j].repeat
                    == vals[j].repeat && out@[j].chance == vals[j].chance && monster_chance_set(
                    out@[j].inner.value,
                    vals[j].inner.value,
                    vals[j].chance,
                ),
        decreases n - i,
    {
        let p = rev.pop().unwrap();
        assert(p == vals[i as int]);
        let PlaceOuter { inner, x, y, repeat, chance } = p;
        let mut value = inner.value;
        value.chance = Some(NumberOrRange::Number(chance as u32));
        out.push(PlaceOuter { inner: Arc::new(PlaceInnerMonsters { value }), x, y, repeat, chance });
        i = i + 1;
    }
    out
}

fn share_monster_places(list: Vec<PlaceOuter<PlaceInnerMonster>>) -> (r: Vec<PlaceOuter<Arc<PlaceInnerMonster>>>)
    ensures
        monster_places(r@, list@, |p: PlaceInnerMonster| p.value),
{
    let ghost vals = list@;
    let n = list.len();
    let mut rev = crate::types::reverse_vec(list);
    let mut out: Vec<PlaceOuter<Arc<PlaceInnerMonster>>> = Vec::new();
    let mut i: usize = 0;
    while i < n
        invariant
            n == vals.len(),
            i <= n,
            rev@.len() == n - i,
            forall|j: int| 0 <= j < n - i ==> #[trigger] rev@[j] == vals[n - 1 - j],
            out@.len() == i,
            forall|j: int|
                0 <= j < i ==> #[trigger] out@[j].x == vals[j].x && out@[j].y == vals[j].y && out@[j].repeat
                    == vals[j].repeat && out@[j].chance == vals[j].chance && monster_chance_set(
                    out@[j].inner.value,
                    vals[j].inner.value,
                    vals[j].chance,
                ),
        decreases n - i,
    {
        let p = rev.pop().unwrap();
        assert(p == vals[i as int]);
        let PlaceOuter { inner, x, y, repeat, chance } = p;
        let mut value = inner.value;
        value.chance = Some(NumberOrRange::Number(chance as u32));
        out.push(PlaceOuter { inner: Arc::new(PlaceInnerMonster { value }), x, y, repeat, chance });
        i = i + 1;
    }
    out
}

/// The placements with the placed values shared, every monster placement
/// taking the placement's chance.
pub open spec fn places_shared(r: MapPlaces, l: PlaceLists) -> bool {
    &&& shared_places(r.furniture@, l.place_furniture@)
    &&& shared_places(r.toilets@, l.place_toilets@)
    &&& shared_places(r.terrain@, l.place_terrain@)
    &&& shared_places(r.computers@, l.place_computers@)
    &&& shared_places(r.signs@, l.place_signs@)
    &&& shared_places(r.traps@, l.place_traps@)
    &&& shared_places(r.gaspumps@, l.place_gaspumps@)
    &&& monster_places(r.monsters@, l.place_monsters@, |p: PlaceInnerMonsters| p.value)
    &&& monster_places(r.monster@, l.place_monster@, |p: PlaceInnerMonster| p.value)
    &&& shared_places(r.nested@, l.place_nested@)
    &&& shared_places(r.fields@, l.place_fields@)
    &&& shared_places(r.items@, l.place_items@)
    &&& shared_places(r.vehicles@, l.place_vehicles@)
    &&& shared_places(r.corpses@, l.place_corpses@)
}

impl PlaceLists {
    pub fn into_shared(self) -> (r: MapPlaces)
        ensures
            places_shared(r, self),
    {
        MapPlaces {
            furniture: share_places(self.place_furniture),
            toilets: share_places(self.place_toilets),
            terrain: share_places(self.place_terrain),
            computers: share_places(self.place_computers),
            signs: share_places(self.place_signs),
            traps: share_places(self.place_traps),
            gaspumps: share_places(self.place_gaspumps),
            monsters: share_monsters_places(self.place_monsters),
            monster: share_monster_places(self.place_monster),
            nested: share_places(self.place_nested),
            fields: share_places(self.place_fields),
            items: share_places(self.place_items),
            vehicles: share_places(self.place_vehicles),
            corpses: share_places(self.place_corpses),
        }
    }
}

/// The offset of the map at grid position `c` along one axis, for maps of
/// width `w`, as the code computes it (`c * w` as a signed number).
pub open spec fn grid_offset(c: u32, w: u32) -> int {
    ((c * w) as u32) as i32 as int
}

/// Whether every placement can be moved to the map at `coords` without
/// overflow.
pub open spec fn places_fit(p: MapPlaces, coords: (u32, u32), size: (u32, u32)) -> bool {
    let (cx, cy) = coords;
    let dx = grid_offset(cx, 24);
    let dy = grid_offset(cy, 24);
    let sx = grid_offset(cx, size.0);
    let sy = grid_offset(cy, size.1);
    &&& cx * 24 <= u32::MAX
    &&& cy * 24 <= u32::MAX
    &&& cx * size.0 <= u32::MAX
    &&& cy * size.1 <= u32::MAX
    &&& places_shift_fit(p.furniture@, dx, dy)
    &&& places_shift_fit(p.toilets@, sx, sy)
    &&& places_shift_fit(p.terrain@, dx, dy)
    &&& places_shift_fit(p.computers@, sx, sy)
    &&& places_shift_fit(p.signs@, sx, sy)
    &&& places_shift_fit(p.traps@, sx, sy)
    &&& places_shift_fit(p.gaspumps@, sx, sy)
    &&& places_shift_fit(p.monsters@, dx, dy)
    &&& places_shift_fit(p.monster@, dx, dy)
    &&& places_shift_fit(p.nested@, dx, dy)
    &&& places_shift_fit(p.fields@, sx, sy)
    &&& places_shift_fit(p.items@, sx, sy)
    &&& places_shift_fit(p.vehicles@, sx, sy)
    &&& places_shift_fit(p.corpses@, sx, sy)
}

/// The placements of the map at `coords`: furniture, terrain, monsters and
/// nested chunks by the default map size of 24 by 24, the other kinds by the
/// size of the map, each moved into the map's coordinates and kept when it
/// falls on the map.
pub open spec fn places_remapped(r: MapPlaces, p: MapPlaces, coords: (u32, u32), size: (u32, u32)) -> bool {
    let (cx, cy) = coords;
    let dx = grid_offset(cx, 24);
    let dy = grid_offset(cy, 24);
    let sx = grid_offset(cx, size.0);
    let sy = grid_offset(cy, size.1);
    let w = size.0 as i32 as int;
    let h = size.1 as i32 as int;
    &&& r.furniture@ == spec_remap_places(p.furniture@, dx, dy, 24, 24)
    &&& r.toilets@ == spec_remap_places(p.toilets@, sx, sy, w, h)
    &&& r.terrain@ == spec_remap_places(p.terrain@, dx, dy, 24, 24)
    &&& r.computers@ == spec_remap_places(p.computers@, sx, sy, w, h)
    &&& r.signs@ == spec_remap_places(p.signs@, sx, sy, w, h)
    &&& r.traps@ == spec_remap_places(p.traps@, sx, sy, w, h)
    &&& r.gaspumps@ == spec_remap_places(p.gaspumps@, sx, sy, w, h)
    &&& r.monsters@ == spec_remap_places(p.monsters@, dx, dy, 24, 24)
    &&& r.monster@ == spec_remap_places(p.monster@, dx, dy, 24, 24)
    &&& r.nested@ == spec_remap_places(p.nested@, dx, dy, 24, 24)
    &&& r.fields@ == spec_remap_places(p.fields@, sx, sy, w, h)
    &&& r.items@ == spec_remap_places(p.items@, sx, sy, w, h)
    &&& r.vehicles@ == spec_remap_places(p.vehicles@, sx, sy, w, h)
    &&& r.corpses@ == spec_remap_places(p.corpses@, sx, sy, w, h)
}

impl MapPlaces {
    /// The placements of the map at `map_coordinates` of the grid (see
    /// `places_remapped`).
    pub fn get_place(&self, map_coordinates: (u32, u32), map_size: (u32, u32)) -> (r: MapPlaces)
        requires
            places_fit(*self, map_coordinates, map_size),
        ensures
            places_remapped(r, *self, map_coordinates, map_size),
    {
        let (cx, cy) = map_coordinates;
        let dx = (cx * 24) as i32;
        let dy = (cy * 24) as i32;
        let sx = (cx * map_size.0) as i32;
        let sy = (cy * map_size.1) as i32;
        let w = map_size.0 as i32;
        let h = map_size.1 as i32;
        MapPlaces {
            furniture: remap_places(&self.furniture, dx, dy, 24, 24),
            toilets: remap_places(&self.toilets, sx, sy, w, h),
            terrain: remap_places(&self.terrain, dx, dy, 24, 24),
            computers: remap_places(&self.computers, sx, sy, w, h),
            signs: remap_places(&self.signs, sx, sy, w, h),
            traps: remap_places(&self.traps, sx, sy, w, h),
            gaspumps: remap_places(&self.gaspumps, sx, sy, w, h),
            monsters: remap_places(&self.monsters, dx, dy, 24, 24),
            monster: remap_places(&self.monster, dx, dy, 24, 24),
            nested: remap_places(&self.nested, dx, dy, 24, 24),
            fields: remap_places(&self.fields, sx, sy, w, h),
            items: remap_places(&self.items, sx, sy, w, h),
            vehicles: remap_places(&self.vehicles, sx, sy, w, h),
            corpses: remap_places(&self.corpses, sx, sy, w, h),
        }
    }
}

/// Whether every written placement can be moved to the map at `coords`
/// without overflow.
pub open spec fn input_places_fit(l: PlaceLists, coords: (u32, u32), size: (u32, u32)) -> bool {
    let (cx, cy) = coords;
    let dx = grid_offset(cx, 24);
    let dy = grid_offset(cy, 24);
    let sx = grid_offset(cx, size.0);
    let sy = grid_offset(cy, size.1);
    &&& cx * 24 <= u32::MAX
    &&& cy * 24 <= u32::MAX
    &&& cx * size.0 <= u32::MAX
    &&& cy * size.1 <= u32::MAX
    &&& places_shift_fit(l.place_furniture@, dx, dy)
    &&& places_shift_fit(l.place_toilets@, sx, sy)
    &&& places_shift_fit(l.place_terrain@, dx, dy)
    &&& places_shift_fit(l.place_computers@, sx, sy)
    &&& places_shift_fit(l.place_signs@, sx, sy)
    &&& places_shift_fit(l.place_traps@, sx, sy)
    &&& places_shift_fit(l.place_gaspumps@, sx, sy)
    &&& places_shift_fit(l.place_monsters@, dx, dy)
    &&& places_shift_fit(l.place_monster@, dx, dy)
    &&& places_shift_fit(l.place_nested@, dx, dy)
    &&& places_shift_fit(l.place_fields@, sx, sy)
    &&& places_shift_fit(l.place_items@, sx, sy)
    &&& places_shift_fit(l.place_vehicles@, sx, sy)
    &&& places_shift_fit(l.place_corpses@, sx, sy)
}

proof fn lemma_shared_fit<T>(r: Seq<PlaceOuter<Arc<T>>>, s: Seq<PlaceOuter<T>>, ox: int, oy: int)
    requires
        shared_places(r, s),
        places_shift_fit(s, ox, oy),
    ensures
        places_shift_fit(r, ox, oy),
{
    assert forall|i: int| 0 <= i < r.len() implies place_shift_fits(#[trigger] r[i], ox, oy) by {
        assert(place_shift_fits(s[i], ox, oy));
    }
}

proof fn lemma_monster_fit<T>(r: Seq<PlaceOuter<Arc<T>>>, s: Seq<PlaceOuter<T>>, f: spec_fn(T) -> MapGenMonsters, ox: int, oy: int)
    requires
        monster_places(r, s, f),
        places_shift_fit(s, ox, oy),
    ensures
        places_shift_fit(r, ox, oy),
{
    assert forall|i: int| 0 <= i < r.len() implies place_shift_fits(#[trigger] r[i], ox, oy) by {
        assert(place_shift_fits(s[i], ox, oy));
    }
}

proof fn lemma_places_fit(p: MapPlaces, l: PlaceLists, coords: (u32, u32), size: (u32, u32))
    requires
        places_shared(p, l),
        input_places_fit(l, coords, size),
    ensures
        places_fit(p, coords, size),
{
    let (cx, cy) = coords;
    let dx = grid_offset(cx, 24);
    let dy = grid_offset(cy, 24);
    let sx = grid_offset(cx, size.0);
    let sy = grid_offset(cy, size.1);
    lemma_shared_fit(p.furniture@, l.place_furniture@, dx, dy);
    lemma_shared_fit(p.toilets@, l.place_toilets@, sx, sy);
    lemma_shared_fit(p.terrain@, l.place_terrain@, dx, dy);
    lemma_shared_fit(p.computers@, l.place_computers@, sx, sy);
    lemma_shared_fit(p.signs@, l.place_signs@, sx, sy);
    lemma_shared_fit(p.traps@, l.place_traps@, sx, sy);
    lemma_shared_fit(p.gaspumps@, l.place_gaspumps@, sx, sy);
    lemma_monster_fit(p.monsters@, l.place_monsters@, |q: PlaceInnerMonsters| q.value, dx, dy);
    lemma_monster_fit(p.monster@, l.place_monster@, |q: PlaceInnerMonster| q.value, dx, dy);
    lemma_shared_fit(p.nested@, l.place_nested@, dx, dy);
    lemma_shared_fit(p.fields@, l.place_fields@, sx, sy);
    lemma_shared_fit(p.items@, l.place_items@, sx, sy);
    lemma_shared_fit(p.vehicles@, l.place_vehicles@, sx, sy);
    lemma_shared_fit(p.corpses@, l.place_corpses@, sx, sy);
}

/// The character at column `x` of row `y`, a space past the rows' end.
pub open spec fn grid_char(rows: Option<Vec<String>>, y: int, x: int) -> char {
    match rows {
        None => ' ',
        Some(rs) => if 0 <= y < rs@.len() && 0 <= x < rs@[y]@.len() {
            rs@[y]@[x]
        } else {
            ' '
        },
    }
}

/// The cells of a map of `w` by `h` read from the rows.
pub open spec fn spec_grid_cells(rows: Option<Vec<String>>, w: u32, h: u32) -> Map<(u32, u32), Cell> {
    Map::new(
        |p: (u32, u32)| p.0 < w && p.1 < h,
        |p: (u32, u32)| Cell { character: grid_char(rows, p.1 as int, p.0 as int) },
    )
}

/// The character at `(x, y)` of a text, a space past its end.
fn char_at(rows: &Option<Vec<String>>, y: u32, x: u32) -> (r: char)
    ensures
        r == grid_char(*rows, y as int, x as int),
{
    match rows {
        None => ' ',
        Some(rs) => {
            if (y as usize) < rs.len() {
                let line = rs[y as usize].as_str();
                let n = line.unicode_len();
                if (x as usize) < n {
                    line.get_char(x as usize)
                } else {
                    ' '
                }
            } else {
                ' '
            }
        },
    }
}

/// The cells of a map of `w` by `h`, each holding the character of its row
/// and column, a space where the rows end.
pub fn grid_cells(rows: &Option<Vec<String>>, w: u32, h: u32) -> (r: KeyedMap<(u32, u32), Cell>)
    ensures
        r.map() == spec_grid_cells(*rows, w, h),
{
    let mut cells: KeyedMap<(u32, u32), Cell> = KeyedMap::new();
    let mut y: u32 = 0;
    while y < h
        invariant
            y <= h,
            cells.map() == Map::new(
                |p: (u32, u32)| p.0 < w && p.1 < y,
                |p: (u32, u32)| Cell { character: grid_char(*rows, p.1 as int, p.0 as int) },
            ),
        decreases h - y,
    {
        let mut x: u32 = 0;
        while x < w
            invariant
                y < h,
                x <= w,
                cells.map() == Map::new(
                    |p: (u32, u32)| p.0 < w && (p.1 < y || (p.1 == y && p.0 < x)),
                    |p: (u32, u32)| Cell { character: grid_char(*rows, p.1 as int, p.0 as int) },
                ),
            decreases w - x,
        {
            let c = char_at(rows, y, x);
            cells.insert((x, y), Cell { character: c });
            x = x + 1;
            assert(cells.map() =~= Map::new(
                |p: (u32, u32)| p.0 < w && (p.1 < y || (p.1 == y && p.0 < x)),
                |p: (u32, u32)| Cell { character: grid_char(*rows, p.1 as int, p.0 as int) },
            ));
        }
        y = y + 1;
        assert(cells.map() =~= Map::new(
            |p: (u32, u32)| p.0 < w && p.1 < y,
            |p: (u32, u32)| Cell { character: grid_char(*rows, p.1 as int, p.0 as int) },
        ));
    }
    cells
}

/// The cells of the map at row `r` and column `c` of a grid of maps of 24
/// by 24 cells: each row of the map is the part of the text row that the
/// map covers (a space everywhere without rows); a text row that ends early
/// leaves the rest of the map's row without cells.
pub open spec fn spec_nested_cells(rows: Option<Vec<String>>, r: int, c: int) -> Map<(u32, u32), Cell> {
    nested_cells_upto(rows, r, c, 24, 0)
}

/// Whether the map at row `r` and column `c` has a cell at `p`.
pub open spec fn nested_cell_exists(rows: Option<Vec<String>>, r: int, c: int, p: (u32, u32)) -> bool {
    p.0 < 24 && p.1 < 24 && match rows {
        None => true,
        Some(rs) => c * 24 + p.0 < rs@[r * 24 + p.1]@.len(),
    }
}

pub open spec fn nested_cell_char(rows: Option<Vec<String>>, r: int, c: int, p: (u32, u32)) -> char {
    match rows {
        None => ' ',
        Some(rs) => rs@[r * 24 + p.1]@[c * 24 + p.0],
    }
}

/// The cells of the rows before `y` and of row `y` before column `x`.
pub open spec fn nested_cells_upto(rows: Option<Vec<String>>, r: int, c: int, y: int, x: int) -> Map<(u32, u32), Cell> {
    Map::new(
        |p: (u32, u32)| nested_cell_exists(rows, r, c, p) && (p.1 < y || (p.1 == y && p.0 < x)),
        |p: (u32, u32)| Cell { character: nested_cell_char(rows, r, c, p) },
    )
}

pub fn nested_cells(rows: &Option<Vec<String>>, r: u32, c: u32) -> (m: KeyedMap<(u32, u32), Cell>)
    requires
        rows matches Some(rs) ==> r * 24 + 24 <= rs@.len(),
        r * 24 + 24 <= u32::MAX,
        c * 24 + 24 <= u32::MAX,
    ensures
        m.map() == spec_nested_cells(*rows, r as int, c as int),
{
    let mut cells: KeyedMap<(u32, u32), Cell> = KeyedMap::new();
    assert(cells.map() =~= nested_cells_upto(*rows, r as int, c as int, 0, 0));
    let mut y: u32 = 0;
    while y < 24
        invariant
            y <= 24,
            rows matches Some(rs) ==> r * 24 + 24 <= rs@.len(),
            r * 24 + 24 <= u32::MAX,
            c * 24 + 24 <= u32::MAX,
            cells.map() == nested_cells_upto(*rows, r as int, c as int, y as int, 0),
        decreases 24 - y,
    {
        let line: Option<&str> = match rows {
            None => None,
            Some(rs) => Some(rs[(r * 24 + y) as usize].as_str()),
        };
        let n: usize = match line {
            None => 24,
            Some(l) => l.unicode_len(),
        };
        let mut x: u32 = 0;
        while x < 24
            invariant
                y < 24,
                x <= 24,
                rows matches Some(rs) ==> r * 24 + 24 <= rs@.len(),
                r * 24 + 24 <= u32::MAX,
                c * 24 + 24 <= u32::MAX,
                match *rows {
                    None => line is None && n == 24,
                    Some(rs) => line matches Some(l) && l@ == rs@[r * 24 + y]@ && n == l@.len(),
                },
                cells.map() == nested_cells_upto(*rows, r as int, c as int, y as int, x as int),
            decreases 24 - x,
        {
            let col = (c * 24 + x) as usize;
            let ghost before = cells.map();
            match line {
                None => {
                    cells.insert((x, y), Cell { character: ' ' });
                },
                Some(l) => {
                    if col < n {
                        let ch = l.get_char(col);
                        cells.insert((x, y), Cell { character: ch });
                    }
                },
            }
            x = x + 1;
            assert(cells.map() =~= nested_cells_upto(*rows, r as int, c as int, y as int, x as int));
        }
        y = y + 1;
        assert(cells.map() =~= nested_cells_upto(*rows, r as int, c as int, y as int, 0));
    }
    cells
}

/// The common part of a mapgen object as written.
pub struct CDDAMapDataObjectCommonIntermediate {
    pub palettes: Vec<MapGenValue>,
    pub parameters: KeyedMap<ParameterIdentifier, Parameter>,
    pub set: Vec<SetIntermediate>,
    pub flags: Vec<MapDataFlag>,
    pub predecessor_mapgen: Option<CDDAIdentifier>,
    pub mappings: CharacterMappings,
    pub places: PlaceLists,
}

/// A mapgen object as written: the fill terrain, the rows of characters,
/// the size, and the common part.
pub struct CDDAMapDataObjectIntermediate {
    pub fill_ter: Option<DistributionInner>,
    pub rows: Option<Vec<String>>,
    pub mapgen_size: Option<(u32, u32)>,
    pub common: CDDAMapDataObjectCommonIntermediate,
}

/// A mapgen entry of the game data.
pub struct CDDAMapDataIntermediate {
    pub update_mapgen_id: Option<CDDAIdentifier>,
    pub om_terrain: Option<OmTerrain>,
    pub nested_mapgen_id: Option<CDDAIdentifier>,
    pub weight: Option<Weight>,
    pub object: CDDAMapDataObjectIntermediate,
}

pub enum IntoMapDataCollectionError {
    MissingNestedOmTerrain,
}

/// The size of the maps of an entry: the written size, else 24 by 24.
pub open spec fn entry_map_size(o: CDDAMapDataObjectIntermediate) -> (u32, u32) {
    match o.mapgen_size {
        Some(s) => s,
        None => (24, 24),
    }
}

/// The grid of maps that an entry covers: one map, or the grid of its
/// nested overmap terrains (rows by the length of the first row).
pub open spec fn entry_grid(e: CDDAMapDataIntermediate) -> Option<(int, int)> {
    match e.om_terrain {
        Some(OmTerrain::Nested(n)) => if n@.len() == 0 {
            None
        } else {
            Some((n@[0]@.len() as int, n@.len() as int))
        },
        _ => Some((1, 1)),
    }
}

pub open spec fn entry_is_nested(e: CDDAMapDataIntermediate) -> bool {
    e.om_terrain matches Some(OmTerrain::Nested(_))
}

/// What the maps of an entry share, made of the entry.
pub open spec fn common_imported(c: MapGenCommon, o: CDDAMapDataObjectIntermediate) -> bool {
    &&& c.fill == o.fill_ter
    &&& c.predecessor == o.common.predecessor_mapgen
    &&& c.parameters == o.common.parameters
    &&& c.palettes == o.common.palettes
    &&& c.flags == o.common.flags
    &&& properties_converted(c.properties, o.common.mappings)
}

/// Whether the entry can be read without a panic or an overflow: the rows
/// of a grid of maps must cover every map of the grid, and every placement
/// must fit every map it is moved to.
pub open spec fn entry_readable(e: CDDAMapDataIntermediate) -> bool {
    let size = entry_map_size(e.object);
    match entry_grid(e) {
        None => true,
        Some((cols, rows)) => {
            &&& cols * 24 + 24 <= u32::MAX
            &&& rows * 24 + 24 <= u32::MAX
            &&& (entry_is_nested(e) && e.object.rows is Some) ==> rows * 24 <= e.object.rows->0@.len()
            &&& forall|cx: u32, cy: u32|
                cx < cols && cy < rows ==> #[trigger] input_places_fit(e.object.common.places, (cx, cy), size)
        },
    }
}

/// Whether `m` is the map that entry `e` makes at position `p` of its grid,
/// with the entry's placements `shared` and shared data `common` (as
/// `CDDAMapDataIntermediate::try_into` makes each map).
pub open spec fn entry_map_at(
    m: MapGen,
    e: CDDAMapDataIntermediate,
    p: (u32, u32),
    shared: MapPlaces,
    common: MapGenCommon,
) -> bool {
    let size = entry_map_size(e.object);
    &&& places_shared(shared, e.object.common.places)
    &&& common_imported(common, e.object)
    &&& m.id@ == "map_data_default"@
    &&& m.rotation == MapDataRotation::Deg0
    &&& m.map_size == size
    &&& *m.common == common
    &&& places_remapped(m.place, shared, p, size)
    &&& m.cells.map() == if entry_is_nested(e) {
        spec_nested_cells(e.object.rows, p.1 as int, p.0 as int)
    } else {
        spec_grid_cells(e.object.rows, size.0, size.1)
    }
}

/// The positions of the grid of maps of an entry.
pub open spec fn grid_positions(e: CDDAMapDataIntermediate) -> Set<(u32, u32)> {
    let (cols, rows) = entry_grid(e)->0;
    Set::new(|p: (u32, u32)| p.0 < cols && p.1 < rows)
}

/// Whether every map of the collection is the map that entry `e` makes at
/// its position, with the placements `shared` and shared data `common`.
pub open spec fn maps_made(c: MapDataCollection, e: CDDAMapDataIntermediate, shared: MapPlaces, common: MapGenCommon) -> bool {
    forall|p: (u32, u32)| #[trigger] c.maps.map().contains_key(p) ==> entry_map_at(c.maps.map()[p], e, p, shared, common)
}

impl CDDAMapDataIntermediate {
    /// The maps of the entry. An entry for a grid of overmap terrains gives
    /// a map for each position of the grid, each with its part of the rows
    /// and the placements that fall on it; an empty grid is an error. Any
    /// other entry gives one map at `(0, 0)` of the written size, its cells
    /// read from the rows (spaces where they end). All maps share the fill,
    /// predecessor, parameters, palettes, flags and mappings of the entry.
    #[verifier::spinoff_prover]
    pub fn try_into(self) -> (r: Result<MapDataCollection, IntoMapDataCollectionError>)
        requires
            entry_readable(self),
        ensures
            entry_grid(self) is None <==> r is Err,
            r matches Ok(c) ==> c.maps.map().dom() == grid_positions(self),
            r matches Ok(c) ==> exists|shared: MapPlaces, common: MapGenCommon| #[trigger] maps_made(c, self, shared, common),
    {
        let ghost old_self = self;
        let CDDAMapDataIntermediate { update_mapgen_id, om_terrain, nested_mapgen_id, weight, object } = self;
        let CDDAMapDataObjectIntermediate { fill_ter, rows, mapgen_size, common } = object;
        let CDDAMapDataObjectCommonIntermediate {
            palettes,
            parameters,
            set,
            flags,
            predecessor_mapgen,
            mappings,
            places,
        } = common;
        let size = match mapgen_size {
            Some(s) => s,
            None => (24u32, 24u32),
        };
        let (num_cols, num_rows, nested): (usize, usize, bool) = match &om_terrain {
            Some(OmTerrain::Nested(n)) => {
                if n.len() == 0 {
                    return Err(IntoMapDataCollectionError::MissingNestedOmTerrain);
                }
                (n[0].len(), n.len(), true)
            },
            _ => (1, 1, false),
        };
        let ghost gplaces = places;
        let shared = places.into_shared();
        let properties = mappings.get_properties();
        let c = MapGenCommon { fill: fill_ter, predecessor: predecessor_mapgen, parameters, palettes, flags, properties };
        let ghost cm = c;
        let common = Arc::new(c);
        let mut maps: KeyedMap<(u32, u32), MapGen> = KeyedMap::new();
        let mut row: usize = 0;
        while row < num_rows
            invariant
                row <= num_rows,
                entry_grid(old_self) == Some((num_cols as int, num_rows as int)),
                nested == entry_is_nested(old_self),
                size == entry_map_size(old_self.object),
                rows == old_self.object.rows,
                gplaces == old_self.object.common.places,
                entry_readable(old_self),
                places_shared(shared, gplaces),
                common_imported(cm, old_self.object),
                *common == cm,
                maps.map().dom() == Set::new(|p: (u32, u32)| p.0 < num_cols && p.1 < row),
                forall|p: (u32, u32)| #[trigger]
                    maps.map().contains_key(p) ==> {
                        let m = maps.map()[p];
                        &&& m.id@ == "map_data_default"@
                        &&& m.rotation == MapDataRotation::Deg0
                        &&& m.map_size == size
                        &&& *m.common == cm
                        &&& places_remapped(m.place, shared, p, size)
                        &&& m.cells.map() == if nested {
                            spec_nested_cells(rows, p.1 as int, p.0 as int)
                        } else {
                            spec_grid_cells(rows, size.0, size.1)
                        }
                    },
            decreases num_rows - row,
        {
            let mut col: usize = 0;
            while col < num_cols
                invariant
                    row < num_rows,
                    col <= num_cols,
                    entry_grid(old_self) == Some((num_cols as int, num_rows as int)),
                    nested == entry_is_nested(old_self),
                    size == entry_map_size(old_self.object),
                    rows == old_self.object.rows,
                    gplaces == old_self.object.common.places,
                    entry_readable(old_self),
                    places_shared(shared, gplaces),
                    common_imported(cm, old_self.object),
                    *common == cm,
                    maps.map().dom() == Set::new(
                        |p: (u32, u32)| p.0 < num_cols && (p.1 < row || (p.1 == row && p.0 < col)),
                    ),
                    forall|p: (u32, u32)| #[trigger]
                        maps.map().contains_key(p) ==> {
                            let m = maps.map()[p];
                            &&& m.id@ == "map_data_default"@
                            &&& m.rotation == MapDataRotation::Deg0
                            &&& m.map_size == size
                            &&& *m.common == cm
                            &&& places_remapped(m.place, shared, p, size)
                            &&& m.cells.map() == if nested {
                                spec_nested_cells(rows, p.1 as int, p.0 as int)
                            } else {
                                spec_grid_cells(rows, size.0, size.1)
                            }
                        },
                decreases num_cols - col,
            {
                let cx = col as u32;
                let cy = row as u32;
                assert(input_places_fit(gplaces, (cx, cy), size));
                proof {
                    lemma_places_fit(shared, gplaces, (cx, cy), size);
                }
                let cells = if nested {
                    nested_cells(&rows, cy, cx)
                } else {
                    grid_cells(&rows, size.0, size.1)
                };
                let place = shared.get_place((cx, cy), size);
                let m = MapGen {
                    id: CDDAIdentifier::from_str("map_data_default"),
                    cells,
                    map_size: size,
                    rotation: MapDataRotation::Deg0,
                    place,
                    common: common.clone(),
                };
                maps.insert((cx, cy), m);
                col = col + 1;
                assert(maps.map().dom() =~= Set::new(
                    |p: (u32, u32)| p.0 < num_cols && (p.1 < row || (p.1 == row && p.0 < col)),
                ));
            }
            row = row + 1;
            assert(maps.map().dom() =~= Set::new(|p: (u32, u32)| p.0 < num_cols && p.1 < row));
        }
        let r = MapDataCollection { maps };
        assert(maps_made(r, old_self, shared, cm));
        assert(maps_made(r, self, shared, cm));
        assert(r.maps.map().dom() == grid_positions(old_self));
        let res: Result<MapDataCollection, IntoMapDataCollectionError> = Ok(r);
        assert(res matches Ok(c) && maps_made(c, self, shared, cm));
        assert(res matches Ok(c) ==> exists|s: MapPlaces, cc: MapGenCommon| #[trigger] maps_made(c, self, s, cc));
        res
    }
}

} // verus!
