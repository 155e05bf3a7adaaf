use vstd::prelude::*;
use crate::cdda_json::CDDAVehiclePart;
use crate::keyed_map::{KeyedMap, MapKey};
use crate::mapped_id::opt_text;
use crate::om_terrain::{first_index_or_len, lemma_first_index};
use crate::om_terrain::str_eq;
use crate::types::{CDDAIdentifier, CDDAString, IdOrAbstract};
use crate::map_data::VehicleStatus;
use crate::map_instance::{InstantiatedMapgen, InstantiatedTile, MapgenCellCoordinates, ParametersCalculated};
use crate::mapped_id::{MappedCDDAId, TilesheetCDDAId};
use crate::random::random_range_i32;
use crate::tileset::Rotation;

verus! {

/// Where on a vehicle tile a part sits. Only the last four are drawn, in
/// rising priority.
#[derive(Debug, Clone, Copy, PartialEq, Eq, Structural)]
pub enum Location {
    OnWindshield,
    OnCeiling,
    Roof,
    Internal,
    Armor,
    Anywhere,
    Axle,
    EngineBlock,
    FuelSource,
    OnBatteryMount,
    Structure,
    Under,
    Center,
    OnRoof,
}

pub open spec fn spec_priority(l: Location) -> int {
    match l {
        Location::Structure => 1,
        Location::Under => 2,
        Location::Center => 3,
        Location::OnRoof => 4,
        _ => 0,
    }
}

/// The location that a name stands for: `structure`, `under`, `center`,
/// `on_roof`, or a location's own name; other names stand for none.
pub open spec fn spec_location_of(t: Seq<char>) -> Option<Location> {
    if t == "structure"@ {
        Some(Location::Structure)
    } else if t == "under"@ {
        Some(Location::Under)
    } else if t == "center"@ {
        Some(Location::Center)
    } else if t == "on_roof"@ {
        Some(Location::OnRoof)
    } else if t == "OnWindshield"@ {
        Some(Location::OnWindshield)
    } else if t == "OnCeiling"@ {
        Some(Location::OnCeiling)
    } else if t == "Roof"@ {
        Some(Location::Roof)
    } else if t == "Internal"@ {
        Some(Location::Internal)
    } else if t == "Armor"@ {
        Some(Location::Armor)
    } else if t == "Anywhere"@ {
        Some(Location::Anywhere)
    } else if t == "Axle"@ {
        Some(Location::Axle)
    } else if t == "EngineBlock"@ {
        Some(Location::EngineBlock)
    } else if t == "FuelSource"@ {
        Some(Location::FuelSource)
    } else if t == "OnBatteryMount"@ {
        Some(Location::OnBatteryMount)
    } else {
        None
    }
}

impl Location {
    /// The drawing priority: structure 1, under 2, center 3, on the roof 4,
    /// anything else 0.
    pub fn priority(&self) -> (r: usize)
        ensures
            r == spec_priority(*self),
    {
        match self {
            Location::Structure => 1,
            Location::Under => 2,
            Location::Center => 3,
            Location::OnRoof => 4,
            _ => 0,
        }
    }

    /// The location that a name stands for (see `spec_location_of`).
    pub fn from_str(s: &str) -> (r: Option<Location>)
        ensures
            r == spec_location_of(s@),
    {
        proof {
            reveal_strlit("structure");
            reveal_strlit("under");
            reveal_strlit("center");
            reveal_strlit("on_roof");
            reveal_strlit("OnWindshield");
            reveal_strlit("OnCeiling");
            reveal_strlit("Roof");
            reveal_strlit("Internal");
            reveal_strlit("Armor");
            reveal_strlit("Anywhere");
            reveal_strlit("Axle");
            reveal_strlit("EngineBlock");
            reveal_strlit("FuelSource");
            reveal_strlit("OnBatteryMount");
        }
        if str_eq(s, "structure") {
            Some(Location::Structure)
        } else if str_eq(s, "under") {
            Some(Location::Under)
        } else if str_eq(s, "center") {
            Some(Location::Center)
        } else if str_eq(s, "on_roof") {
            Some(Location::OnRoof)
        } else if str_eq(s, "OnWindshield") {
            Some(Location::OnWindshield)
        } else if str_eq(s, "OnCeiling") {
            Some(Location::OnCeiling)
        } else if str_eq(s, "Roof") {
            Some(Location::Roof)
        } else if str_eq(s, "Internal") {
            Some(Location::Internal)
        } else if str_eq(s, "Armor") {
            Some(Location::Armor)
        } else if str_eq(s, "Anywhere") {
            Some(Location::Anywhere)
        } else if str_eq(s, "Axle") {
            Some(Location::Axle)
        } else if str_eq(s, "EngineBlock") {
            Some(Location::EngineBlock)
        } else if str_eq(s, "FuelSource") {
            Some(Location::FuelSource)
        } else if str_eq(s, "OnBatteryMount") {
            Some(Location::OnBatteryMount)
        } else {
            None
        }
    }
}

/// A drawn location outranks every location that is not drawn.
pub proof fn law_drawn_locations_outrank(a: Location, b: Location)
    requires
        a == Location::Structure || a == Location::Under || a == Location::Center || a == Location::OnRoof,
        !(b == Location::Structure || b == Location::Under || b == Location::Center || b == Location::OnRoof),
    ensures
        spec_priority(a) > spec_priority(b),
{
}

/// The part of a vehicle at a position: a part identifier, or an object
/// with one.
pub enum VehiclePart {
    Inline(CDDAIdentifier),
    Object { part: CDDAIdentifier },
}

pub struct VehiclePartPlacementIntermediate {
    pub x: i32,
    pub y: i32,
    pub parts: Vec<VehiclePartCompositionIntermediate>,
}

/// A part of a vehicle as the game data writes it.
pub enum VehiclePartCompositionIntermediate {
    Inline(CDDAIdentifier),
    Object { part: CDDAIdentifier },
}

/// The variant of a vehicle part sprite.
#[derive(Debug, Clone, Copy, PartialEq, Eq, Structural)]
pub enum VehiclePartVariant {
    Cross,
    Vertical2,
    Vertical,
    Pedal,
    Read,
    BikeRead,
    Motor,
    Horizontal,
}

pub struct VehiclePartComposition {
    pub part: CDDAIdentifier,
    pub variant: Option<VehiclePartVariant>,
}

/// The parts of a vehicle at a position.
pub struct VehiclePartPlacement {
    pub x: i32,
    pub y: i32,
    pub parts: Vec<VehiclePartComposition>,
}

/// A vehicle as the game data writes it.
pub struct CDDAVehicleIntermediate {
    pub identifier: IdOrAbstract<CDDAIdentifier>,
    pub copy_from: Option<CDDAIdentifier>,
    pub name: Option<CDDAString>,
    pub parts: Vec<VehiclePartPlacementIntermediate>,
}

/// A vehicle of the game data.
pub struct CDDAVehicle {
    pub id: CDDAIdentifier,
    pub is_abstract: bool,
    pub copy_from: Option<CDDAIdentifier>,
    pub name: Option<CDDAString>,
    pub parts: Vec<VehiclePartPlacement>,
}

/// A vehicle part entry as the game data writes it.
pub struct CDDAVehiclePartIntermediate {
    pub identifier: IdOrAbstract<CDDAIdentifier>,
    pub copy_from: Option<CDDAIdentifier>,
    pub looks_like: Option<CDDAIdentifier>,
    pub name: Option<CDDAString>,
}

/// A vehicle part entry with whether it is abstract.
pub struct CDDAVehiclePartEntry {
    pub id: CDDAIdentifier,
    pub is_abstract: bool,
    pub copy_from: Option<CDDAIdentifier>,
    pub looks_like: Option<CDDAIdentifier>,
    pub name: Option<CDDAString>,
}

impl VehiclePartCompositionIntermediate {
    /// The part, without a variant.
    pub fn into_composition(self) -> (r: VehiclePartComposition)
        ensures
            r.variant is None,
            r.part == match self {
                VehiclePartCompositionIntermediate::Inline(p) => p,
                VehiclePartCompositionIntermediate::Object { part } => part,
            },
    {
        match self {
            VehiclePartCompositionIntermediate::Inline(part) => VehiclePartComposition { part, variant: None },
            VehiclePartCompositionIntermediate::Object { part } => VehiclePartComposition { part, variant: None },
        }
    }
}

pub open spec fn composition_part(c: VehiclePartCompositionIntermediate) -> CDDAIdentifier {
    match c {
        VehiclePartCompositionIntermediate::Inline(p) => p,
        VehiclePartCompositionIntermediate::Object { part } => part,
    }
}

fn into_composition_fn(c: VehiclePartCompositionIntermediate) -> (r: VehiclePartComposition)
    ensures
        r.variant is None,
        r.part == composition_part(c),
{
    c.into_composition()
}

pub open spec fn placement_converted(r: VehiclePartPlacement, p: VehiclePartPlacementIntermediate) -> bool {
    &&& r.x == p.x
    &&& r.y == p.y
    &&& r.parts@.len() == p.parts@.len()
    &&& forall|i: int|
        0 <= i < p.parts@.len() ==> #[trigger] r.parts@[i].part == composition_part(p.parts@[i])
            && r.parts@[i].variant is None
}

/// Applies a conversion to every element of a vector, in order.
fn map_vec<A, B, F: Fn(A) -> B>(v: Vec<A>, f: F) -> (r: Vec<B>)
    requires
        forall|i: int| 0 <= i < v@.len() ==> call_requires(f, (#[trigger] v@[i],)),
    ensures
        r@.len() == v@.len(),
        forall|i: int| 0 <= i < v@.len() ==> call_ensures(f, (v@[i],), #[trigger] r@[i]),
{
    let ghost vals = v@;
    let n = v.len();
    let mut rev = crate::types::reverse_vec(v);
    let mut out: Vec<B> = Vec::new();
    let mut i: usize = 0;
    while i < n
        invariant
            n == vals.len(),
            i <= n,
            rev@.len() == n - i,
            forall|j: int| 0 <= j < n - i ==> #[trigger] rev@[j] == vals[n - 1 - j],
            forall|j: int| 0 <= j < n ==> call_requires(f, (#[trigger] vals[j],)),
            out@.len() == i,
            forall|j: int| 0 <= j < i ==> call_ensures(f, (vals[j],), #[trigger] out@[j]),
        decreases n - i,
    {
        let a = rev.pop().unwrap();
        assert(a == vals[i as int]);
        out.push(f(a));
        i = i + 1;
    }
    out
}

impl VehiclePartPlacementIntermediate {
    /// The placement with each part converted.
    pub fn into_placement(self) -> (r: VehiclePartPlacement)
        ensures
            placement_converted(r, self),
    {
        let ghost old_parts = self.parts@;
        let parts = map_vec(self.parts, into_composition_fn);
        VehiclePartPlacement { x: self.x, y: self.y, parts }
    }
}

fn into_placement_fn(p: VehiclePartPlacementIntermediate) -> (r: VehiclePartPlacement)
    ensures
        placement_converted(r, p),
{
    p.into_placement()
}

impl CDDAVehicleIntermediate {
    /// The vehicle: an abstract entry keeps its identifier and is marked
    /// abstract; the placements are converted.
    pub fn into_vehicle(self) -> (r: CDDAVehicle)
        ensures
            match self.identifier {
                IdOrAbstract::Id(i) => r.id == i && !r.is_abstract,
                IdOrAbstract::Abstract(a) => r.id == a && r.is_abstract,
            },
            r.copy_from == self.copy_from,
            r.name == self.name,
            r.parts@.len() == self.parts@.len(),
            forall|i: int| 0 <= i < self.parts@.len() ==> placement_converted(#[trigger] r.parts@[i], self.parts@[i]),
    {
        let (id, is_abstract) = match self.identifier {
            IdOrAbstract::Id(id) => (id, false),
            IdOrAbstract::Abstract(abs) => (abs, true),
        };
        let parts = map_vec(self.parts, into_placement_fn);
        CDDAVehicle { id, is_abstract, copy_from: self.copy_from, name: self.name, parts }
    }
}

impl CDDAVehiclePartIntermediate {
    /// The part entry: an abstract entry keeps its identifier and is marked
    /// abstract.
    pub fn into_part(self) -> (r: CDDAVehiclePartEntry)
        ensures
            match self.identifier {
                IdOrAbstract::Id(i) => r.id == i && !r.is_abstract,
                IdOrAbstract::Abstract(a) => r.id == a && r.is_abstract,
            },
            r.copy_from == self.copy_from,
            r.looks_like == self.looks_like,
            r.name == self.name,
    {
        let (id, is_abstract) = match self.identifier {
            IdOrAbstract::Id(id) => (id, false),
            IdOrAbstract::Abstract(abs) => (abs, true),
        };
        CDDAVehiclePartEntry { id, is_abstract, copy_from: self.copy_from, looks_like: self.looks_like, name: self.name }
    }
}

/// The variant that a name stands for, in snake case.
pub open spec fn spec_variant_of(t: Seq<char>) -> Option<VehiclePartVariant> {
    if t == "cross"@ {
        Some(VehiclePartVariant::Cross)
    } else if t == "vertical2"@ {
        Some(VehiclePartVariant::Vertical2)
    } else if t == "vertical"@ {
        Some(VehiclePartVariant::Vertical)
    } else if t == "pedal"@ {
        Some(VehiclePartVariant::Pedal)
    } else if t == "read"@ {
        Some(VehiclePartVariant::Read)
    } else if t == "bike_read"@ {
        Some(VehiclePartVariant::BikeRead)
    } else if t == "motor"@ {
        Some(VehiclePartVariant::Motor)
    } else if t == "horizontal"@ {
        Some(VehiclePartVariant::Horizontal)
    } else {
        None
    }
}

pub fn variant_of_name(t: &str) -> (r: Option<VehiclePartVariant>)
    ensures
        r == spec_variant_of(t@),
{
    proof {
        reveal_strlit("cross");
        reveal_strlit("vertical2");
        reveal_strlit("vertical");
        reveal_strlit("pedal");
        reveal_strlit("read");
        reveal_strlit("bike_read");
        reveal_strlit("motor");
        reveal_strlit("horizontal");
    }
    if str_eq(t, "cross") {
        Some(VehiclePartVariant::Cross)
    } else if str_eq(t, "vertical2") {
        Some(VehiclePartVariant::Vertical2)
    } else if str_eq(t, "vertical") {
        Some(VehiclePartVariant::Vertical)
    } else if str_eq(t, "pedal") {
        Some(VehiclePartVariant::Pedal)
    } else if str_eq(t, "read") {
        Some(VehiclePartVariant::Read)
    } else if str_eq(t, "bike_read") {
        Some(VehiclePartVariant::BikeRead)
    } else if str_eq(t, "motor") {
        Some(VehiclePartVariant::Motor)
    } else if str_eq(t, "horizontal") {
        Some(VehiclePartVariant::Horizontal)
    } else {
        None
    }
}

fn find_first_hash(s: &str) -> (r: Option<usize>)
    ensures
        match r {
            Some(i) => i < s@.len() && s@[i as int] == '#' && forall|j: int| 0 <= j < i ==> s@[j] != '#',
            None => forall|j: int| 0 <= j < s@.len() ==> s@[j] != '#',
        },
{
    let n = s.unicode_len();
    let mut i: usize = 0;
    while i < n
        invariant
            n == s@.len(),
            i <= n,
            forall|j: int| 0 <= j < i ==> s@[j] != '#',
        decreases n - i,
    {
        if s.get_char(i) == '#' {
            return Some(i);
        }
        i = i + 1;
    }
    None
}

/// A part identifier split at its first `#` (at `h`) into the part and the
/// variant, when the text after the `#` names a variant; otherwise the whole
/// identifier without a variant.
pub open spec fn spec_part_and_variant(s: Seq<char>, h: int) -> (Seq<char>, Option<VehiclePartVariant>) {
    match spec_variant_of(s.subrange(h + 1, s.len() as int)) {
        Some(v) => (s.subrange(0, h), Some(v)),
        None => (s, None),
    }
}

pub fn part_and_variant_from_ident(cdda_ident: CDDAIdentifier) -> (r: (CDDAIdentifier, Option<VehiclePartVariant>))
    ensures
        forall|h: int|
            0 <= h < cdda_ident@.len() && cdda_ident@[h] == '#' && (forall|j: int| 0 <= j < h ==> cdda_ident@[j] != '#')
                ==> (r.0@, r.1) == spec_part_and_variant(cdda_ident@, h),
        (forall|j: int| 0 <= j < cdda_ident@.len() ==> cdda_ident@[j] != '#') ==> r.0@ == cdda_ident@ && r.1 is None,
{
    let text = cdda_ident.0.as_str();
    let h = match find_first_hash(text) {
        None => return (cdda_ident, None),
        Some(h) => h,
    };
    assert(cdda_ident@[h as int] == '#');
    let n = text.unicode_len();
    let variant_text = text.substring_char(h + 1, n);
    match variant_of_name(variant_text) {
        None => (cdda_ident, None),
        Some(v) => {
            let part = String::from_str(text.substring_char(0, h));
            (CDDAIdentifier(part), Some(v))
        },
    }
}

/// A part identifier split at its first `#` into the part and the sprite
/// variant; without `#` the whole identifier and no variant.
pub open spec fn spec_split_hash(s: Seq<char>) -> (Seq<char>, Option<Seq<char>>) {
    let h = first_index_or_len(s, '#');
    if h < s.len() {
        (s.subrange(0, h), Some(s.subrange(h + 1, s.len() as int)))
    } else {
        (s, None)
    }
}

/// The location of a vehicle part entry: its written location, `structure`
/// where it has none or the name is unknown.
pub open spec fn entry_location(e: CDDAVehiclePart) -> Location {
    match e.location {
        Some(l) => match spec_location_of(l@) {
            Some(loc) => loc,
            None => Location::Structure,
        },
        None => Location::Structure,
    }
}

/// The part drawn at each position of a vehicle: going through the parts in
/// order (each at its position, already turned), a known part is drawn
/// where nothing is yet, or replaces the drawn part when its location has a
/// higher priority; unknown parts are skipped. Each drawn part is given by
/// the entry's identifier, the sprite variant and the priority.
pub open spec fn spec_select_parts(
    parts: Seq<((i32, i32), CDDAIdentifier)>,
    data: KeyedMap<CDDAIdentifier, CDDAVehiclePart>,
) -> Map<(i32, i32), (Seq<char>, Option<Seq<char>>, int)>
    decreases parts.len(),
{
    if parts.len() == 0 {
        Map::empty()
    } else {
        let rest = spec_select_parts(parts.drop_last(), data);
        let (pos, ident) = parts.last();
        let (raw, ty) = spec_split_hash(ident@);
        if !data.map().contains_key(raw) {
            rest
        } else {
            let e = data.map()[raw];
            let prio = spec_priority(entry_location(e));
            if !rest.contains_key(pos) || prio > rest[pos].2 {
                rest.insert(pos, (e.id@, ty, prio))
            } else {
                rest
            }
        }
    }
}

/// The drawn part of each position (see `spec_select_parts`).
pub fn select_vehicle_parts(
    parts: &Vec<((i32, i32), CDDAIdentifier)>,
    vehicle_parts: &KeyedMap<CDDAIdentifier, CDDAVehiclePart>,
) -> (r: KeyedMap<(i32, i32), (CDDAIdentifier, Option<String>, usize)>)
    ensures
        r.map().dom() == spec_select_parts(parts@, *vehicle_parts).dom(),
        forall|p: (i32, i32)|
            #[trigger] r.map().contains_key(p) ==> ({
                let (id, ty, prio) = r.map()[p];
                (id@, opt_text(ty), prio as int) == spec_select_parts(parts@, *vehicle_parts)[p]
            }),
{
    let mut selected: KeyedMap<(i32, i32), (CDDAIdentifier, Option<String>, usize)> = KeyedMap::new();
    let mut i: usize = 0;
    while i < parts.len()
        invariant
            i <= parts@.len(),
            selected.map().dom() == spec_select_parts(parts@.subrange(0, i as int), *vehicle_parts).dom(),
            forall|p: (i32, i32)|
                #[trigger] selected.map().contains_key(p) ==> ({
                    let (id, ty, prio) = selected.map()[p];
                    (id@, opt_text(ty), prio as int) == spec_select_parts(parts@.subrange(0, i as int), *vehicle_parts)[p]
                }),
        decreases parts@.len() - i,
    {
        let ghost prefix = parts@.subrange(0, i as int + 1);
        assert(prefix.drop_last() =~= parts@.subrange(0, i as int));
        assert(prefix.last() == parts@[i as int]);
        let pos = parts[i].0;
        let ident = &parts[i].1;
        let text = ident.0.as_str();
        let h = first_hash_or_len(text);
        let n = text.unicode_len();
        let (raw, ty) = if h < n {
            (
                CDDAIdentifier(String::from_str(text.substring_char(0, h))),
                Some(String::from_str(text.substring_char(h + 1, n))),
            )
        } else {
            (ident.clone(), None)
        };
        match vehicle_parts.get(&raw) {
            None => {},
            Some(entry) => {
                let location = match &entry.location {
                    Some(l) => match Location::from_str(l.as_str()) {
                        Some(loc) => loc,
                        None => Location::Structure,
                    },
                    None => Location::Structure,
                };
                let prio = location.priority();
                let replace = match selected.get(&pos) {
                    None => true,
                    Some(current) => prio > current.2,
                };
                if replace {
                    selected.insert(pos, (entry.id.clone(), ty, prio));
                }
            },
        }
        i = i + 1;
        proof {
            let sp = spec_select_parts(parts@.subrange(0, i as int), *vehicle_parts);
            assert(selected.map().dom() =~= sp.dom());
        }
    }
    assert(parts@.subrange(0, parts@.len() as int) =~= parts@);
    selected
}

fn first_hash_or_len(s: &str) -> (r: usize)
    ensures
        r == first_index_or_len(s@, '#'),
        r <= s@.len(),
{
    proof {
        lemma_first_index(s@, '#');
    }
    let n = s.unicode_len();
    let mut i: usize = 0;
    while i < n
        invariant
            n == s@.len(),
            i <= n,
            forall|j: int| 0 <= j < i ==> #[trigger] s@[j] != '#',
            0 <= first_index_or_len(s@, '#') <= s@.len(),
            first_index_or_len(s@, '#') < s@.len() ==> s@[first_index_or_len(s@, '#')] == '#',
            forall|j: int| 0 <= j < first_index_or_len(s@, '#') ==> #[trigger] s@[j] != '#',
        decreases n - i,
    {
        if s.get_char(i) == '#' {
            return i;
        }
        i = i + 1;
    }
    i
}

/// The sprite variant of a vehicle part, written after `#` in a part's
/// identifier.
pub struct VehiclePartSpriteVariant {
    pub variant: String,
}

impl VehiclePartSpriteVariant {
    pub fn new(variant: String) -> (r: VehiclePartSpriteVariant)
        ensures
            r.variant@ == variant@,
    {
        VehiclePartSpriteVariant { variant }
    }
}

/// Where a part at `p` of a vehicle placed at `pos` lands: `pos` plus `p`,
/// taken as unsigned numbers.
pub open spec fn vehicle_target(pos: (u32, u32), p: (i32, i32)) -> (u32, u32) {
    ((pos.0 + p.0) as i32 as u32, (pos.1 + p.1) as i32 as u32)
}

/// The part `p` of a vehicle at `pos` lands within the numbers that
/// adding them can reach.
pub open spec fn vehicle_part_fits(pos: (u32, u32), p: (i32, i32)) -> bool {
    pos.0 <= i32::MAX && pos.1 <= i32::MAX && pos.0 + p.0 <= i32::MAX && pos.1 + p.1 <= i32::MAX
}

/// The furniture tile of a vehicle part: the part's identifier with the
/// prefix `vp` and the sprite variant as postfix, turned by `rotation`,
/// never open, and broken only for a damaged vehicle.
pub open spec fn vehicle_part_tile(
    m: MappedCDDAId,
    id: Seq<char>,
    variant: Option<Seq<char>>,
    rotation: Rotation,
    status: VehicleStatus,
) -> bool {
    &&& m.tilesheet_id.id@ == id
    &&& m.tilesheet_id.prefix matches Some(p) && p@ == "vp"@
    &&& opt_text(m.tilesheet_id.postfix) == variant
    &&& m.rotation == rotation
    &&& !m.is_open
    &&& m.is_broken ==> (status is LightDamage || status is HeavilyDamaged)
}

proof fn lemma_target_injective(pos: (u32, u32), a: (i32, i32), b: (i32, i32))
    requires
        vehicle_part_fits(pos, a),
        vehicle_part_fits(pos, b),
        vehicle_target(pos, a) == vehicle_target(pos, b),
    ensures
        a == b,
{
    let a0 = (pos.0 + a.0) as i32;
    let b0 = (pos.0 + b.0) as i32;
    let a1 = (pos.1 + a.1) as i32;
    let b1 = (pos.1 + b.1) as i32;
    assert(a0 as u32 == b0 as u32 ==> a0 == b0) by (bit_vector);
    assert(a1 as u32 == b1 as u32 ==> a1 == b1) by (bit_vector);
}

/// Every position that selecting drew is the position of one of the parts.
proof fn lemma_selected_from(
    parts: Seq<((i32, i32), CDDAIdentifier)>,
    data: KeyedMap<CDDAIdentifier, CDDAVehiclePart>,
    p: (i32, i32),
)
    requires
        spec_select_parts(parts, data).contains_key(p),
    ensures
        exists|i: int| 0 <= i < parts.len() && (#[trigger] parts[i]).0 == p,
    decreases parts.len(),
{
    if parts.len() > 0 {
        let rest = parts.drop_last();
        if spec_select_parts(rest, data).contains_key(p) {
            lemma_selected_from(rest, data, p);
            let i = choose|i: int| 0 <= i < rest.len() && (#[trigger] rest[i]).0 == p;
            assert(parts[i] == rest[i]);
        } else {
            assert(parts[parts.len() - 1].0 == p);
        }
    }
}

/// Whether a part of a vehicle at `pos` is broken: with light damage
/// when a draw of `0..3` is 0, heavily damaged unless a draw of `0..5` is
/// 0, never otherwise.
fn draw_broken(status: &VehicleStatus) -> (r: bool)
    ensures
        r ==> (*status is LightDamage || *status is HeavilyDamaged),
{
    match status {
        VehicleStatus::LightDamage => random_range_i32(0, 3) == 0,
        VehicleStatus::HeavilyDamaged => random_range_i32(0, 5) != 0,
        _ => false,
    }
}

/// The tiles after the parts of a vehicle were placed at `pos`: every
/// selected part (see `spec_select_parts`) lies as furniture on its tile
/// (see `vehicle_part_tile`), every tile keeps its terrain, monster and
/// field, and the tiles no part lands on are as they were.
pub open spec fn vehicle_placed(
    old: Map<(u32, u32), InstantiatedTile>,
    new: Map<(u32, u32), InstantiatedTile>,
    pos: (u32, u32),
    parts: Seq<((i32, i32), CDDAIdentifier)>,
    data: KeyedMap<CDDAIdentifier, CDDAVehiclePart>,
    rotation: Rotation,
    status: VehicleStatus,
) -> bool {
    &&& forall|p: (i32, i32)| #[trigger]
        spec_select_parts(parts, data).contains_key(p) ==> new.contains_key(vehicle_target(pos, p)) && (new[vehicle_target(
            pos,
            p,
        )].furniture matches Some(m) && vehicle_part_tile(
            m,
            spec_select_parts(parts, data)[p].0,
            spec_select_parts(parts, data)[p].1,
            rotation,
            status,
        ))
    &&& forall|q: (u32, u32)| #[trigger]
        old.contains_key(q) ==> new.contains_key(q) && new[q].terrain == old[q].terrain && new[q].monster == old[q].monster
            && new[q].field == old[q].field
    &&& forall|q: (u32, u32)|
        (forall|p: (i32, i32)| #[trigger] spec_select_parts(parts, data).contains_key(p) ==> vehicle_target(pos, p) != q)
            ==> (#[trigger] new.contains_key(q) <==> old.contains_key(q)) && (old.contains_key(q) ==> new[q] == old[q])
}

/// Places the parts of a vehicle at `position`: `parts` holds each part's
/// identifier at its position on the vehicle, already turned by the drawn
/// angle. The parts are selected per position by the priority of their
/// location (see `select_vehicle_parts`), and each selected part is placed
/// as furniture at `position` plus its position (see `vehicle_part_tile`):
/// prefix `vp`, the sprite variant as postfix, turned by `rotation`, and
/// broken as a draw for the vehicle's `status` gives.
pub fn place_vehicle_parts(
    instantiation: &mut InstantiatedMapgen<ParametersCalculated>,
    position: MapgenCellCoordinates,
    parts: &Vec<((i32, i32), CDDAIdentifier)>,
    vehicle_parts: &KeyedMap<CDDAIdentifier, CDDAVehiclePart>,
    rotation: Rotation,
    status: VehicleStatus,
)
    requires
        forall|i: int| 0 <= i < parts@.len() ==> vehicle_part_fits(position.0, (#[trigger] parts@[i]).0),
    ensures
        final(instantiation).calculated_parameters == old(instantiation).calculated_parameters,
        vehicle_placed(
            old(instantiation).instantiated_tiles.map(),
            final(instantiation).instantiated_tiles.map(),
            position.0,
            parts@,
            *vehicle_parts,
            rotation,
            status,
        ),
{
    let selected = select_vehicle_parts(parts, vehicle_parts);
    let ghost sel = spec_select_parts(parts@, *vehicle_parts);
    let ghost start = instantiation.instantiated_tiles.map();
    selected.lemma_entries_cover();
    proof {
        assert forall|p: (i32, i32)| #[trigger] sel.contains_key(p) implies vehicle_part_fits(position.0, p) by {
            lemma_selected_from(parts@, *vehicle_parts, p);
            let i = choose|i: int| 0 <= i < parts@.len() && (#[trigger] parts@[i]).0 == p;
            assert(vehicle_part_fits(position.0, parts@[i].0));
        }
    }
    let n = selected.len();
    let mut i: usize = 0;
    while i < n
        invariant
            n == selected.entries().len(),
            i <= n,
            selected.map().dom() == sel.dom(),
            forall|p: (i32, i32)|
                #[trigger] selected.map().contains_key(p) ==> ({
                    let (id, ty, prio) = selected.map()[p];
                    (id@, opt_text(ty), prio as int) == sel[p]
                }),
            forall|k: (i32, i32)| #[trigger] selected.map().contains_key(k) <==> exists|j: int|
                0 <= j < selected.entries().len() && #[trigger] selected.entries()[j].0.key() == k,
            forall|a: int, b: int|
                0 <= a < selected.entries().len() && 0 <= b < selected.entries().len() && a != b
                    ==> #[trigger] selected.entries()[a].0.key() != #[trigger] selected.entries()[b].0.key(),
            forall|p: (i32, i32)| #[trigger] sel.contains_key(p) ==> vehicle_part_fits(position.0, p),
            instantiation.calculated_parameters == old(instantiation).calculated_parameters,
            start == old(instantiation).instantiated_tiles.map(),
            forall|j: int|
                #![trigger selected.entries()[j]]
                0 <= j < i ==> instantiation.instantiated_tiles.map().contains_key(vehicle_target(position.0, selected.entries()[j].0))
                    && (instantiation.instantiated_tiles.map()[vehicle_target(position.0, selected.entries()[j].0)].furniture matches Some(
                    m,
                ) && vehicle_part_tile(m, sel[selected.entries()[j].0].0, sel[selected.entries()[j].0].1, rotation, status)),
            forall|q: (u32, u32)|
                #[trigger] start.contains_key(q) ==> instantiation.instantiated_tiles.map().contains_key(q)
                    && instantiation.instantiated_tiles.map()[q].terrain == start[q].terrain
                    && instantiation.instantiated_tiles.map()[q].monster == start[q].monster
                    && instantiation.instantiated_tiles.map()[q].field == start[q].field,
            forall|q: (u32, u32)|
                (forall|j: int| 0 <= j < i ==> vehicle_target(position.0, #[trigger] selected.entries()[j].0) != q)
                    ==> (#[trigger] instantiation.instantiated_tiles.map().contains_key(q) <==> start.contains_key(q))
                    && (start.contains_key(q) ==> instantiation.instantiated_tiles.map()[q] == start[q]),
        decreases n - i,
    {
        let pos = *selected.key_at(i);
        let entry = selected.value_at(i);
        proof {
            assert(selected.entries()[i as int].0.key() == pos);
            assert(sel.contains_key(pos));
            assert(vehicle_part_fits(position.0, pos));
        }
        let tx: i32 = position.0.0 as i32 + pos.0;
        let ty: i32 = position.0.1 as i32 + pos.1;
        let target = MapgenCellCoordinates((tx as u32, ty as u32));
        proof {
            assert(target.0 == vehicle_target(position.0, pos));
        }
        let postfix = match &entry.1 {
            Some(t) => Some(t.clone()),
            None => None,
        };
        let broken = draw_broken(&status);
        let m = MappedCDDAId {
            tilesheet_id: TilesheetCDDAId {
                id: entry.0.clone(),
                prefix: Some(String::from_str("vp")),
                postfix,
            },
            rotation,
            is_broken: broken,
            is_open: false,
        };
        proof {
            reveal_strlit("vp");
        }
        let ghost before = instantiation.instantiated_tiles.map();
        instantiation.place_furniture(target, m);
        proof {
            let after = instantiation.instantiated_tiles.map();
            assert(vehicle_part_tile(m, sel[pos].0, sel[pos].1, rotation, status));
            assert forall|j: int|
                #![trigger selected.entries()[j]]
                0 <= j < i + 1 implies after.contains_key(vehicle_target(position.0, selected.entries()[j].0)) && (
                after[vehicle_target(position.0, selected.entries()[j].0)].furniture matches Some(mm) && vehicle_part_tile(
                    mm,
                    sel[selected.entries()[j].0].0,
                    sel[selected.entries()[j].0].1,
                    rotation,
                    status,
                )) by {
                if j < i {
                    let pj = selected.entries()[j].0;
                    assert(pj != pos);
                    assert(sel.contains_key(pj)) by {
                        assert(selected.entries()[j].0.key() == pj);
                    }
                    if vehicle_target(position.0, pj) == target.0 {
                        lemma_target_injective(position.0, pj, pos);
                    }
                }
            }
            assert forall|q: (u32, u32)| #[trigger] start.contains_key(q) implies after.contains_key(q) && after[q].terrain
                == start[q].terrain && after[q].monster == start[q].monster && after[q].field == start[q].field by {
                assert(before.contains_key(q));
                if q == target.0 {
                    assert(crate::map_instance::tile_or_empty(before, q) == before[q]);
                }
            }
        }
        i = i + 1;
    }
    proof {
        let after = instantiation.instantiated_tiles.map();
        assert forall|p: (i32, i32)| #[trigger] sel.contains_key(p) implies after.contains_key(vehicle_target(position.0, p))
            && (after[vehicle_target(position.0, p)].furniture matches Some(m) && vehicle_part_tile(
            m,
            sel[p].0,
            sel[p].1,
            rotation,
            status,
        )) by {
            assert(selected.map().contains_key(p));
            let j = choose|j: int| 0 <= j < selected.entries().len() && #[trigger] selected.entries()[j].0.key() == p;
            assert(selected.entries()[j].0 == p);
        }
        assert forall|q: (u32, u32)|
            (forall|p: (i32, i32)| #[trigger] sel.contains_key(p) ==> vehicle_target(position.0, p) != q) implies (
            #[trigger] after.contains_key(q) <==> start.contains_key(q)) && (start.contains_key(q) ==> after[q] == start[q]) by {
            assert forall|j: int| 0 <= j < n implies vehicle_target(position.0, #[trigger] selected.entries()[j].0) != q by {
                let pj = selected.entries()[j].0;
                assert(selected.entries()[j].0.key() == pj);
                assert(selected.map().contains_key(pj));
            }
        }
    }
}

/// The drawn locations rank strictly from the lowest: a structure, then a
/// part under the vehicle, then one at its center, then one on its roof.
pub proof fn law_drawn_locations_rank()
    ensures
        spec_priority(Location::Structure) < spec_priority(Location::Under),
        spec_priority(Location::Under) < spec_priority(Location::Center),
        spec_priority(Location::Center) < spec_priority(Location::OnRoof),
{
}

proof fn lemma_no_hash_split(s: Seq<char>)
    requires
        forall|j: int| 0 <= j < s.len() ==> s[j] != '#',
    ensures
        spec_split_hash(s) == (s, None::<Seq<char>>),
{
    lemma_first_index(s, '#');
}

/// Of two parts written for one position, one whose entry lies `under` the
/// vehicle and one at its `center`, the center part is drawn there,
/// whichever of the two comes first.
pub proof fn law_center_part_drawn_over_under_part(
    pos: (i32, i32),
    under: CDDAIdentifier,
    center: CDDAIdentifier,
    data: KeyedMap<CDDAIdentifier, CDDAVehiclePart>,
)
    requires
        forall|j: int| 0 <= j < under@.len() ==> under@[j] != '#',
        forall|j: int| 0 <= j < center@.len() ==> center@[j] != '#',
        data.map().contains_key(under@),
        data.map().contains_key(center@),
        data.map()[under@].location matches Some(l) && l@ == "under"@,
        data.map()[center@].location matches Some(l) && l@ == "center"@,
    ensures
        spec_select_parts(seq![(pos, under), (pos, center)], data).contains_key(pos),
        spec_select_parts(seq![(pos, under), (pos, center)], data)[pos].0 == data.map()[center@].id@,
        spec_select_parts(seq![(pos, center), (pos, under)], data).contains_key(pos),
        spec_select_parts(seq![(pos, center), (pos, under)], data)[pos].0 == data.map()[center@].id@,
{
    reveal_strlit("structure");
    reveal_strlit("under");
    reveal_strlit("center");
    lemma_no_hash_split(under@);
    lemma_no_hash_split(center@);
    assert("under"@.len() != "structure"@.len());
    assert("center"@.len() != "structure"@.len());
    assert("center"@.len() != "under"@.len());
    assert(spec_location_of("under"@) == Some(Location::Under));
    assert(spec_location_of("center"@) == Some(Location::Center));
    assert(entry_location(data.map()[under@]) == Location::Under);
    assert(entry_location(data.map()[center@]) == Location::Center);
    let s1 = seq![(pos, under), (pos, center)];
    let s2 = seq![(pos, center), (pos, under)];
    assert(s1.drop_last() =~= seq![(pos, under)]);
    assert(s2.drop_last() =~= seq![(pos, center)]);
    assert(seq![(pos, under)].drop_last() =~= Seq::<((i32, i32), CDDAIdentifier)>::empty());
    assert(seq![(pos, center)].drop_last() =~= Seq::<((i32, i32), CDDAIdentifier)>::empty());
    reveal_with_fuel(spec_select_parts, 3);
}

/// Of two parts written for one position whose entries lie at the same
/// drawn location, the first one is drawn there.
pub proof fn law_first_of_equal_parts_drawn(
    pos: (i32, i32),
    first: CDDAIdentifier,
    second: CDDAIdentifier,
    data: KeyedMap<CDDAIdentifier, CDDAVehiclePart>,
)
    requires
        forall|j: int| 0 <= j < first@.len() ==> first@[j] != '#',
        forall|j: int| 0 <= j < second@.len() ==> second@[j] != '#',
        data.map().contains_key(first@),
        data.map().contains_key(second@),
        entry_location(data.map()[first@]) == entry_location(data.map()[second@]),
    ensures
        spec_select_parts(seq![(pos, first), (pos, second)], data).contains_key(pos),
        spec_select_parts(seq![(pos, first), (pos, second)], data)[pos].0 == data.map()[first@].id@,
{
    lemma_no_hash_split(first@);
    lemma_no_hash_split(second@);
    let s1 = seq![(pos, first), (pos, second)];
    assert(s1.drop_last() =~= seq![(pos, first)]);
    assert(seq![(pos, first)].drop_last() =~= Seq::<((i32, i32), CDDAIdentifier)>::empty());
    reveal_with_fuel(spec_select_parts, 3);
}

} // verus!
