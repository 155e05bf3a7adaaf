use vstd::prelude::*;
use crate::import::id_texts;
use crate::mapped_id::opt_text;
use crate::types::{CDDAIdentifier, CDDAString};
use crate::vehicles::VehiclePart;

verus! {

/// A point of an overmap special and the overmap terrain placed there.
pub struct OvermapSpecialOvermap {
    pub point: (i32, i32, i32),
    pub overmap: Option<CDDAIdentifier>,
}

/// How an overmap special is laid out: fixed overmap terrains at points,
/// or a mutable special of a subtype.
pub enum OvermapSpecialSubType {
    Fixed { overmaps: Vec<OvermapSpecialOvermap> },
    Mutable { subtype: String },
}

/// An overmap special of the game data.
pub struct CDDAOvermapSpecial {
    pub id: CDDAIdentifier,
    pub ty: OvermapSpecialSubType,
    pub flags: Vec<String>,
}

/// The parts of a vehicle at a position.
pub struct VehiclePartPlacement {
    pub x: i32,
    pub y: i32,
    pub parts: Vec<VehiclePart>,
}

/// A vehicle of the game data, as far as the editor reads it.
pub struct CDDAVehicle {
    pub id: CDDAIdentifier,
    pub name: Option<CDDAString>,
    pub parts: Vec<VehiclePartPlacement>,
    pub flags: Vec<String>,
}

/// A point of an overmap special as plain values.
pub open spec fn overmap_view(o: OvermapSpecialOvermap) -> ((i32, i32, i32), Option<Seq<char>>) {
    (
        o.point,
        match o.overmap {
            Some(x) => Some(x@),
            None => None,
        },
    )
}

/// The layout of an overmap special as plain values: whether it is fixed,
/// its points, and its subtype.
pub open spec fn special_ty_view(t: OvermapSpecialSubType) -> (bool, Seq<((i32, i32, i32), Option<Seq<char>>)>, Seq<char>) {
    match t {
        OvermapSpecialSubType::Fixed { overmaps } => (true, overmaps@.map_values(|o: OvermapSpecialOvermap| overmap_view(o)), seq![]),
        OvermapSpecialSubType::Mutable { subtype } => (false, seq![], subtype@),
    }
}

/// A part of a vehicle as plain values: whether it is written inline, and
/// its identifier.
pub open spec fn part_view(p: VehiclePart) -> (bool, Seq<char>) {
    match p {
        VehiclePart::Inline(id) => (true, id@),
        VehiclePart::Object { part } => (false, part@),
    }
}

/// The parts of a vehicle at a position as plain values.
pub open spec fn placement_view(p: VehiclePartPlacement) -> (i32, i32, Seq<(bool, Seq<char>)>) {
    (p.x, p.y, p.parts@.map_values(|v: VehiclePart| part_view(v)))
}

/// The placements of a vehicle as plain values.
pub open spec fn placements_view(s: Seq<VehiclePartPlacement>) -> Seq<(i32, i32, Seq<(bool, Seq<char>)>)> {
    s.map_values(|p: VehiclePartPlacement| placement_view(p))
}

/// A copy of a list of identifiers.
pub fn clone_id_vec(v: &Vec<CDDAIdentifier>) -> (r: Vec<CDDAIdentifier>)
    ensures
        id_texts(r@) == id_texts(v@),
{
    let mut r: Vec<CDDAIdentifier> = Vec::new();
    let mut i: usize = 0;
    while i < v.len()
        invariant
            i <= v@.len(),
            r@.len() == i,
            forall|j: int| 0 <= j < i ==> #[trigger] r@[j]@ == v@[j]@,
        decreases v@.len() - i,
    {
        r.push(v[i].clone());
        i = i + 1;
    }
    assert(id_texts(r@) =~= id_texts(v@));
    r
}

fn clone_overmap(o: &OvermapSpecialOvermap) -> (r: OvermapSpecialOvermap)
    ensures
        overmap_view(r) == overmap_view(*o),
{
    OvermapSpecialOvermap {
        point: o.point,
        overmap: match &o.overmap {
            Some(x) => Some(x.clone()),
            None => None,
        },
    }
}

/// A copy of the layout of an overmap special.
pub fn clone_special_ty(t: &OvermapSpecialSubType) -> (r: OvermapSpecialSubType)
    ensures
        special_ty_view(r) == special_ty_view(*t),
{
    match t {
        OvermapSpecialSubType::Fixed { overmaps } => {
            let mut out: Vec<OvermapSpecialOvermap> = Vec::new();
            let mut i: usize = 0;
            while i < overmaps.len()
                invariant
                    i <= overmaps@.len(),
                    out@.len() == i,
                    forall|j: int| 0 <= j < i ==> #[trigger] overmap_view(out@[j]) == overmap_view(overmaps@[j]),
                decreases overmaps@.len() - i,
            {
                out.push(clone_overmap(&overmaps[i]));
                i = i + 1;
            }
            proof {
                assert(out@.map_values(|o: OvermapSpecialOvermap| overmap_view(o)) =~= overmaps@.map_values(
                    |o: OvermapSpecialOvermap| overmap_view(o),
                ));
            }
            OvermapSpecialSubType::Fixed { overmaps: out }
        },
        OvermapSpecialSubType::Mutable { subtype } => OvermapSpecialSubType::Mutable { subtype: subtype.clone() },
    }
}

fn clone_part(p: &VehiclePart) -> (r: VehiclePart)
    ensures
        part_view(r) == part_view(*p),
{
    match p {
        VehiclePart::Inline(id) => VehiclePart::Inline(id.clone()),
        VehiclePart::Object { part } => VehiclePart::Object { part: part.clone() },
    }
}

fn clone_placement(p: &VehiclePartPlacement) -> (r: VehiclePartPlacement)
    ensures
        placement_view(r) == placement_view(*p),
{
    let mut parts: Vec<VehiclePart> = Vec::new();
    let mut i: usize = 0;
    while i < p.parts.len()
        invariant
            i <= p.parts@.len(),
            parts@.len() == i,
            forall|j: int| 0 <= j < i ==> #[trigger] part_view(parts@[j]) == part_view(p.parts@[j]),
        decreases p.parts@.len() - i,
    {
        parts.push(clone_part(&p.parts[i]));
        i = i + 1;
    }
    let r = VehiclePartPlacement { x: p.x, y: p.y, parts };
    proof {
        assert(r.parts@.map_values(|v: VehiclePart| part_view(v)) =~= p.parts@.map_values(|v: VehiclePart| part_view(v)));
    }
    r
}

/// A copy of the placements of a vehicle.
pub fn clone_placements(v: &Vec<VehiclePartPlacement>) -> (r: Vec<VehiclePartPlacement>)
    ensures
        placements_view(r@) == placements_view(v@),
{
    let mut r: Vec<VehiclePartPlacement> = Vec::new();
    let mut i: usize = 0;
    while i < v.len()
        invariant
            i <= v@.len(),
            r@.len() == i,
            forall|j: int| 0 <= j < i ==> #[trigger] placement_view(r@[j]) == placement_view(v@[j]),
        decreases v@.len() - i,
    {
        r.push(clone_placement(&v[i]));
        i = i + 1;
    }
    assert(placements_view(r@) =~= placements_view(v@));
    r
}

} // verus!
