use vstd::prelude::*;
use std::sync::Arc;
use crate::map_data::{
    MapGenComputer, MapGenCorpse, MapGenField, MapGenGaspump, MapGenItem, MapGenMonsters,
    MapGenNestedIntermediate, MapGenSign, MapGenTrap, MapGenVehicle,
};
use crate::number_or_range::NumberOrRange;
use crate::types::DistributionInner;

verus! {

/// The chance of a placement that gives none.
pub const DEFAULT_CHANCE: i32 = 100;

/// A placement of something at a position (a number or a range in each
/// direction), repeated a number of times, with a chance out of 100.
pub struct PlaceOuter<T> {
    pub inner: T,
    pub x: NumberOrRange<i32>,
    pub y: NumberOrRange<i32>,
    pub repeat: NumberOrRange<i32>,
    pub chance: i32,
}

pub struct PlaceInnerFurniture {
    pub furniture_id: DistributionInner,
}

pub struct PlaceInnerTerrain {
    pub terrain_id: DistributionInner,
}

pub struct PlaceInnerNested {
    pub chunks: MapGenNestedIntermediate,
}

pub struct PlaceInnerMonster {
    pub value: MapGenMonsters,
}

pub struct PlaceInnerMonsters {
    pub value: MapGenMonsters,
}

pub struct PlaceInnerItems {
    pub value: MapGenItem,
}

pub struct PlaceInnerFields {
    pub value: MapGenField,
}

pub struct PlaceInnerComputers {
    pub value: MapGenComputer,
}

pub struct PlaceInnerSigns {
    pub value: MapGenSign,
}

pub struct PlaceInnerGaspumps {
    pub value: MapGenGaspump,
}

pub struct PlaceInnerToilets;

pub struct PlaceInnerTraps {
    pub value: MapGenTrap,
}

pub struct PlaceInnerVehicles {
    pub value: MapGenVehicle,
}

pub struct PlaceInnerCorpses {
    pub value: MapGenCorpse,
}

/// The placements of a map, by kind.
pub struct MapPlaces {
    pub furniture: Vec<PlaceOuter<Arc<PlaceInnerFurniture>>>,
    pub toilets: Vec<PlaceOuter<Arc<PlaceInnerToilets>>>,
    pub terrain: Vec<PlaceOuter<Arc<PlaceInnerTerrain>>>,
    pub computers: Vec<PlaceOuter<Arc<PlaceInnerComputers>>>,
    pub signs: Vec<PlaceOuter<Arc<PlaceInnerSigns>>>,
    pub traps: Vec<PlaceOuter<Arc<PlaceInnerTraps>>>,
    pub gaspumps: Vec<PlaceOuter<Arc<PlaceInnerGaspumps>>>,
    pub monsters: Vec<PlaceOuter<Arc<PlaceInnerMonsters>>>,
    pub monster: Vec<PlaceOuter<Arc<PlaceInnerMonster>>>,
    pub nested: Vec<PlaceOuter<Arc<PlaceInnerNested>>>,
    pub fields: Vec<PlaceOuter<Arc<PlaceInnerFields>>>,
    pub items: Vec<PlaceOuter<Arc<PlaceInnerItems>>>,
    pub vehicles: Vec<PlaceOuter<Arc<PlaceInnerVehicles>>>,
    pub corpses: Vec<PlaceOuter<Arc<PlaceInnerCorpses>>>,
}

impl MapPlaces {
    /// No placements.
    pub fn new() -> (r: MapPlaces)
        ensures
            r.furniture@.len() == 0 && r.toilets@.len() == 0 && r.terrain@.len() == 0 && r.computers@.len() == 0
                && r.signs@.len() == 0 && r.traps@.len() == 0 && r.gaspumps@.len() == 0 && r.monsters@.len() == 0
                && r.monster@.len() == 0 && r.nested@.len() == 0 && r.fields@.len() == 0 && r.items@.len() == 0
                && r.vehicles@.len() == 0 && r.corpses@.len() == 0,
    {
        MapPlaces {
            furniture: Vec::new(),
            toilets: Vec::new(),
            terrain: Vec::new(),
            computers: Vec::new(),
            signs: Vec::new(),
            traps: Vec::new(),
            gaspumps: Vec::new(),
            monsters: Vec::new(),
            monster: Vec::new(),
            nested: Vec::new(),
            fields: Vec::new(),
            items: Vec::new(),
            vehicles: Vec::new(),
            corpses: Vec::new(),
        }
    }
}

/// Whether a placement at `(x, y)`, in coordinates of the whole grid of
/// maps, can be moved down by `(ox, oy)` without overflow.
pub open spec fn place_shift_fits<T>(p: PlaceOuter<T>, ox: int, oy: int) -> bool {
    &&& i32::MIN <= p.x.spec_bounds().0 - ox
    &&& i32::MIN <= p.x.spec_bounds().1 - ox
    &&& p.x.spec_bounds().0 - ox <= i32::MAX
    &&& p.x.spec_bounds().1 - ox <= i32::MAX
    &&& i32::MIN <= p.y.spec_bounds().0 - oy
    &&& i32::MIN <= p.y.spec_bounds().1 - oy
    &&& p.y.spec_bounds().0 - oy <= i32::MAX
    &&& p.y.spec_bounds().1 - oy <= i32::MAX
}

pub open spec fn places_shift_fit<T>(s: Seq<PlaceOuter<T>>, ox: int, oy: int) -> bool {
    forall|i: int| 0 <= i < s.len() ==> place_shift_fits(#[trigger] s[i], ox, oy)
}

/// The placements that fall on the map whose corner is at `(ox, oy)` and
/// whose size is `w` by `h`, moved into the map's own coordinates, in order.
/// A position is on the map when, moved, it compares at least 0 and less
/// than the size (a range compares by its ends: see `NumberOrRange::spec_ge`).
pub open spec fn spec_remap_places<T>(s: Seq<PlaceOuter<T>>, ox: int, oy: int, w: int, h: int) -> Seq<PlaceOuter<T>>
    decreases s.len(),
{
    if s.len() == 0 {
        Seq::empty()
    } else {
        let rest = spec_remap_places(s.drop_last(), ox, oy, w, h);
        let p = s.last();
        let x = p.x.spec_shifted_down(ox);
        let y = p.y.spec_shifted_down(oy);
        if x.spec_ge(0) && x.spec_lt(w) && y.spec_ge(0) && y.spec_lt(h) {
            rest.push(PlaceOuter { inner: p.inner, x, y, repeat: p.repeat, chance: p.chance })
        } else {
            rest
        }
    }
}

/// The placements of `list` that fall on the map at `(ox, oy)` of size
/// `w` by `h`, in the map's coordinates (see `spec_remap_places`).
pub fn remap_places<T>(list: &Vec<PlaceOuter<Arc<T>>>, ox: i32, oy: i32, w: i32, h: i32) -> (r: Vec<
    PlaceOuter<Arc<T>>,
>)
    requires
        places_shift_fit(list@, ox as int, oy as int),
    ensures
        r@ == spec_remap_places(list@, ox as int, oy as int, w as int, h as int),
{
    let mut out: Vec<PlaceOuter<Arc<T>>> = Vec::new();
    let mut i: usize = 0;
    while i < list.len()
        invariant
            i <= list@.len(),
            places_shift_fit(list@, ox as int, oy as int),
            out@ == spec_remap_places(list@.subrange(0, i as int), ox as int, oy as int, w as int, h as int),
        decreases list@.len() - i,
    {
        let p = &list[i];
        assert(place_shift_fits(list@[i as int], ox as int, oy as int));
        let x = p.x.clone().sub(ox);
        let y = p.y.clone().sub(oy);
        let ghost prefix = list@.subrange(0, i as int + 1);
        assert(prefix.drop_last() =~= list@.subrange(0, i as int));
        assert(prefix.last() == list@[i as int]);
        if x.ge(0) && x.lt(w) && y.ge(0) && y.lt(h) {
            out.push(PlaceOuter { inner: p.inner.clone(), x, y, repeat: p.repeat.clone(), chance: p.chance });
        }
        i = i + 1;
    }
    assert(list@.subrange(0, list@.len() as int) =~= list@);
    out
}


fn clone_place_list<T>(v: &Vec<PlaceOuter<Arc<T>>>) -> (r: Vec<PlaceOuter<Arc<T>>>)
    ensures
        r@ == v@,
{
    let mut out: Vec<PlaceOuter<Arc<T>>> = Vec::new();
    let mut i: usize = 0;
    while i < v.len()
        invariant
            i <= v@.len(),
            out@ == v@.take(i as int),
        decreases v@.len() - i,
    {
        let p = &v[i];
        out.push(PlaceOuter { inner: p.inner.clone(), x: p.x.clone(), y: p.y.clone(), repeat: p.repeat.clone(), chance: p.chance });
        proof {
            assert(out@ =~= v@.take(i + 1));
        }
        i = i + 1;
    }
    proof {
        assert(v@.take(v@.len() as int) =~= v@);
    }
    out
}

impl MapPlaces {
    /// A copy of the placements: the same placements of each kind.
    pub fn duplicate(&self) -> (r: MapPlaces)
        ensures
            r.furniture@ == self.furniture@ && r.toilets@ == self.toilets@ && r.terrain@ == self.terrain@
                && r.computers@ == self.computers@ && r.signs@ == self.signs@ && r.traps@ == self.traps@
                && r.gaspumps@ == self.gaspumps@ && r.monsters@ == self.monsters@ && r.monster@ == self.monster@
                && r.nested@ == self.nested@ && r.fields@ == self.fields@ && r.items@ == self.items@
                && r.vehicles@ == self.vehicles@ && r.corpses@ == self.corpses@,
    {
        MapPlaces {
            furniture: clone_place_list(&self.furniture),
            toilets: clone_place_list(&self.toilets),
            terrain: clone_place_list(&self.terrain),
            computers: clone_place_list(&self.computers),
            signs: clone_place_list(&self.signs),
            traps: clone_place_list(&self.traps),
            gaspumps: clone_place_list(&self.gaspumps),
            monsters: clone_place_list(&self.monsters),
            monster: clone_place_list(&self.monster),
            nested: clone_place_list(&self.nested),
            fields: clone_place_list(&self.fields),
            items: clone_place_list(&self.items),
            vehicles: clone_place_list(&self.vehicles),
            corpses: clone_place_list(&self.corpses),
        }
    }
}

} // verus!
