use vstd::prelude::*;
use crate::cdda_json::{DeserializedCDDAJsonData, TileLayer};
use crate::random::{sample_weighted_index, weights_valid};
use crate::sprite_picker::{ids_connect, multitile_choice, spec_does_id_connect, spec_multitile_choice, MultitileKind};
use crate::tileset::{CardinalDirection, SpriteIndex};
use crate::types::{CDDAIdentifier, MeabyVec};

verus! {

/// A sprite with its weight for a random choice.
pub struct WeightedSprite<T> {
    pub sprite: T,
    pub weight: i32,
}

impl<T> WeightedSprite<T> {
    pub fn new(sprite: T, weight: i32) -> (r: Self)
        ensures
            r.sprite == sprite,
            r.weight == weight,
    {
        WeightedSprite { sprite, weight }
    }
}

/// A sprite that may carry a weight; an unweighted sprite weighs one.
pub enum MeabyWeightedSprite<T> {
    NotWeighted(T),
    Weighted(WeightedSprite<T>),
}

impl<T> MeabyWeightedSprite<T> {
    pub open spec fn spec_sprite(self) -> T {
        match self {
            MeabyWeightedSprite::NotWeighted(nw) => nw,
            MeabyWeightedSprite::Weighted(w) => w.sprite,
        }
    }

    pub open spec fn spec_weight(self) -> i32 {
        match self {
            MeabyWeightedSprite::NotWeighted(_) => 1,
            MeabyWeightedSprite::Weighted(w) => w.weight,
        }
    }

    /// `fun` applied to the sprite.
    pub fn map<F: Fn(T) -> R, R>(self, fun: F) -> (r: R)
        requires
            call_requires(fun, (self.spec_sprite(),)),
        ensures
            call_ensures(fun, (self.spec_sprite(),), r),
    {
        match self {
            MeabyWeightedSprite::NotWeighted(nw) => fun(nw),
            MeabyWeightedSprite::Weighted(w) => fun(w.sprite),
        }
    }

    pub fn data(self) -> (r: T)
        ensures
            r == self.spec_sprite(),
    {
        match self {
            MeabyWeightedSprite::NotWeighted(nw) => nw,
            MeabyWeightedSprite::Weighted(w) => w.sprite,
        }
    }

    pub fn weighted(self) -> (r: WeightedSprite<T>)
        ensures
            r.sprite == self.spec_sprite(),
            r.weight == self.spec_weight(),
    {
        match self {
            MeabyWeightedSprite::NotWeighted(d) => WeightedSprite { sprite: d, weight: 1 },
            MeabyWeightedSprite::Weighted(w) => w,
        }
    }
}

/// The weighted sprites of one layer of a tile, if it has that layer.
pub type FinalIds = Option<Vec<WeightedSprite<SpriteIndex>>>;

/// The weighted sprites of a multitile part: one sprite per direction.
pub type AdditionalTileIds = Option<Vec<WeightedSprite<Vec<SpriteIndex>>>>;

/// Foreground and background sprites.
pub struct ForeBackIds<T> {
    pub fg: T,
    pub bg: FinalIds,
}

impl<T> ForeBackIds<T> {
    pub fn new(fg: T, bg: FinalIds) -> (r: Self)
        ensures
            r.fg == fg,
            r.bg == bg,
    {
        ForeBackIds { fg, bg }
    }
}

/// A part of a multitile.
pub struct MultitileSprite {
    pub ids: ForeBackIds<AdditionalTileIds>,
    pub animated: bool,
    pub rotates: bool,
}

/// The sprites of a tile: single, with an open or a broken form, or a
/// multitile whose part depends on its neighbours.
pub enum Sprite {
    Single { ids: ForeBackIds<FinalIds>, rotates: bool, animated: bool },
    Open { ids: ForeBackIds<FinalIds>, open: ForeBackIds<FinalIds>, rotates: bool, animated: bool },
    Broken { ids: ForeBackIds<FinalIds>, broken: ForeBackIds<FinalIds>, rotates: bool, animated: bool },
    Multitile {
        ids: ForeBackIds<FinalIds>,
        animated: bool,
        rotates: bool,
        edge: Option<MultitileSprite>,
        corner: Option<MultitileSprite>,
        center: Option<MultitileSprite>,
        t_connection: Option<MultitileSprite>,
        end_piece: Option<MultitileSprite>,
        unconnected: Option<MultitileSprite>,
    },
}

/// The weights of weighted sprites.
pub open spec fn sprite_weights<T>(v: Seq<WeightedSprite<T>>) -> Seq<i32> {
    Seq::new(v.len(), |i: int| v[i].weight)
}

/// A random choice among weighted sprites: an index of positive weight.
fn pick_sprite_index<T>(v: &Vec<WeightedSprite<T>>) -> (r: usize)
    requires
        weights_valid(sprite_weights(v@)),
    ensures
        r < v@.len(),
        v@[r as int].weight > 0,
{
    let mut weights: Vec<i32> = Vec::new();
    let mut i: usize = 0;
    while i < v.len()
        invariant
            i <= v@.len(),
            weights@.len() == i,
            forall|j: int| 0 <= j < i ==> #[trigger] weights@[j] == v@[j].weight,
        decreases v@.len() - i,
    {
        weights.push(v[i].weight);
        i = i + 1;
    }
    assert(weights@ =~= sprite_weights(v@));
    match sample_weighted_index(&weights) {
        Ok(k) => k,
        Err(_) => {
            proof {
                assert(false);
            }
            0
        },
    }
}

/// What a random pick of one sprite may give: nothing for no sprites, else
/// a sprite of positive weight.
pub open spec fn sprite_pick(ids: Seq<WeightedSprite<SpriteIndex>>, r: Option<MeabyVec<SpriteIndex>>) -> bool {
    if ids.len() == 0 {
        r is None
    } else {
        exists|i: int| 0 <= i < ids.len() && ids[i].weight > 0 && r == Some(MeabyVec::Single(#[trigger] ids[i].sprite))
    }
}

/// Whether a random pick of one sprite can be made without a panic.
pub open spec fn sprite_pick_ok(ids: Seq<WeightedSprite<SpriteIndex>>) -> bool {
    ids.len() == 0 || weights_valid(sprite_weights(ids))
}

/// What a random pick of a multitile part's sprite for a direction may give.
pub open spec fn additional_pick(
    ids: Seq<WeightedSprite<Vec<SpriteIndex>>>,
    dir: int,
    r: Option<MeabyVec<SpriteIndex>>,
) -> bool {
    if ids.len() == 0 {
        r is None
    } else {
        exists|i: int| 0 <= i < ids.len() && ids[i].weight > 0 && r == Some(MeabyVec::Single(#[trigger] ids[i].sprite@[dir]))
    }
}

/// Whether such a pick can be made without a panic: every choice of
/// positive weight has a sprite for the direction.
pub open spec fn additional_pick_ok(ids: Seq<WeightedSprite<Vec<SpriteIndex>>>, dir: int) -> bool {
    ids.len() == 0 || (weights_valid(sprite_weights(ids)) && forall|i: int|
        0 <= i < ids.len() && #[trigger] ids[i].weight > 0 ==> dir < ids[i].sprite@.len())
}

pub open spec fn direction_index(d: CardinalDirection) -> int {
    match d {
        CardinalDirection::North => 0,
        CardinalDirection::East => 1,
        CardinalDirection::South => 2,
        CardinalDirection::West => 3,
    }
}

impl Sprite {
    pub fn is_animated(&self) -> (r: bool)
        ensures
            r == match self {
                Sprite::Single { animated, .. } => *animated,
                Sprite::Open { animated, .. } => *animated,
                Sprite::Broken { animated, .. } => *animated,
                Sprite::Multitile { animated, .. } => *animated,
            },
    {
        match self {
            Sprite::Single { animated, .. } => *animated,
            Sprite::Open { animated, .. } => *animated,
            Sprite::Broken { animated, .. } => *animated,
            Sprite::Multitile { animated, .. } => *animated,
        }
    }

    /// All the sprites, as animation frames; nothing for no sprites.
    pub fn get_random_animated_sprite(ids: &Vec<WeightedSprite<SpriteIndex>>) -> (r: Option<MeabyVec<SpriteIndex>>)
        ensures
            ids@.len() == 0 ==> r is None,
            ids@.len() > 0 ==> (r matches Some(MeabyVec::Vec(v)) && v@ == Seq::new(
                ids@.len(),
                |i: int| ids@[i].sprite,
            )),
    {
        if ids.len() == 0 {
            return None;
        }
        let mut out: Vec<SpriteIndex> = Vec::new();
        let mut i: usize = 0;
        while i < ids.len()
            invariant
                i <= ids@.len(),
                out@.len() == i,
                forall|j: int| 0 <= j < i ==> #[trigger] out@[j] == ids@[j].sprite,
            decreases ids@.len() - i,
        {
            out.push(ids[i].sprite);
            i = i + 1;
        }
        assert(out@ =~= Seq::new(ids@.len(), |i: int| ids@[i].sprite));
        Some(MeabyVec::Vec(out))
    }

    /// One sprite picked at random by weight; nothing for no sprites.
    pub fn get_random_sprite(ids: &Vec<WeightedSprite<SpriteIndex>>) -> (r: Option<MeabyVec<SpriteIndex>>)
        requires
            sprite_pick_ok(ids@),
        ensures
            sprite_pick(ids@, r),
    {
        if ids.len() == 0 {
            return None;
        }
        let i = pick_sprite_index(ids);
        let r = Some(MeabyVec::Single(ids[i].sprite));
        assert(ids@[i as int].weight > 0);
        r
    }

    /// The sprite for the direction of a multitile part picked at random by
    /// weight; nothing for no sprites.
    pub fn get_random_additional_tile_sprite(
        direction: CardinalDirection,
        ids: &Vec<WeightedSprite<Vec<SpriteIndex>>>,
    ) -> (r: Option<MeabyVec<SpriteIndex>>)
        requires
            additional_pick_ok(ids@, direction_index(direction)),
        ensures
            additional_pick(ids@, direction_index(direction), r),
    {
        if ids.len() == 0 {
            return None;
        }
        let i = pick_sprite_index(ids);
        let d: usize = match direction {
            CardinalDirection::North => 0,
            CardinalDirection::East => 1,
            CardinalDirection::South => 2,
            CardinalDirection::West => 3,
        };
        assert(ids@[i as int].weight > 0);
        let r = Some(MeabyVec::Single(ids[i].sprite[d]));
        r
    }
}

pub open spec fn opt_ids(t: Option<CDDAIdentifier>) -> Option<Seq<char>> {
    match t {
        Some(i) => Some(i@),
        None => None,
    }
}

/// Whether the game data knows the entries that a connection lookup reads:
/// on the terrain and furniture layers the tile itself, and each neighbour
/// that is not the null entry.
pub open spec fn connection_data_known(
    data: DeserializedCDDAJsonData,
    layer: TileLayer,
    this: Seq<char>,
    neighbours: Seq<Option<Seq<char>>>,
) -> bool {
    match layer {
        TileLayer::Terrain => data.terrain.map().contains_key(this) && forall|i: int|
            0 <= i < neighbours.len() && #[trigger] neighbours[i] is Some ==> (neighbours[i]->0
                == crate::types::NULL_TERRAIN@ || data.terrain.map().contains_key(neighbours[i]->0)),
        TileLayer::Furniture => data.furniture.map().contains_key(this) && forall|i: int|
            0 <= i < neighbours.len() && #[trigger] neighbours[i] is Some ==> (neighbours[i]->0
                == crate::types::NULL_FURNITURE@ || data.furniture.map().contains_key(neighbours[i]->0)),
        _ => true,
    }
}

/// The connections to the neighbours `(top, right, bottom, left)`.
pub open spec fn spec_matching_list(
    data: DeserializedCDDAJsonData,
    layer: TileLayer,
    this: Seq<char>,
    top: Option<Seq<char>>,
    right: Option<Seq<char>>,
    bottom: Option<Seq<char>>,
    left: Option<Seq<char>>,
) -> Seq<bool> {
    seq![
        spec_does_id_connect(this, top, layer, data),
        spec_does_id_connect(this, right, layer, data),
        spec_does_id_connect(this, bottom, layer, data),
        spec_does_id_connect(this, left, layer, data),
    ]
}

/// The direction whose sprite a multitile part shows in the foreground,
/// for the connections `(top, right, bottom, left)`.
pub open spec fn legacy_fg_direction(c: Seq<bool>) -> int {
    let (t, r, b, l) = (c[0], c[1], c[2], c[3]);
    if t && r && b && l {
        0
    } else if t && r && b && !l {
        1
    } else if t && r && !b && l {
        2
    } else if t && !r && b && l {
        3
    } else if !t && r && b && l {
        0
    } else if t && r && !b && !l {
        1
    } else if t && !r && !b && l {
        2
    } else if !t && r && b && !l {
        0
    } else if !t && !r && b && l {
        3
    } else if t && !r && !b && !l {
        2
    } else if !t && r && !b && !l {
        1
    } else if !t && !r && b && !l {
        0
    } else if !t && !r && !b && l {
        3
    } else if !t && r && !b && l {
        1
    } else {
        0
    }
}

/// The part of a multitile for a kind of connection.
pub open spec fn legacy_part(sprite: Sprite, kind: MultitileKind) -> Option<MultitileSprite> {
    match sprite {
        Sprite::Multitile { center, t_connection, corner, end_piece, edge, unconnected, .. } => match kind {
            MultitileKind::Center => center,
            MultitileKind::TConnection => t_connection,
            MultitileKind::Corner => corner,
            MultitileKind::EndPiece => end_piece,
            MultitileKind::Edge => edge,
            MultitileKind::Unconnected => unconnected,
        },
        _ => None,
    }
}

fn legacy_fg_direction_exec(t: bool, r: bool, b: bool, l: bool) -> (d: CardinalDirection)
    ensures
        direction_index(d) == legacy_fg_direction(seq![t, r, b, l]),
{
    match (t, r, b, l) {
        (true, true, true, true) => CardinalDirection::North,
        (true, true, true, false) => CardinalDirection::East,
        (true, true, false, true) => CardinalDirection::South,
        (true, false, true, true) => CardinalDirection::West,
        (false, true, true, true) => CardinalDirection::North,
        (true, true, false, false) => CardinalDirection::East,
        (true, false, false, true) => CardinalDirection::South,
        (false, true, true, false) => CardinalDirection::North,
        (false, false, true, true) => CardinalDirection::West,
        (true, false, false, false) => CardinalDirection::South,
        (false, true, false, false) => CardinalDirection::East,
        (false, false, true, false) => CardinalDirection::North,
        (false, false, false, true) => CardinalDirection::West,
        (false, true, false, true) => CardinalDirection::East,
        (true, false, true, false) => CardinalDirection::North,
        (false, false, false, false) => CardinalDirection::North,
    }
}

/// Whether a sprite can be asked for its layer sprites: open and broken
/// sprites and animated multitiles are not handled.
pub open spec fn legacy_handled(sprite: Sprite) -> bool {
    match sprite {
        Sprite::Single { .. } => true,
        Sprite::Multitile { animated, .. } => !animated,
        _ => false,
    }
}

impl Sprite {
    /// The connections of the tile to its four neighbours (see
    /// `spec_does_id_connect`).
    pub fn get_matching_list(
        this_id: &CDDAIdentifier,
        layer: &TileLayer,
        json_data: &DeserializedCDDAJsonData,
        top: Option<CDDAIdentifier>,
        right: Option<CDDAIdentifier>,
        bottom: Option<CDDAIdentifier>,
        left: Option<CDDAIdentifier>,
    ) -> (r: (bool, bool, bool, bool))
        requires
            connection_data_known(
                *json_data,
                *layer,
                this_id@,
                seq![opt_ids(top), opt_ids(right), opt_ids(bottom), opt_ids(left)],
            ),
        ensures
            seq![r.0, r.1, r.2, r.3] == spec_matching_list(
                *json_data,
                *layer,
                this_id@,
                opt_ids(top),
                opt_ids(right),
                opt_ids(bottom),
                opt_ids(left),
            ),
    {
        let t = ids_connect(this_id, top.as_ref(), *layer, json_data);
        let r = ids_connect(this_id, right.as_ref(), *layer, json_data);
        let b = ids_connect(this_id, bottom.as_ref(), *layer, json_data);
        let l = ids_connect(this_id, left.as_ref(), *layer, json_data);
        (t, r, b, l)
    }

    /// The foreground sprite of a tile: a single tile shows all its sprites
    /// as frames when animated, else one picked at random; a multitile shows
    /// the part for its connections, the sprite for the direction of the
    /// connections (see `legacy_fg_direction`), picked at random.
    pub fn get_fg_id(
        &self,
        this_id: &CDDAIdentifier,
        json_data: &DeserializedCDDAJsonData,
        layer: &TileLayer,
        top: Option<CDDAIdentifier>,
        right: Option<CDDAIdentifier>,
        bottom: Option<CDDAIdentifier>,
        left: Option<CDDAIdentifier>,
    ) -> (r: Option<MeabyVec<SpriteIndex>>)
        requires
            legacy_handled(*self),
            self is Multitile ==> connection_data_known(
                *json_data,
                *layer,
                this_id@,
                seq![opt_ids(top), opt_ids(right), opt_ids(bottom), opt_ids(left)],
            ),
            self matches Sprite::Single { ids, animated, .. } ==> (animated == false && ids.fg is Some ==> sprite_pick_ok(
                ids.fg->0@,
            )),
            self is Multitile ==> ({
                let c = spec_matching_list(
                    *json_data,
                    *layer,
                    this_id@,
                    opt_ids(top),
                    opt_ids(right),
                    opt_ids(bottom),
                    opt_ids(left),
                );
                match legacy_part(*self, spec_multitile_choice(c).0) {
                    Some(p) => p.ids.fg is Some ==> additional_pick_ok(p.ids.fg->0@, legacy_fg_direction(c)),
                    None => true,
                }
            }),
        ensures
            match *self {
                Sprite::Single { ids, animated, .. } => match ids.fg {
                    None => r is None,
                    Some(fg) => if animated {
                        if fg@.len() == 0 {
                            r is None
                        } else {
                            r matches Some(MeabyVec::Vec(v)) && v@ == Seq::new(fg@.len(), |i: int| fg@[i].sprite)
                        }
                    } else {
                        sprite_pick(fg@, r)
                    },
                },
                Sprite::Multitile { .. } => {
                    let c = spec_matching_list(
                        *json_data,
                        *layer,
                        this_id@,
                        opt_ids(top),
                        opt_ids(right),
                        opt_ids(bottom),
                        opt_ids(left),
                    );
                    match legacy_part(*self, spec_multitile_choice(c).0) {
                        None => r is None,
                        Some(p) => match p.ids.fg {
                            None => r is None,
                            Some(fg) => additional_pick(fg@, legacy_fg_direction(c), r),
                        },
                    }
                },
                _ => false,
            },
    {
        match self {
            Sprite::Single { ids, animated, .. } => match &ids.fg {
                None => None,
                Some(fg) => if *animated {
                    Self::get_random_animated_sprite(fg)
                } else {
                    Self::get_random_sprite(fg)
                },
            },
            Sprite::Multitile { center, corner, t_connection, edge, unconnected, end_piece, .. } => {
                let (t, r, b, l) = Self::get_matching_list(this_id, layer, json_data, top, right, bottom, left);
                let (kind, _) = multitile_choice(t, r, b, l);
                let direction = legacy_fg_direction_exec(t, r, b, l);
                let part = match kind {
                    MultitileKind::Center => center,
                    MultitileKind::TConnection => t_connection,
                    MultitileKind::Corner => corner,
                    MultitileKind::EndPiece => end_piece,
                    MultitileKind::Edge => edge,
                    MultitileKind::Unconnected => unconnected,
                };
                match part {
                    None => None,
                    Some(p) => match &p.ids.fg {
                        None => None,
                        Some(fg) => Self::get_random_additional_tile_sprite(direction, fg),
                    },
                }
            },
            _ => {
                proof {
                    assert(false);
                }
                None
            },
        }
    }

    /// The background sprite of a tile: a single tile shows all its sprites
    /// as frames when animated, else one picked at random; a multitile shows
    /// a sprite of the part for its connections, picked at random.
    pub fn get_bg_id(
        &self,
        this_id: &CDDAIdentifier,
        json_data: &DeserializedCDDAJsonData,
        layer: &TileLayer,
        top: Option<CDDAIdentifier>,
        right: Option<CDDAIdentifier>,
        bottom: Option<CDDAIdentifier>,
        left: Option<CDDAIdentifier>,
    ) -> (r: Option<MeabyVec<SpriteIndex>>)
        requires
            legacy_handled(*self),
            self is Multitile ==> connection_data_known(
                *json_data,
                *layer,
                this_id@,
                seq![opt_ids(top), opt_ids(right), opt_ids(bottom), opt_ids(left)],
            ),
            self matches Sprite::Single { ids, animated, .. } ==> (animated == false && ids.bg is Some ==> sprite_pick_ok(
                ids.bg->0@,
            )),
            self is Multitile ==> ({
                let c = spec_matching_list(
                    *json_data,
                    *layer,
                    this_id@,
                    opt_ids(top),
                    opt_ids(right),
                    opt_ids(bottom),
                    opt_ids(left),
                );
                match legacy_part(*self, spec_multitile_choice(c).0) {
                    Some(p) => p.ids.bg is Some ==> sprite_pick_ok(p.ids.bg->0@),
                    None => true,
                }
            }),
        ensures
            match *self {
                Sprite::Single { ids, animated, .. } => match ids.bg {
                    None => r is None,
                    Some(bg) => if animated {
                        if bg@.len() == 0 {
                            r is None
                        } else {
                            r matches Some(MeabyVec::Vec(v)) && v@ == Seq::new(bg@.len(), |i: int| bg@[i].sprite)
                        }
                    } else {
                        sprite_pick(bg@, r)
                    },
                },
                Sprite::Multitile { .. } => {
                    let c = spec_matching_list(
                        *json_data,
                        *layer,
                        this_id@,
                        opt_ids(top),
                        opt_ids(right),
                        opt_ids(bottom),
                        opt_ids(left),
                    );
                    match legacy_part(*self, spec_multitile_choice(c).0) {
                        None => r is None,
                        Some(p) => match p.ids.bg {
                            None => r is None,
                            Some(bg) => sprite_pick(bg@, r),
                        },
                    }
                },
                _ => false,
            },
    {
        match self {
            Sprite::Single { ids, animated, .. } => match &ids.bg {
                None => None,
                Some(bg) => if *animated {
                    Self::get_random_animated_sprite(bg)
                } else {
                    Self::get_random_sprite(bg)
                },
            },
            Sprite::Multitile { center, corner, t_connection, edge, unconnected, end_piece, .. } => {
                let (t, r, b, l) = Self::get_matching_list(this_id, layer, json_data, top, right, bottom, left);
                let (kind, _) = multitile_choice(t, r, b, l);
                let part = match kind {
                    MultitileKind::Center => center,
                    MultitileKind::TConnection => t_connection,
                    MultitileKind::Corner => corner,
                    MultitileKind::EndPiece => end_piece,
                    MultitileKind::Edge => edge,
                    MultitileKind::Unconnected => unconnected,
                };
                match part {
                    None => None,
                    Some(p) => match &p.ids.bg {
                        None => None,
                        Some(bg) => Self::get_random_sprite(bg),
                    },
                }
            },
            _ => {
                proof {
                    assert(false);
                }
                None
            },
        }
    }
}

/// The sprites of a tile by direction: one for all, one for up and one for
/// right, or one for each of up, right, down and left.
pub enum Rotations<T> {
    Single(T),
    Horizontal((T, T)),
    Full((T, T, T, T)),
}

impl<T: Copy> Rotations<T> {
    /// The sprite facing up; a tile with an up and a right sprite has no
    /// answer for it.
    pub fn up(&self) -> (r: T)
        requires
            !(self is Horizontal),
        ensures
            r == match self {
                Rotations::Single(d) => *d,
                Rotations::Full((u, _, _, _)) => *u,
                Rotations::Horizontal((l, _)) => *l,
            },
    {
        match self {
            Rotations::Single(d) => *d,
            Rotations::Full((u, _, _, _)) => *u,
            Rotations::Horizontal((l, _)) => *l,
        }
    }

    /// The sprite facing right.
    pub fn right(&self) -> (r: T)
        ensures
            r == match self {
                Rotations::Single(d) => *d,
                Rotations::Horizontal((_, r)) => *r,
                Rotations::Full((_, r, _, _)) => *r,
            },
    {
        match self {
            Rotations::Single(d) => *d,
            Rotations::Horizontal((_, r)) => *r,
            Rotations::Full((_, r, _, _)) => *r,
        }
    }
}

} // verus!
