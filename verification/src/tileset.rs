use vstd::prelude::*;
use crate::types::{CDDAIdentifier, MeabyVec, Weighted};

verus! {

/// A rotation in quarter turns, clockwise.
#[derive(Debug, Clone, Copy, PartialEq, Eq, Structural)]
pub enum Rotation {
    Deg0,
    Deg90,
    Deg180,
    Deg270,
}

impl Rotation {
    /// The number of quarter turns, from 0 to 3.
    pub open spec fn quarters(self) -> int {
        match self {
            Rotation::Deg0 => 0,
            Rotation::Deg90 => 1,
            Rotation::Deg180 => 2,
            Rotation::Deg270 => 3,
        }
    }

    /// The rotation of `q` quarter turns, for `q` in `0..4`.
    pub open spec fn of_quarters(q: int) -> Rotation {
        if q == 0 {
            Rotation::Deg0
        } else if q == 1 {
            Rotation::Deg90
        } else if q == 2 {
            Rotation::Deg180
        } else {
            Rotation::Deg270
        }
    }

    /// The rotation of `self` followed by `other`.
    pub fn rotated_by(self, other: Rotation) -> (r: Rotation)
        ensures
            r.quarters() == (self.quarters() + other.quarters()) % 4,
    {
        let q: u8 = match self {
            Rotation::Deg0 => 0,
            Rotation::Deg90 => 1,
            Rotation::Deg180 => 2,
            Rotation::Deg270 => 3,
        };
        let p: u8 = match other {
            Rotation::Deg0 => 0,
            Rotation::Deg90 => 1,
            Rotation::Deg180 => 2,
            Rotation::Deg270 => 3,
        };
        let s: u8 = (q + p) % 4;
        if s == 0 {
            Rotation::Deg0
        } else if s == 1 {
            Rotation::Deg90
        } else if s == 2 {
            Rotation::Deg180
        } else {
            Rotation::Deg270
        }
    }
}

/// One of the four directions of the compass.
#[derive(Debug, Clone, Copy, PartialEq, Eq, Structural)]
pub enum CardinalDirection {
    North,
    East,
    South,
    West,
}

/// The index of a sprite in the tileset's sprite sheets.
pub type SpriteIndex = u32;

/// The sprites of a tile that rotates: one sprite that is turned when drawn,
/// or a sprite for each of two or four directions.
#[derive(Debug, Clone, Copy)]
pub enum Rotates {
    Auto(SpriteIndex),
    Pre2((SpriteIndex, SpriteIndex)),
    Pre4((SpriteIndex, SpriteIndex, SpriteIndex, SpriteIndex)),
}

/// The sprite indices of a tile could not be read as a rotation.
pub enum RotatesError {
    InvalidIndices(Vec<SpriteIndex>),
}

impl Rotates {
    /// The first sprite, which stands for the tile facing north.
    pub open spec fn first(self) -> SpriteIndex {
        match self {
            Rotates::Auto(a) => a,
            Rotates::Pre2(p) => p.0,
            Rotates::Pre4(p) => p.0,
        }
    }

    /// The sprite facing `direction`. A sprite with two directions has none
    /// for south and west.
    pub fn get(&self, direction: &CardinalDirection) -> (r: &SpriteIndex)
        requires
            !(self is Pre2 && (*direction == CardinalDirection::South || *direction
                == CardinalDirection::West)),
        ensures
            *r == match *self {
                Rotates::Auto(a) => a,
                Rotates::Pre2(p) => if *direction == CardinalDirection::North {
                    p.0
                } else {
                    p.1
                },
                Rotates::Pre4(p) => match *direction {
                    CardinalDirection::North => p.0,
                    CardinalDirection::East => p.1,
                    CardinalDirection::South => p.2,
                    CardinalDirection::West => p.3,
                },
            },
    {
        match self {
            Rotates::Auto(a) => a,
            Rotates::Pre2(p) => match direction {
                CardinalDirection::North => &p.0,
                _ => &p.1,
            },
            Rotates::Pre4(p) => match direction {
                CardinalDirection::North => &p.0,
                CardinalDirection::East => &p.1,
                CardinalDirection::South => &p.2,
                CardinalDirection::West => &p.3,
            },
        }
    }

    /// Reads one, two or four (or more, of which the first four count)
    /// sprite indices as a rotation; any other count is an error.
    pub fn try_from(value: Vec<SpriteIndex>) -> (r: Result<Rotates, RotatesError>)
        ensures
            value.len() == 1 ==> r == Ok::<Rotates, RotatesError>(Rotates::Auto(value[0])),
            value.len() == 2 ==> r == Ok::<Rotates, RotatesError>(
                Rotates::Pre2((value[0], value[1])),
            ),
            value.len() >= 4 ==> r == Ok::<Rotates, RotatesError>(
                Rotates::Pre4((value[0], value[1], value[2], value[3])),
            ),
            (value.len() == 0 || value.len() == 3) ==> (r matches Err(
                RotatesError::InvalidIndices(v),
            ) && v@ == value@),
    {
        let n = value.len();
        if n == 1 {
            Ok(Rotates::Auto(value[0]))
        } else if n == 2 {
            Ok(Rotates::Pre2((value[0], value[1])))
        } else if n >= 4 {
            Ok(Rotates::Pre4((value[0], value[1], value[2], value[3])))
        } else {
            Err(RotatesError::InvalidIndices(value))
        }
    }

    /// The sprite to draw and the rotation to draw it with, for a tile turned
    /// by `rotation` and then by `extra`: a single sprite is turned, a sprite
    /// per direction is chosen and drawn unturned. A tile that does not
    /// rotate draws its first sprite unturned.
    pub open spec fn spec_index_with_rotation(
        self,
        rotation: Rotation,
        extra: Rotation,
        can_rotate: bool,
    ) -> (SpriteIndex, Rotation) {
        let q = (rotation.quarters() + extra.quarters()) % 4;
        if !can_rotate {
            (self.first(), Rotation::Deg0)
        } else {
            match self {
                Rotates::Auto(a) => (a, Rotation::of_quarters(q)),
                Rotates::Pre2(p) => (if q % 2 == 0 {
                    p.0
                } else {
                    p.1
                }, Rotation::Deg0),
                Rotates::Pre4(p) => (if q == 0 {
                    p.0
                } else if q == 1 {
                    p.1
                } else if q == 2 {
                    p.2
                } else {
                    p.3
                }, Rotation::Deg0),
            }
        }
    }

    pub fn get_index_with_rotation(&self, rotation: Rotation, extra: Rotation, can_rotate: bool) -> (r: (
        SpriteIndex,
        Rotation,
    ))
        ensures
            r == self.spec_index_with_rotation(rotation, extra, can_rotate),
    {
        let total = rotation.rotated_by(extra);
        if !can_rotate {
            let first = match self {
                Rotates::Auto(a) => *a,
                Rotates::Pre2(p) => p.0,
                Rotates::Pre4(p) => p.0,
            };
            return (first, Rotation::Deg0);
        }
        match self {
            Rotates::Auto(a) => (*a, total),
            Rotates::Pre2(p) => {
                let i = match total {
                    Rotation::Deg0 | Rotation::Deg180 => p.0,
                    _ => p.1,
                };
                (i, Rotation::Deg0)
            },
            Rotates::Pre4(p) => {
                let i = match total {
                    Rotation::Deg0 => p.0,
                    Rotation::Deg90 => p.1,
                    Rotation::Deg180 => p.2,
                    Rotation::Deg270 => p.3,
                };
                (i, Rotation::Deg0)
            },
        }
    }
}

/// A value with the rotation to draw it with.
pub struct Rotated<T> {
    pub data: T,
    pub rotation: Rotation,
}

impl<T> Rotated<T> {
    pub fn none(data: T) -> (r: Self)
        ensures
            r.data == data,
            r.rotation == Rotation::Deg0,
    {
        Rotated { data, rotation: Rotation::Deg0 }
    }

    pub fn new(data: T, rotation: Rotation) -> (r: Self)
        ensures
            r.data == data,
            r.rotation == rotation,
    {
        Rotated { data, rotation }
    }
}

/// Whether a sprite is drawn behind or in front.
#[derive(Debug, Clone, Copy, PartialEq, Eq, Structural)]
pub enum SpriteLayer {
    Bg,
    Fg,
}

/// A pair of foreground and background values.
pub struct FgBgIds<FG, BG> {
    pub fg: FG,
    pub bg: BG,
}

impl<FG, BG> FgBgIds<FG, BG> {
    pub fn new(fg: FG, bg: BG) -> (r: Self)
        ensures
            r.fg == fg,
            r.bg == bg,
    {
        FgBgIds { fg, bg }
    }
}

impl<Ids> FgBgIds<Ids, Ids> {
    pub open spec fn spec_of_sprite_layer(&self, layer: SpriteLayer) -> Ids {
        match layer {
            SpriteLayer::Bg => self.bg,
            SpriteLayer::Fg => self.fg,
        }
    }

    /// The value of the given layer.
    pub fn of_sprite_layer(&self, layer: SpriteLayer) -> (r: &Ids)
        ensures
            *r == self.spec_of_sprite_layer(layer),
    {
        match layer {
            SpriteLayer::Bg => &self.bg,
            SpriteLayer::Fg => &self.fg,
        }
    }
}

/// The weighted sprite choices of one layer of a tile, if the tile has that layer.
pub type FinalIds = Option<Vec<Weighted<Rotates>>>;

/// The sprites of one tile.
pub struct SingleSprite {
    pub ids: FgBgIds<FinalIds, FinalIds>,
    pub rotates: bool,
    pub animated: bool,
}

/// The sprites of a tile: a single tile, or a tile that changes with its
/// connections to its neighbours.
pub enum Sprite {
    Single(SingleSprite),
    Multitile {
        fallback: SingleSprite,
        edge: Option<SingleSprite>,
        corner: Option<SingleSprite>,
        center: Option<SingleSprite>,
        t_connection: Option<SingleSprite>,
        end_piece: Option<SingleSprite>,
        unconnected: Option<SingleSprite>,
        broken: Option<SingleSprite>,
        open: Option<SingleSprite>,
    },
}

impl Sprite {
    /// Whether the tile (for a multitile: its fallback) is animated.
    pub fn is_animated(&self) -> (r: bool)
        ensures
            r == match self {
                Sprite::Single(s) => s.animated,
                Sprite::Multitile { fallback, .. } => fallback.animated,
            },
    {
        match self {
            Sprite::Single(single) => single.animated,
            Sprite::Multitile { fallback, .. } => fallback.animated,
        }
    }
}

} // verus!
