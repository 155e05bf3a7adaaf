use vstd::prelude::*;
use crate::map_data::SetIntermediate;
use crate::number_or_range::NumberOrRange;
use crate::om_terrain::str_eq;
use crate::types::CDDAIdentifier;

verus! {

/// What a `set` entry places.
#[derive(Debug, Clone, Copy, PartialEq, Eq, Structural)]
pub enum PlaceableSetType {
    Terrain,
    Furniture,
    Trap,
}

/// What a `set` entry removes.
#[derive(Debug, Clone, Copy, PartialEq, Eq, Structural)]
pub enum RemovableSetType {
    TrapRemove,
    ItemRemove,
    FieldRemove,
    CreatureRemove,
}

/// What a `set` entry does.
pub enum SetOperation {
    Place { id: CDDAIdentifier, ty: PlaceableSetType },
    Remove { ty: RemovableSetType },
    Radiation { amount: NumberOrRange<u32> },
    Variable { id: CDDAIdentifier },
    Bash,
    Burn,
}

pub struct SetLine {
    pub from_x: NumberOrRange<u32>,
    pub from_y: NumberOrRange<u32>,
    pub to_x: NumberOrRange<u32>,
    pub to_y: NumberOrRange<u32>,
    pub z: i32,
    pub chance: u32,
    pub repeat: (u32, u32),
    pub operation: SetOperation,
}

pub struct SetPoint {
    pub x: NumberOrRange<u32>,
    pub y: NumberOrRange<u32>,
    pub z: i32,
    pub chance: u32,
    pub repeat: (u32, u32),
    pub operation: SetOperation,
}

pub struct SetSquare {
    pub top_left_x: NumberOrRange<u32>,
    pub top_left_y: NumberOrRange<u32>,
    pub bottom_right_x: NumberOrRange<u32>,
    pub bottom_right_y: NumberOrRange<u32>,
    pub z: i32,
    pub chance: u32,
    pub repeat: (u32, u32),
    pub operation: SetOperation,
}

/// A `set` entry of a map.
pub enum SetEntry {
    Line(SetLine),
    Point(SetPoint),
    Square(SetSquare),
}

/// What a set type name places, if it names something to place.
pub open spec fn placeable_of(t: Seq<char>) -> Option<PlaceableSetType> {
    if t == "terrain"@ {
        Some(PlaceableSetType::Terrain)
    } else if t == "furniture"@ {
        Some(PlaceableSetType::Furniture)
    } else if t == "trap"@ {
        Some(PlaceableSetType::Trap)
    } else {
        None
    }
}

/// What a set type name removes, if it names something to remove.
pub open spec fn removable_of(t: Seq<char>) -> Option<RemovableSetType> {
    if t == "trap_remove"@ {
        Some(RemovableSetType::TrapRemove)
    } else if t == "item_remove"@ {
        Some(RemovableSetType::ItemRemove)
    } else if t == "field_remove"@ {
        Some(RemovableSetType::FieldRemove)
    } else if t == "creature_remove"@ {
        Some(RemovableSetType::CreatureRemove)
    } else {
        None
    }
}

/// The operation of a `set` entry of the given shape (0 line, 1 point,
/// 2 square) and type name, if the entry gives one: placing needs an `id`,
/// radiation an `amount` (a square defaults to 1), a variable an `id`;
/// variables, bashing and burning are for points only; unknown names give none.
pub open spec fn spec_set_operation(
    shape: int,
    t: Seq<char>,
    sid: Option<CDDAIdentifier>,
    amount: Option<NumberOrRange<u32>>,
) -> Option<SetOperation> {
    if placeable_of(t) is Some {
        match sid {
            Some(id) => Some(SetOperation::Place { id, ty: placeable_of(t)->0 }),
            None => None,
        }
    } else if removable_of(t) is Some {
        Some(SetOperation::Remove { ty: removable_of(t)->0 })
    } else if t == "radiation"@ {
        if shape == 2 {
            Some(SetOperation::Radiation { amount: match amount {
                Some(a) => a,
                None => NumberOrRange::Number(1),
            } })
        } else {
            match amount {
                Some(a) => Some(SetOperation::Radiation { amount: a }),
                None => None,
            }
        }
    } else if shape == 1 && t == "variable"@ {
        match sid {
            Some(id) => Some(SetOperation::Variable { id }),
            None => None,
        }
    } else if shape == 1 && t == "bash"@ {
        Some(SetOperation::Bash)
    } else if shape == 1 && t == "burn"@ {
        Some(SetOperation::Burn)
    } else {
        None
    }
}

/// The `set` entry that a written entry stands for, if any: a line needs
/// `x`, `y`, `x2` and `y2`, a point `x` and `y`, a square all four; the
/// level defaults to 0, the chance to 1, the repeat to `(0, 1)` for a line
/// and `(1, 1)` otherwise.
pub open spec fn spec_set_entry(s: SetIntermediate) -> Option<SetEntry> {
    let z = match s.z {
        Some(v) => v,
        None => 0,
    };
    let chance = match s.chance {
        Some(v) => v,
        None => 1,
    };
    if s.line is Some {
        if s.x is Some && s.y is Some && s.x2 is Some && s.y2 is Some {
            match spec_set_operation(0, s.line->0@, s.id, s.amount) {
                Some(op) => Some(SetEntry::Line(SetLine {
                    from_x: s.x->0,
                    from_y: s.y->0,
                    to_x: s.x2->0,
                    to_y: s.y2->0,
                    z,
                    chance,
                    repeat: match s.repeat {
                        Some(r) => r,
                        None => (0, 1),
                    },
                    operation: op,
                })),
                None => None,
            }
        } else {
            None
        }
    } else if s.point is Some {
        if s.x is Some && s.y is Some {
            match spec_set_operation(1, s.point->0@, s.id, s.amount) {
                Some(op) => Some(SetEntry::Point(SetPoint {
                    x: s.x->0,
                    y: s.y->0,
                    z,
                    chance,
                    repeat: match s.repeat {
                        Some(r) => r,
                        None => (1, 1),
                    },
                    operation: op,
                })),
                None => None,
            }
        } else {
            None
        }
    } else if s.square is Some {
        if s.x is Some && s.y is Some && s.x2 is Some && s.y2 is Some {
            match spec_set_operation(2, s.square->0@, s.id, s.amount) {
                Some(op) => Some(SetEntry::Square(SetSquare {
                    top_left_x: s.x->0,
                    top_left_y: s.y->0,
                    bottom_right_x: s.x2->0,
                    bottom_right_y: s.y2->0,
                    z,
                    chance,
                    repeat: match s.repeat {
                        Some(r) => r,
                        None => (1, 1),
                    },
                    operation: op,
                })),
                None => None,
            }
        } else {
            None
        }
    } else {
        None
    }
}

fn set_operation(
    shape: u8,
    t: &CDDAIdentifier,
    sid: Option<CDDAIdentifier>,
    amount: Option<NumberOrRange<u32>>,
) -> (r: Option<SetOperation>)
    requires
        shape <= 2,
    ensures
        r == spec_set_operation(shape as int, t@, sid, amount),
{
    proof {
        reveal_strlit("terrain");
        reveal_strlit("furniture");
        reveal_strlit("trap");
        reveal_strlit("trap_remove");
        reveal_strlit("item_remove");
        reveal_strlit("field_remove");
        reveal_strlit("creature_remove");
        reveal_strlit("radiation");
        reveal_strlit("variable");
        reveal_strlit("bash");
        reveal_strlit("burn");
    }
    let text = t.0.as_str();
    let placeable = if str_eq(text, "terrain") {
        Some(PlaceableSetType::Terrain)
    } else if str_eq(text, "furniture") {
        Some(PlaceableSetType::Furniture)
    } else if str_eq(text, "trap") {
        Some(PlaceableSetType::Trap)
    } else {
        None
    };
    if let Some(ty) = placeable {
        return match sid {
            Some(id) => Some(SetOperation::Place { id, ty }),
            None => None,
        };
    }
    let removable = if str_eq(text, "trap_remove") {
        Some(RemovableSetType::TrapRemove)
    } else if str_eq(text, "item_remove") {
        Some(RemovableSetType::ItemRemove)
    } else if str_eq(text, "field_remove") {
        Some(RemovableSetType::FieldRemove)
    } else if str_eq(text, "creature_remove") {
        Some(RemovableSetType::CreatureRemove)
    } else {
        None
    };
    if let Some(ty) = removable {
        return Some(SetOperation::Remove { ty });
    }
    if str_eq(text, "radiation") {
        if shape == 2 {
            let a = match amount {
                Some(a) => a,
                None => NumberOrRange::Number(1),
            };
            return Some(SetOperation::Radiation { amount: a });
        }
        return match amount {
            Some(a) => Some(SetOperation::Radiation { amount: a }),
            None => None,
        };
    }
    if shape == 1 && str_eq(text, "variable") {
        return match sid {
            Some(id) => Some(SetOperation::Variable { id }),
            None => None,
        };
    }
    if shape == 1 && str_eq(text, "bash") {
        return Some(SetOperation::Bash);
    }
    if shape == 1 && str_eq(text, "burn") {
        return Some(SetOperation::Burn);
    }
    None
}

impl SetIntermediate {
    /// The `set` entry that the written entry stands for, if any (see
    /// `spec_set_entry`).
    pub fn into_set(self) -> (r: Option<SetEntry>)
        ensures
            r == spec_set_entry(self),
    {
        let ghost old_self = self;
        let SetIntermediate { line, point, square, id, x, y, z, x2, y2, amount, chance, repeat } = self;
        let z = match z {
            Some(v) => v,
            None => 0,
        };
        let chance = match chance {
            Some(v) => v,
            None => 1,
        };
        if let Some(ty) = line {
            match (x, y, x2, y2) {
                (Some(x), Some(y), Some(x2), Some(y2)) => {
                    let repeat = match repeat {
                        Some(r) => r,
                        None => (0, 1),
                    };
                    match set_operation(0, &ty, id, amount) {
                        Some(operation) => Some(
                            SetEntry::Line(
                                SetLine { from_x: x, from_y: y, to_x: x2, to_y: y2, z, chance, repeat, operation },
                            ),
                        ),
                        None => None,
                    }
                },
                _ => None,
            }
        } else if let Some(ty) = point {
            match (x, y) {
                (Some(x), Some(y)) => {
                    let repeat = match repeat {
                        Some(r) => r,
                        None => (1, 1),
                    };
                    match set_operation(1, &ty, id, amount) {
                        Some(operation) => Some(SetEntry::Point(SetPoint { x, y, z, chance, repeat, operation })),
                        None => None,
                    }
                },
                _ => None,
            }
        } else if let Some(ty) = square {
            match (x, y, x2, y2) {
                (Some(x), Some(y), Some(x2), Some(y2)) => {
                    let repeat = match repeat {
                        Some(r) => r,
                        None => (1, 1),
                    };
                    match set_operation(2, &ty, id, amount) {
                        Some(operation) => Some(
                            SetEntry::Square(
                                SetSquare {
                                    top_left_x: x,
                                    top_left_y: y,
                                    bottom_right_x: x2,
                                    bottom_right_y: y2,
                                    z,
                                    chance,
                                    repeat,
                                    operation,
                                },
                            ),
                        ),
                        None => None,
                    }
                },
                _ => None,
            }
        } else {
            None
        }
    }
}

/// The `set` entries that the written entries stand for, in order, leaving
/// out those that stand for none.
pub open spec fn spec_sets(s: Seq<SetIntermediate>) -> Seq<SetEntry>
    decreases s.len(),
{
    if s.len() == 0 {
        Seq::empty()
    } else {
        match spec_set_entry(s.last()) {
            Some(e) => spec_sets(s.drop_last()).push(e),
            None => spec_sets(s.drop_last()),
        }
    }
}

pub fn sets_from(sets: Vec<SetIntermediate>) -> (r: Vec<SetEntry>)
    ensures
        r@ == spec_sets(sets@),
{
    let ghost vals = sets@;
    let n = sets.len();
    let mut rev = crate::types::reverse_vec(sets);
    let mut out: Vec<SetEntry> = Vec::new();
    let mut i: usize = 0;
    while i < n
        invariant
            n == vals.len(),
            i <= n,
            rev@.len() == n - i,
            forall|j: int| 0 <= j < n - i ==> #[trigger] rev@[j] == vals[n - 1 - j],
            out@ == spec_sets(vals.subrange(0, i as int)),
        decreases n - i,
    {
        let s = rev.pop().unwrap();
        let ghost prefix = vals.subrange(0, i as int + 1);
        assert(prefix.drop_last() =~= vals.subrange(0, i as int));
        assert(prefix.last() == s);
        match s.into_set() {
            Some(e) => out.push(e),
            None => {},
        }
        i = i + 1;
    }
    assert(vals.subrange(0, n as int) =~= vals);
    out
}

} // verus!
