use vstd::prelude::*;
use std::cmp::Ordering;
use crate::random::{random_range_i32, random_range_u32};

verus! {

/// A number, or a range of numbers written as `[from, to]`.
#[derive(Debug)]
pub enum NumberOrRange<T> {
    Number(T),
    Range((T, T)),
}

impl Clone for NumberOrRange<i32> {
    fn clone(&self) -> (r: Self)
        ensures
            r == *self,
    {
        match self {
            NumberOrRange::Number(n) => NumberOrRange::Number(*n),
            NumberOrRange::Range(p) => NumberOrRange::Range((p.0, p.1)),
        }
    }
}

impl Clone for NumberOrRange<u32> {
    fn clone(&self) -> (r: Self)
        ensures
            r == *self,
    {
        match self {
            NumberOrRange::Number(n) => NumberOrRange::Number(*n),
            NumberOrRange::Range(p) => NumberOrRange::Range((p.0, p.1)),
        }
    }
}

impl NumberOrRange<i32> {
    /// The smallest and the largest value that the number or range holds.
    pub open spec fn spec_bounds(self) -> (int, int) {
        match self {
            NumberOrRange::Number(n) => (n as int, n as int),
            NumberOrRange::Range((a, b)) => (a as int, b as int),
        }
    }

    /// The number or both ends of the range moved up by `rhs`.
    pub fn add(self, rhs: i32) -> (r: NumberOrRange<i32>)
        requires
            i32::MIN <= self.spec_bounds().0 + rhs <= i32::MAX,
            i32::MIN <= self.spec_bounds().1 + rhs <= i32::MAX,
        ensures
            r.spec_bounds() == (self.spec_bounds().0 + rhs, self.spec_bounds().1 + rhs),
            r is Number <==> self is Number,
    {
        match self {
            NumberOrRange::Number(n) => NumberOrRange::Number(n + rhs),
            NumberOrRange::Range(r) => NumberOrRange::Range((r.0 + rhs, r.1 + rhs)),
        }
    }

    /// The number or range moved down by `d`.
    pub open spec fn spec_shifted_down(self, d: int) -> NumberOrRange<i32> {
        match self {
            NumberOrRange::Number(n) => NumberOrRange::Number((n - d) as i32),
            NumberOrRange::Range((a, b)) => NumberOrRange::Range(((a - d) as i32, (b - d) as i32)),
        }
    }

    /// `self >= other` as the number or range orders against a value:
    /// greater when the value lies below it, equal when inside.
    pub open spec fn spec_ge(self, other: int) -> bool {
        other < self.spec_bounds().0 || other <= self.spec_bounds().1
    }

    /// `self < other` as the number or range orders against a value: less
    /// when the value lies above it.
    pub open spec fn spec_lt(self, other: int) -> bool {
        self.spec_bounds().0 <= other && self.spec_bounds().1 < other
    }

    pub fn ge(&self, other: i32) -> (r: bool)
        ensures
            r == self.spec_ge(other as int),
    {
        let (lo, hi) = self.get_from_to();
        other < lo || other <= hi
    }

    pub fn lt(&self, other: i32) -> (r: bool)
        ensures
            r == self.spec_lt(other as int),
    {
        let (lo, hi) = self.get_from_to();
        lo <= other && hi < other
    }

    /// The number or both ends of the range moved down by `rhs`.
    pub fn sub(self, rhs: i32) -> (r: NumberOrRange<i32>)
        requires
            i32::MIN <= self.spec_bounds().0 - rhs <= i32::MAX,
            i32::MIN <= self.spec_bounds().1 - rhs <= i32::MAX,
        ensures
            r == self.spec_shifted_down(rhs as int),
            r.spec_bounds() == (self.spec_bounds().0 - rhs, self.spec_bounds().1 - rhs),
            r is Number <==> self is Number,
    {
        match self {
            NumberOrRange::Number(n) => NumberOrRange::Number(n - rhs),
            NumberOrRange::Range(r) => NumberOrRange::Range((r.0 - rhs, r.1 - rhs)),
        }
    }

    /// The number or both ends of the range taken modulo `rhs`, with the
    /// sign of the dividend as Rust's `%` has it.
    pub fn rem(self, rhs: i32) -> (r: NumberOrRange<i32>)
        requires
            rhs != 0,
            !(rhs == -1 && (self.spec_bounds().0 == i32::MIN || self.spec_bounds().1 == i32::MIN)),
        ensures
            r is Number <==> self is Number,
            rhs > 0 ==> r.spec_bounds().0 == truncated_rem(self.spec_bounds().0, rhs as int),
            rhs > 0 ==> r.spec_bounds().1 == truncated_rem(self.spec_bounds().1, rhs as int),
    {
        match self {
            NumberOrRange::Number(n) => NumberOrRange::Number(n % rhs),
            NumberOrRange::Range(r) => NumberOrRange::Range((r.0 % rhs, r.1 % rhs)),
        }
    }

    /// Whether `other` is the number, or lies in the range (both ends included).
    pub fn eq(&self, other: &i32) -> (r: bool)
        ensures
            r == (self.spec_bounds().0 <= *other <= self.spec_bounds().1),
    {
        match self {
            NumberOrRange::Number(n) => *n == *other,
            NumberOrRange::Range((min, max)) => *other >= *min && *other <= *max,
        }
    }

    /// How the number or range compares with `other`: a range is greater when
    /// `other` lies below it, less when above, equal when inside.
    pub fn partial_cmp(&self, other: &i32) -> (r: Option<Ordering>)
        ensures
            r == Some(
                if *other < self.spec_bounds().0 {
                    Ordering::Greater
                } else if *other > self.spec_bounds().1 {
                    Ordering::Less
                } else {
                    Ordering::Equal
                },
            ),
    {
        match self {
            NumberOrRange::Number(n) => {
                if *n < *other {
                    Some(Ordering::Less)
                } else if *n > *other {
                    Some(Ordering::Greater)
                } else {
                    Some(Ordering::Equal)
                }
            },
            NumberOrRange::Range((min, max)) => {
                if *other < *min {
                    Some(Ordering::Greater)
                } else if *other > *max {
                    Some(Ordering::Less)
                } else {
                    Some(Ordering::Equal)
                }
            },
        }
    }

    /// The two ends; a number is both.
    pub fn get_from_to(&self) -> (r: (i32, i32))
        ensures
            r.0 == self.spec_bounds().0,
            r.1 == self.spec_bounds().1,
    {
        match self {
            NumberOrRange::Number(n) => (*n, *n),
            NumberOrRange::Range((from, to)) => (*from, *to),
        }
    }

    /// The number, or a random value of the range with its upper end left out.
    pub fn rand_number(&self) -> (r: i32)
        requires
            self is Range ==> self.spec_bounds().0 < self.spec_bounds().1,
        ensures
            self is Number ==> r == self.spec_bounds().0,
            self is Range ==> self.spec_bounds().0 <= r < self.spec_bounds().1,
    {
        match self {
            NumberOrRange::Number(n) => *n,
            NumberOrRange::Range((from, to)) => random_range_i32(*from, *to),
        }
    }

    /// Whether a random draw hits: a number hits always when it is at least
    /// `default_upper_bound`, else when a random value of
    /// `number..default_upper_bound` is the number; a range hits when a random
    /// value of the range (upper end left out) is its lower end.
    pub fn is_random_hit(&self, default_upper_bound: i32) -> (r: bool)
        requires
            self is Range ==> self.spec_bounds().0 < self.spec_bounds().1,
        ensures
            self is Number && self.spec_bounds().0 >= default_upper_bound ==> r,
            self is Number && self.spec_bounds().0 + 1 == default_upper_bound ==> r,
            self is Range && self.spec_bounds().0 + 1 == self.spec_bounds().1 ==> r,
            !(self is Number && self.spec_bounds().0 >= default_upper_bound) ==> exists|draw: int|
                self.spec_draw_bounds(default_upper_bound as int).0 <= draw < self.spec_draw_bounds(
                    default_upper_bound as int,
                ).1 && r == #[trigger] self.spec_hit(default_upper_bound as int, draw),
    {
        match self {
            NumberOrRange::Number(n) => {
                if *n >= default_upper_bound {
                    return true;
                }
                let num = random_range_i32(*n, default_upper_bound);
                self.hit_for_draw(default_upper_bound, num)
            },
            NumberOrRange::Range((from, to)) => {
                let num = random_range_i32(*from, *to);
                self.hit_for_draw(default_upper_bound, num)
            },
        }
    }

    /// The values that a random draw for a hit is taken from: `number..bound`
    /// for a number, the range (upper end left out) for a range.
    pub open spec fn spec_draw_bounds(self, bound: int) -> (int, int) {
        match self {
            NumberOrRange::Number(n) => (n as int, bound),
            NumberOrRange::Range((a, b)) => (a as int, b as int),
        }
    }

    /// Whether the draw is a hit: a number hits when it is at least the
    /// bound or the draw is the number; a range hits when the draw is its
    /// lower end.
    pub open spec fn spec_hit(self, bound: int, draw: int) -> bool {
        match self {
            NumberOrRange::Number(n) => n >= bound || draw == n,
            NumberOrRange::Range((a, _)) => draw == a,
        }
    }

    /// Whether `draw` is a hit (see `is_random_hit`).
    pub fn hit_for_draw(&self, default_upper_bound: i32, draw: i32) -> (r: bool)
        ensures
            r == self.spec_hit(default_upper_bound as int, draw as int),
    {
        match self {
            NumberOrRange::Number(n) => *n >= default_upper_bound || draw == *n,
            NumberOrRange::Range((from, _)) => draw == *from,
        }
    }
}

impl NumberOrRange<u32> {
    pub open spec fn spec_bounds(self) -> (int, int) {
        match self {
            NumberOrRange::Number(n) => (n as int, n as int),
            NumberOrRange::Range((a, b)) => (a as int, b as int),
        }
    }

    /// The two ends; a number is both.
    pub fn get_from_to(&self) -> (r: (u32, u32))
        ensures
            r.0 == self.spec_bounds().0,
            r.1 == self.spec_bounds().1,
    {
        match self {
            NumberOrRange::Number(n) => (*n, *n),
            NumberOrRange::Range((from, to)) => (*from, *to),
        }
    }

    /// The number, or a random value of the range with its upper end left out.
    pub fn rand_number(&self) -> (r: u32)
        requires
            self is Range ==> self.spec_bounds().0 < self.spec_bounds().1,
        ensures
            self is Number ==> r == self.spec_bounds().0,
            self is Range ==> self.spec_bounds().0 <= r < self.spec_bounds().1,
    {
        match self {
            NumberOrRange::Number(n) => *n,
            NumberOrRange::Range((from, to)) => random_range_u32(*from, *to),
        }
    }

    /// Whether a random draw hits, as for `i32` values: a number hits always
    /// when it is at least `default_upper_bound`, else when a random value of
    /// `number..default_upper_bound` is the number; a range hits when a
    /// random value of the range (upper end left out) is its lower end.
    pub fn is_random_hit(&self, default_upper_bound: u32) -> (r: bool)
        requires
            self is Range ==> self.spec_bounds().0 < self.spec_bounds().1,
        ensures
            self is Number && self.spec_bounds().0 >= default_upper_bound ==> r,
            self is Number && self.spec_bounds().0 + 1 == default_upper_bound ==> r,
            self is Range && self.spec_bounds().0 + 1 == self.spec_bounds().1 ==> r,
            !(self is Number && self.spec_bounds().0 >= default_upper_bound) ==> exists|draw: int|
                self.spec_draw_bounds(default_upper_bound as int).0 <= draw < self.spec_draw_bounds(
                    default_upper_bound as int,
                ).1 && r == #[trigger] self.spec_hit(default_upper_bound as int, draw),
    {
        match self {
            NumberOrRange::Number(n) => {
                if *n >= default_upper_bound {
                    return true;
                }
                let num = random_range_u32(*n, default_upper_bound);
                self.hit_for_draw(default_upper_bound, num)
            },
            NumberOrRange::Range((from, to)) => {
                let num = random_range_u32(*from, *to);
                self.hit_for_draw(default_upper_bound, num)
            },
        }
    }

    /// The values that a random draw for a hit is taken from: `number..bound`
    /// for a number, the range (upper end left out) for a range.
    pub open spec fn spec_draw_bounds(self, bound: int) -> (int, int) {
        match self {
            NumberOrRange::Number(n) => (n as int, bound),
            NumberOrRange::Range((a, b)) => (a as int, b as int),
        }
    }

    /// Whether the draw is a hit: a number hits when it is at least the
    /// bound or the draw is the number; a range hits when the draw is its
    /// lower end.
    pub open spec fn spec_hit(self, bound: int, draw: int) -> bool {
        match self {
            NumberOrRange::Number(n) => n >= bound || draw == n,
            NumberOrRange::Range((a, _)) => draw == a,
        }
    }

    /// Whether `draw` is a hit (see `is_random_hit`).
    pub fn hit_for_draw(&self, default_upper_bound: u32, draw: u32) -> (r: bool)
        ensures
            r == self.spec_hit(default_upper_bound as int, draw as int),
    {
        match self {
            NumberOrRange::Number(n) => *n >= default_upper_bound || draw == *n,
            NumberOrRange::Range((from, _)) => draw == *from,
        }
    }
}

/// The remainder of Rust's `%`: it takes the sign of the dividend.
pub open spec fn truncated_rem(a: int, b: int) -> int {
    if a >= 0 {
        a % abs(b)
    } else {
        -((-a) % abs(b))
    }
}

pub open spec fn abs(x: int) -> int {
    if x < 0 {
        -x
    } else {
        x
    }
}

/// Moving a number or range up and then down by the same amount gives it back.
pub proof fn law_add_then_sub(v: NumberOrRange<i32>, rhs: i32)
    requires
        i32::MIN <= v.spec_bounds().0 + rhs <= i32::MAX,
        i32::MIN <= v.spec_bounds().1 + rhs <= i32::MAX,
    ensures
        ({
            let up = (v.spec_bounds().0 + rhs, v.spec_bounds().1 + rhs);
            (up.0 - rhs, up.1 - rhs) == v.spec_bounds()
        }),
{
}

impl NumberOrRange<i32> {
    /// The number or range that a list of one or two values writes; other
    /// lengths write none.
    pub fn from_list(values: Vec<i32>) -> (r: Option<NumberOrRange<i32>>)
        ensures
            values@.len() == 1 ==> r == Some(NumberOrRange::<i32>::Number(values@[0])),
            values@.len() == 2 ==> r == Some(NumberOrRange::<i32>::Range((values@[0], values@[1]))),
            values@.len() != 1 && values@.len() != 2 ==> r is None,
    {
        if values.len() == 1 {
            Some(NumberOrRange::Number(values[0]))
        } else if values.len() == 2 {
            Some(NumberOrRange::Range((values[0], values[1])))
        } else {
            None
        }
    }
}

impl NumberOrRange<u32> {
    /// The number or range that a list of one or two values writes; other
    /// lengths write none.
    pub fn from_list(values: Vec<u32>) -> (r: Option<NumberOrRange<u32>>)
        ensures
            values@.len() == 1 ==> r == Some(NumberOrRange::<u32>::Number(values@[0])),
            values@.len() == 2 ==> r == Some(NumberOrRange::<u32>::Range((values@[0], values@[1]))),
            values@.len() != 1 && values@.len() != 2 ==> r is None,
    {
        if values.len() == 1 {
            Some(NumberOrRange::Number(values[0]))
        } else if values.len() == 2 {
            Some(NumberOrRange::Range((values[0], values[1])))
        } else {
            None
        }
    }
}

} // verus!
