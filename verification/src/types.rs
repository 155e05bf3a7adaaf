use vstd::prelude::*;
use crate::keyed_map::{KeyedMap, MapKey};

verus! {

pub const TERRAIN_PREFIX: &'static str = "t_";
pub const FURNITURE_PREFIX: &'static str = "f_";
pub const REGION_SETTING_PREFIX: &'static str = "t_region";
pub const NULL_TERRAIN: &'static str = "t_null";
pub const NULL_FURNITURE: &'static str = "f_null";
pub const NULL_NESTED: &'static str = "null";
pub const NULL_FIELD: &'static str = "fd_null";
pub const NULL_TRAP: &'static str = "tr_null";
pub const DEFAULT_REGION_SETTING_ENTRY: &'static str = "default";
pub const MAX_MAPGEN_WIDTH: u32 = 24;
pub const MIN_MAPGEN_WIDTH: u32 = 0;
pub const MAX_MAPGEN_HEIGHT: u32 = 24;
pub const MIN_MAPGEN_HEIGHT: u32 = 0;
pub const DEFAULT_CELL_CHARACTER: char = ' ';

/// An identifier of a json entry of the game data (terrain, furniture, palettes, ...).
#[derive(Debug, PartialEq, Eq, Hash)]
pub struct CDDAIdentifier(pub String);

impl View for CDDAIdentifier {
    type V = Seq<char>;

    open spec fn view(&self) -> Seq<char> {
        self.0@
    }
}

impl Clone for CDDAIdentifier {
    fn clone(&self) -> (r: Self)
        ensures
            r == *self,
    {
        CDDAIdentifier(self.0.clone())
    }
}

impl MapKey for CDDAIdentifier {
    type Key = Seq<char>;

    open spec fn key(&self) -> Seq<char> {
        self@
    }

    fn same_key(&self, other: &Self) -> (r: bool) {
        self.0 == other.0
    }
}

impl CDDAIdentifier {
    /// Builds an identifier from its text.
    pub fn from_str(s: &str) -> (r: CDDAIdentifier)
        ensures
            r@ == s@,
    {
        CDDAIdentifier(String::from_str(s))
    }

    /// Two identifiers are equal when their text is equal.
    pub fn eq_id(&self, other: &CDDAIdentifier) -> (r: bool)
        ensures
            r == (self@ == other@),
    {
        self.0 == other.0
    }
}

/// The name of a mapgen parameter.
#[derive(Debug, PartialEq, Eq, Hash)]
pub struct ParameterIdentifier(pub String);

impl View for ParameterIdentifier {
    type V = Seq<char>;

    open spec fn view(&self) -> Seq<char> {
        self.0@
    }
}

impl Clone for ParameterIdentifier {
    fn clone(&self) -> (r: Self)
        ensures
            r@ == self@,
    {
        ParameterIdentifier(self.0.clone())
    }
}

impl MapKey for ParameterIdentifier {
    type Key = Seq<char>;

    open spec fn key(&self) -> Seq<char> {
        self@
    }

    fn same_key(&self, other: &Self) -> (r: bool) {
        self.0 == other.0
    }
}

/// An optional `//` comment of a json entry.
pub type Comment = Option<String>;

pub struct CDDAExtendOp {
    pub flags: Option<Vec<String>>,
}

pub struct CDDADeleteOp {
    pub flags: Option<Vec<String>>,
}

/// An entry is either a concrete entry with an id or an abstract template.
pub enum IdOrAbstract<T> {
    Id(T),
    Abstract(CDDAIdentifier),
}

/// A display string: plain, or an object with a `str` field.
pub enum CDDAString {
    String(String),
    StringMap { str: String },
}

impl CDDAString {
    /// The text of the string in either form.
    pub fn text(&self) -> (r: &String)
        ensures
            *r == match self {
                CDDAString::String(s) => *s,
                CDDAString::StringMap { str } => *str,
            },
    {
        match self {
            CDDAString::String(s) => s,
            CDDAString::StringMap { str } => str,
        }
    }
}

/// Either one value or a list of values.
pub enum MeabyVec<T> {
    Single(T),
    Vec(Vec<T>),
}

/// Calls `fun` on every element, in order, letting it change the element.
fn apply_each<T, F: Fn(&mut T)>(v: &mut Vec<T>, fun: F)
    requires
        forall|x: &mut T| call_requires(fun, (x,)),
    ensures
        final(v)@.len() == old(v)@.len(),
        forall|i: int|
            #![trigger old(v)@[i]]
            0 <= i < old(v)@.len() ==> exists|x: &mut T|
                #![trigger call_ensures(fun, (x,), ())]
                call_ensures(fun, (x,), ()) && *x == old(v)@[i] && *final(x) == final(v)@[i],
{
    let ghost start = v@;
    let mut i: usize = 0;
    while i < v.len()
        invariant
            forall|x: &mut T| call_requires(fun, (x,)),
            v@.len() == start.len(),
            start == old(v)@,
            i <= v@.len(),
            forall|j: int| i <= j < v@.len() ==> #[trigger] v@[j] == start[j],
            forall|j: int|
                #![trigger start[j]]
                0 <= j < i ==> exists|x: &mut T|
                    #![trigger call_ensures(fun, (x,), ())]
                    call_ensures(fun, (x,), ()) && *x == start[j] && *final(x) == v@[j],
        decreases v@.len() - i,
    {
        fun(&mut v[i]);
        i = i + 1;
    }
    proof {
        // Naming one element hands the solver a call of `fun` to start from.
        if start.len() > 0 {
            let first = start[0];
        }
    }
}

impl<T> MeabyVec<T> {
    /// The values in order.
    pub open spec fn values(&self) -> Seq<T> {
        match self {
            MeabyVec::Single(s) => seq![*s],
            MeabyVec::Vec(v) => v@,
        }
    }

    pub fn len(&self) -> (n: usize)
        ensures
            n == self.values().len(),
    {
        match self {
            MeabyVec::Single(_) => 1,
            MeabyVec::Vec(v) => v.len(),
        }
    }

    /// The value at position `i`.
    pub fn get(&self, i: usize) -> (r: &T)
        requires
            i < self.values().len(),
        ensures
            *r == self.values()[i as int],
    {
        match self {
            MeabyVec::Single(s) => s,
            MeabyVec::Vec(v) => &v[i],
        }
    }

    pub fn into_vec(self) -> (r: Vec<T>)
        ensures
            r@ == self.values(),
    {
        match self {
            MeabyVec::Single(s) => {
                let mut v = Vec::new();
                v.push(s);
                assert(v@ =~= seq![s]);
                v
            },
            MeabyVec::Vec(v) => v,
        }
    }

    /// The first value, if there is one.
    pub fn into_single(self) -> (r: Option<T>)
        ensures
            r == if self.values().len() > 0 {
                Some(self.values()[0])
            } else {
                None
            },
    {
        match self {
            MeabyVec::Single(s) => Some(s),
            MeabyVec::Vec(mut v) => {
                if v.len() == 0 {
                    None
                } else {
                    Some(v.remove(0))
                }
            },
        }
    }

    /// Calls `fun` on every value, in order, letting it change the value.
    pub fn apply<F: Fn(&mut T)>(&mut self, fun: F)
        requires
            forall|x: &mut T| call_requires(fun, (x,)),
        ensures
            final(self).values().len() == old(self).values().len(),
            ((*final(self)) is Single) == ((*old(self)) is Single),
            forall|i: int|
                #![trigger old(self).values()[i]]
                0 <= i < old(self).values().len() ==> exists|x: &mut T|
                    #![trigger call_ensures(fun, (x,), ())]
                    call_ensures(fun, (x,), ()) && *x == old(self).values()[i] && *final(x) == final(self).values()[i],
    {
        match self {
            MeabyVec::Single(s) => fun(s),
            MeabyVec::Vec(v) => {
                apply_each(v, fun);
                proof {
                    if old(self).values().len() > 0 {
                        let first = old(self).values()[0];
                    }
                }
            },
        }
    }

    /// Calls `fun` on every value, in order.
    pub fn for_each<F: Fn(&T)>(&self, fun: F)
        requires
            forall|i: int| 0 <= i < self.values().len() ==> call_requires(fun, (&self.values()[i],)),
    {
        let n = self.len();
        let mut i: usize = 0;
        while i < n
            invariant
                n == self.values().len(),
                forall|i: int| 0 <= i < self.values().len() ==> call_requires(fun, (&self.values()[i],)),
            decreases n - i,
        {
            fun(self.get(i));
            i = i + 1;
        }
    }

    /// Applies `fun` to every value, in order.
    pub fn map<F: Fn(T) -> R, R>(self, fun: F) -> (r: Vec<R>)
        requires
            forall|i: int| 0 <= i < self.values().len() ==> call_requires(fun, (self.values()[i],)),
        ensures
            r@.len() == self.values().len(),
            forall|i: int|
                0 <= i < self.values().len() ==> call_ensures(
                    fun,
                    (self.values()[i],),
                    #[trigger] r@[i],
                ),
            forall|g: spec_fn(T) -> R|
                (forall|x: T, y: R| #[trigger] call_ensures(fun, (x,), y) ==> y == g(x)) ==> r@ == self.values().map_values(
                    g,
                ),
    {
        let ghost vals = self.values();
        let mut items = self.into_vec();
        let n = items.len();
        // reverse the values so that popping yields them front to back
        let mut rev: Vec<T> = Vec::new();
        while items.len() > 0
            invariant
                n == vals.len(),
                items@.len() + rev@.len() == n,
                forall|j: int| 0 <= j < items@.len() ==> #[trigger] items@[j] == vals[j],
                forall|j: int| 0 <= j < rev@.len() ==> #[trigger] rev@[j] == vals[n - 1 - j],
            decreases items@.len(),
        {
            let x = items.pop().unwrap();
            rev.push(x);
        }
        let mut out: Vec<R> = Vec::new();
        let mut k: usize = 0;
        while k < n
            invariant
                n == vals.len(),
                k <= n,
                rev@.len() == n - k,
                forall|j: int| 0 <= j < n - k ==> #[trigger] rev@[j] == vals[n - 1 - j],
                out@.len() == k,
                forall|i: int| 0 <= i < vals.len() ==> call_requires(fun, (vals[i],)),
                forall|i: int| 0 <= i < k ==> call_ensures(fun, (vals[i],), #[trigger] out@[i]),
            decreases n - k,
        {
            let x = rev.pop().unwrap();
            proof {
                assert(x == vals[k as int]);
            }
            let y = fun(x);
            out.push(y);
            k = k + 1;
        }
        proof {
            assert forall|g: spec_fn(T) -> R|
                (forall|x: T, y: R| #[trigger] call_ensures(fun, (x,), y) ==> y == g(x)) implies out@ == vals.map_values(
                g,
            ) by {
                assert forall|i: int| 0 <= i < n implies out@[i] == vals.map_values(g)[i] by {
                    assert(call_ensures(fun, (vals[i],), out@[i]));
                }
                assert(out@ =~= vals.map_values(g));
            }
        }
        out
    }
}

/// A value with a weight for a random choice.
pub struct Weighted<T> {
    pub data: T,
    pub weight: i32,
}

impl<T> Weighted<T> {
    pub fn new(data: T, weight: i32) -> (r: Self)
        ensures
            r.data == data,
            r.weight == weight,
    {
        Weighted { data, weight }
    }
}

/// A value that may carry a weight; an unweighted value weighs one.
pub enum MeabyWeighted<T> {
    Weighted(Weighted<T>),
    NotWeighted(T),
}

impl<T> MeabyWeighted<T> {
    pub open spec fn spec_data(&self) -> T {
        match self {
            MeabyWeighted::Weighted(w) => w.data,
            MeabyWeighted::NotWeighted(d) => *d,
        }
    }

    pub open spec fn spec_weight(&self) -> i32 {
        match self {
            MeabyWeighted::Weighted(w) => w.weight,
            MeabyWeighted::NotWeighted(_) => 1,
        }
    }

    pub fn data(self) -> (r: T)
        ensures
            r == self.spec_data(),
    {
        match self {
            MeabyWeighted::NotWeighted(nw) => nw,
            MeabyWeighted::Weighted(w) => w.data,
        }
    }

    pub fn to_weighted(self) -> (r: Weighted<T>)
        ensures
            r.data == self.spec_data(),
            r.weight == self.spec_weight(),
    {
        match self {
            MeabyWeighted::NotWeighted(d) => Weighted { data: d, weight: 1 },
            MeabyWeighted::Weighted(w) => w,
        }
    }

    pub fn weight_or_one(&self) -> (r: i32)
        ensures
            r == self.spec_weight(),
    {
        match self {
            MeabyWeighted::Weighted(w) => w.weight,
            MeabyWeighted::NotWeighted(_) => 1,
        }
    }
}

/// A parameter reference with a fallback identifier.
pub struct Switch {
    pub param: ParameterIdentifier,
    pub fallback: CDDAIdentifier,
}

/// A weighted choice between identifiers.
pub struct Distribution {
    pub distribution: MeabyVec<MeabyWeighted<CDDAIdentifier>>,
}

/// The value of a fill terrain or of a placed terrain or furniture.
pub enum DistributionInner {
    Param { param: ParameterIdentifier, fallback: CDDAIdentifier },
    Switch { switch: Switch, cases: KeyedMap<CDDAIdentifier, CDDAIdentifier> },
    Normal(CDDAIdentifier),
}

/// An entry of a distribution inside a mapgen value.
pub enum CDDADistributionInner {
    String(CDDAIdentifier),
    Param { param: ParameterIdentifier, fallback: Option<CDDAIdentifier> },
    Switch { switch: Switch, cases: KeyedMap<CDDAIdentifier, CDDAIdentifier> },
    Distribution(Distribution),
}

/// A mapgen value: an identifier, a parameter, a switch over a parameter or a
/// weighted distribution.
pub enum MapGenValue {
    String(CDDAIdentifier),
    Param { param: ParameterIdentifier, fallback: Option<CDDAIdentifier> },
    Switch { switch: Switch, cases: KeyedMap<CDDAIdentifier, CDDAIdentifier> },
    Distribution(MeabyVec<MeabyWeighted<CDDADistributionInner>>),
}

impl DistributionInner {
    /// The mapgen value that this distribution entry denotes; a parameter
    /// keeps its fallback.
    pub fn into_mapgen_value(self) -> (r: MapGenValue)
        ensures
            match (self, r) {
                (
                    DistributionInner::Param { param: p1, fallback: f1 },
                    MapGenValue::Param { param: p2, fallback: Some(f2) },
                ) => p1@ == p2@ && f1@ == f2@,
                (
                    DistributionInner::Switch { switch: s1, cases: c1 },
                    MapGenValue::Switch { switch: s2, cases: c2 },
                ) => s1 == s2 && c1 == c2,
                (DistributionInner::Normal(n1), MapGenValue::String(n2)) => n1 == n2,
                _ => false,
            },
    {
        match self {
            DistributionInner::Param { param, fallback } => MapGenValue::Param {
                param,
                fallback: Some(fallback),
            },
            DistributionInner::Switch { switch, cases } => MapGenValue::Switch { switch, cases },
            DistributionInner::Normal(n) => MapGenValue::String(n),
        }
    }
}

/// The values in reverse order; popping from the result yields them front
/// to back.
pub fn reverse_vec<T>(v: Vec<T>) -> (r: Vec<T>)
    ensures
        r@.len() == v@.len(),
        forall|j: int| 0 <= j < v@.len() ==> #[trigger] r@[j] == v@[v@.len() - 1 - j],
{
    let ghost vals = v@;
    let mut items = v;
    let mut rev: Vec<T> = Vec::new();
    while items.len() > 0
        invariant
            items@.len() + rev@.len() == vals.len(),
            forall|j: int| 0 <= j < items@.len() ==> #[trigger] items@[j] == vals[j],
            forall|j: int| 0 <= j < rev@.len() ==> #[trigger] rev@[j] == vals[vals.len() - 1 - j],
        decreases items@.len(),
    {
        let x = items.pop().unwrap();
        rev.push(x);
    }
    rev
}

} // verus!
