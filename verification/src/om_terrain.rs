use vstd::prelude::*;
use vstd::utf8::encode_utf8;
use crate::keyed_map::MapKey;
use crate::types::CDDAIdentifier;

verus! {

/// The overmap terrain(s) that a mapgen entry is for: one, several that
/// share the map, or a grid of maps.
pub enum OmTerrain {
    Single(String),
    Duplicate(Vec<String>),
    Nested(Vec<Vec<String>>),
}

/// An entry referenced by identifier, or written in place.
pub enum ReferenceOrInPlace<P> {
    Reference(CDDAIdentifier),
    InPlace(P),
}

impl<P> ReferenceOrInPlace<P> {
    /// The referenced identifier, or `value` for an entry written in place.
    pub fn ref_or(&self, value: CDDAIdentifier) -> (r: CDDAIdentifier)
        ensures
            r@ == match self {
                ReferenceOrInPlace::Reference(i) => i@,
                ReferenceOrInPlace::InPlace(_) => value@,
            },
    {
        match self {
            ReferenceOrInPlace::Reference(r) => r.clone(),
            ReferenceOrInPlace::InPlace(_) => value,
        }
    }
}

/// The neighbours of an overmap tile.
#[derive(Debug, Clone, Copy, PartialEq, Eq, Structural)]
pub enum NeighborDirection {
    North,
    East,
    South,
    West,
    NorthEast,
    NorthWest,
    SouthEast,
    SouthWest,
    Above,
    Below,
}

impl MapKey for NeighborDirection {
    type Key = NeighborDirection;

    open spec fn key(&self) -> NeighborDirection {
        *self
    }

    fn same_key(&self, other: &Self) -> (r: bool) {
        *self == *other
    }
}

/// How an overmap terrain identifier is matched.
#[derive(Debug, Clone, Copy, PartialEq, Eq, Structural)]
pub enum OmTerrainMatchType {
    Exact,
    Type,
    Subtype,
    Prefix,
    Contains,
}

/// A pattern for overmap terrain identifiers.
pub struct OmTerrainMatch {
    pub om_terrain: CDDAIdentifier,
    pub om_terrain_match_type: OmTerrainMatchType,
}

impl OmTerrainMatch {
    /// A pattern for the identifier; a pattern that names no way of
    /// matching matches identifiers that contain it.
    pub fn of(om_terrain: CDDAIdentifier, match_type: Option<OmTerrainMatchType>) -> (r: OmTerrainMatch)
        ensures
            r.om_terrain == om_terrain,
            r.om_terrain_match_type == match match_type {
                Some(t) => t,
                None => OmTerrainMatchType::Contains,
            },
    {
        OmTerrainMatch {
            om_terrain,
            om_terrain_match_type: match match_type {
                Some(t) => t,
                None => OmTerrainMatchType::Contains,
            },
        }
    }
}

/// The position of the first `c` in `s`, or the length of `s`.
pub open spec fn first_index_or_len(s: Seq<char>, c: char) -> int
    decreases s.len(),
{
    if s.len() == 0 {
        0
    } else if s[0] == c {
        0
    } else {
        1 + first_index_or_len(s.drop_first(), c)
    }
}

pub proof fn lemma_first_index(s: Seq<char>, c: char)
    ensures
        0 <= first_index_or_len(s, c) <= s.len(),
        first_index_or_len(s, c) < s.len() ==> s[first_index_or_len(s, c)] == c,
        forall|j: int| 0 <= j < first_index_or_len(s, c) ==> #[trigger] s[j] != c,
    decreases s.len(),
{
    if s.len() > 0 && s[0] != c {
        lemma_first_index(s.drop_first(), c);
        assert forall|j: int| 0 <= j < first_index_or_len(s, c) implies #[trigger] s[j] != c by {
            if j > 0 {
                assert(s[j] == s.drop_first()[j - 1]);
            }
        }
    }
}

/// The part of `s` before its first `_` (all of `s` without one).
pub open spec fn first_segment(s: Seq<char>) -> Seq<char> {
    s.subrange(0, first_index_or_len(s, '_'))
}

/// Whether `s` holds a `_`.
pub open spec fn has_underscore(s: Seq<char>) -> bool {
    first_index_or_len(s, '_') < s.len()
}

/// The part of `s` after its first `_`.
pub open spec fn after_first_underscore(s: Seq<char>) -> Seq<char> {
    s.subrange(first_index_or_len(s, '_') + 1, s.len() as int)
}

/// Whether `s` begins with `p`.
pub open spec fn starts_with(s: Seq<char>, p: Seq<char>) -> bool {
    p.len() <= s.len() && s.subrange(0, p.len() as int) == p
}

/// Whether `p` occurs in `s`.
pub open spec fn contains_seq(s: Seq<char>, p: Seq<char>) -> bool {
    exists|i: int| 0 <= i <= s.len() - p.len() && #[trigger] s.subrange(i, i + p.len()) == p
}

/// Whether the identifier matches: `Exact` the same identifier; `Type` the
/// same part before the first `_`; `Subtype` the same first two
/// `_`-separated parts, both having at least two; `Prefix` an identifier
/// that begins with the pattern and is equally long in bytes, or has a `_`
/// at the position of the pattern's byte length; `Contains` an identifier
/// that holds the pattern.
pub open spec fn spec_matches(kind: OmTerrainMatchType, pattern: Seq<char>, ident: Seq<char>) -> bool {
    match kind {
        OmTerrainMatchType::Exact => pattern == ident,
        OmTerrainMatchType::Type => first_segment(ident) == first_segment(pattern),
        OmTerrainMatchType::Subtype => has_underscore(ident) && has_underscore(pattern) && first_segment(
            ident,
        ) == first_segment(pattern) && first_segment(after_first_underscore(ident)) == first_segment(
            after_first_underscore(pattern),
        ),
        OmTerrainMatchType::Prefix => {
            let blen = encode_utf8(pattern).len() as usize as int;
            starts_with(ident, pattern) && (encode_utf8(ident).len() as usize as int == blen || (blen < ident.len()
                && ident[blen as int] == '_'))
        },
        OmTerrainMatchType::Contains => contains_seq(ident, pattern),
    }
}

fn first_underscore(s: &str) -> (r: usize)
    ensures
        r == first_index_or_len(s@, '_'),
        r <= s@.len(),
{
    proof {
        lemma_first_index(s@, '_');
    }
    let n = s.unicode_len();
    let mut i: usize = 0;
    while i < n
        invariant
            n == s@.len(),
            i <= n,
            forall|j: int| 0 <= j < i ==> #[trigger] s@[j] != '_',
            0 <= first_index_or_len(s@, '_') <= s@.len(),
            first_index_or_len(s@, '_') < s@.len() ==> s@[first_index_or_len(s@, '_')] == '_',
            forall|j: int| 0 <= j < first_index_or_len(s@, '_') ==> #[trigger] s@[j] != '_',
        decreases n - i,
    {
        if s.get_char(i) == '_' {
            return i;
        }
        i = i + 1;
    }
    i
}

pub fn str_eq(a: &str, b: &str) -> (r: bool)
    ensures
        r == (a@ == b@),
{
    let n = a.unicode_len();
    let m = b.unicode_len();
    if n != m {
        return false;
    }
    let mut i: usize = 0;
    while i < n
        invariant
            n == a@.len(),
            m == b@.len(),
            n == m,
            i <= n,
            forall|j: int| 0 <= j < i ==> a@[j] == b@[j],
        decreases n - i,
    {
        if a.get_char(i) != b.get_char(i) {
            return false;
        }
        i = i + 1;
    }
    assert(a@ =~= b@);
    true
}

/// Whether `p` occurs in `s` at position `i`.
fn occurs_at(s: &str, p: &str, i: usize) -> (r: bool)
    requires
        i + p@.len() <= s@.len(),
    ensures
        r == (s@.subrange(i as int, i + p@.len()) == p@),
{
    let n = s.unicode_len();
    let m = p.unicode_len();
    let mut j: usize = 0;
    while j < m
        invariant
            n == s@.len(),
            m == p@.len(),
            i + m <= s@.len(),
            j <= m,
            forall|k: int| 0 <= k < j ==> s@[i + k] == p@[k],
        decreases m - j,
    {
        if s.get_char(i + j) != p.get_char(j) {
            assert(s@.subrange(i as int, i + p@.len())[j as int] != p@[j as int]);
            return false;
        }
        j = j + 1;
    }
    assert(s@.subrange(i as int, i + p@.len()) =~= p@);
    true
}

impl OmTerrainMatch {
    /// Whether the identifier matches the pattern (see `spec_matches`).
    pub fn matches_identifier(&self, ident: &CDDAIdentifier) -> (r: bool)
        ensures
            r == spec_matches(self.om_terrain_match_type, self.om_terrain@, ident@),
    {
        let s = ident.0.as_str();
        let p = self.om_terrain.0.as_str();
        match self.om_terrain_match_type {
            OmTerrainMatchType::Exact => self.om_terrain.eq_id(ident),
            OmTerrainMatchType::Type => {
                let a = first_underscore(s);
                let b = first_underscore(p);
                str_eq(s.substring_char(0, a), p.substring_char(0, b))
            },
            OmTerrainMatchType::Subtype => {
                let a = first_underscore(s);
                let b = first_underscore(p);
                let n = s.unicode_len();
                let m = p.unicode_len();
                if a >= n || b >= m {
                    return false;
                }
                if !str_eq(s.substring_char(0, a), p.substring_char(0, b)) {
                    return false;
                }
                let s2 = s.substring_char(a + 1, n);
                let p2 = p.substring_char(b + 1, m);
                let a2 = first_underscore(s2);
                let b2 = first_underscore(p2);
                str_eq(s2.substring_char(0, a2), p2.substring_char(0, b2))
            },
            OmTerrainMatchType::Prefix => {
                let n = s.unicode_len();
                let m = p.unicode_len();
                if m > n {
                    return false;
                }
                if !occurs_at(s, p, 0) {
                    return false;
                }
                let blen = p.len();
                if s.len() == blen {
                    return true;
                }
                blen < n && s.get_char(blen) == '_'
            },
            OmTerrainMatchType::Contains => {
                let n = s.unicode_len();
                let m = p.unicode_len();
                if m > n {
                    assert(!contains_seq(s@, p@));
                    return false;
                }
                let mut i: usize = 0;
                loop
                    invariant
                        s@ == ident@,
                        p@ == self.om_terrain@,
                        self.om_terrain_match_type == OmTerrainMatchType::Contains,
                        n == s@.len(),
                        m == p@.len(),
                        m <= n,
                        i <= n - m,
                        forall|k: int| 0 <= k < i ==> #[trigger] s@.subrange(k, k + m) != p@,
                    decreases n - m - i,
                {
                    if occurs_at(s, p, i) {
                        assert(s@.subrange(i as int, i + p@.len()) == p@);
                        return true;
                    }
                    if i == n - m {
                        assert(!contains_seq(s@, p@)) by {
                            if contains_seq(s@, p@) {
                                let k = choose|k: int|
                                    0 <= k <= s@.len() - p@.len() && #[trigger] s@.subrange(k, k + p@.len()) == p@;
                                assert(s@.subrange(k, k + m) != p@);
                            }
                        }
                        return false;
                    }
                    i = i + 1;
                }
            },
        }
    }
}

} // verus!
