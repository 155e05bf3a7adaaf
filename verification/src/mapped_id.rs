use vstd::prelude::*;
use crate::tileset::Rotation;
use crate::types::CDDAIdentifier;

verus! {

/// The text of an optional string, `None` where there is none.
pub open spec fn opt_text(s: Option<String>) -> Option<Seq<char>> {
    match s {
        Some(t) => Some(t@),
        None => None,
    }
}

/// The position of the last `c` in `s`, if `c` occurs in `s`.
pub open spec fn last_index_of(s: Seq<char>, c: char) -> Option<int> {
    if exists|i: int| 0 <= i < s.len() && s[i] == c && forall|j: int| i < j < s.len() ==> s[j] != c {
        Some(
            choose|i: int| 0 <= i < s.len() && s[i] == c && forall|j: int| i < j < s.len() ==> s[j] != c,
        )
    } else {
        None
    }
}

/// The last position of `c`, if any, is the only position with no later `c`.
pub proof fn lemma_last_index_of(s: Seq<char>, c: char, i: int)
    requires
        0 <= i < s.len(),
        s[i] == c,
        forall|j: int| i < j < s.len() ==> s[j] != c,
    ensures
        last_index_of(s, c) == Some(i),
{
    let k = choose|k: int| 0 <= k < s.len() && s[k] == c && forall|j: int| k < j < s.len() ==> s[j] != c;
    assert(0 <= k < s.len() && s[k] == c && forall|j: int| k < j < s.len() ==> s[j] != c);
    if k < i {
        assert(s[i] != c);
    }
    if i < k {
        assert(s[k] != c);
    }
}

/// The postfix with its last `_`-separated part removed; nothing where the
/// postfix holds no `_`.
pub open spec fn spec_sliced_postfix(p: Seq<char>) -> Option<Seq<char>> {
    match last_index_of(p, '_') {
        Some(i) => Some(p.subrange(0, i)),
        None => None,
    }
}

/// The identifier of a tile in a tileset: the game identifier, with an
/// optional prefix and postfix.
pub struct TilesheetCDDAId {
    pub id: CDDAIdentifier,
    pub prefix: Option<String>,
    pub postfix: Option<String>,
}

/// The full tileset name: `prefix_`, the identifier, `_postfix`.
pub open spec fn spec_full_id(id: Seq<char>, prefix: Option<Seq<char>>, postfix: Option<Seq<char>>) -> Seq<char> {
    (match prefix {
        Some(p) => p + seq!['_'],
        None => Seq::<char>::empty(),
    }) + id + (match postfix {
        Some(p) => seq!['_'] + p,
        None => Seq::<char>::empty(),
    })
}

impl TilesheetCDDAId {
    pub open spec fn spec_full(&self) -> Seq<char> {
        spec_full_id(self.id@, opt_text(self.prefix), opt_text(self.postfix))
    }

    /// The tileset identifier of a game identifier, without prefix or postfix.
    pub fn simple(id: CDDAIdentifier) -> (r: TilesheetCDDAId)
        ensures
            r.id == id,
            r.prefix is None,
            r.postfix is None,
    {
        TilesheetCDDAId { id, prefix: None, postfix: None }
    }

    /// The identifier under which the tileset holds the sprite.
    pub fn full(&self) -> (r: CDDAIdentifier)
        ensures
            r@ == self.spec_full(),
    {
        let mut s = String::new();
        proof {
            reveal_strlit("_");
        }
        match &self.prefix {
            Some(p) => {
                s.append(p.as_str());
                s.append("_");
            },
            None => {},
        }
        s.append(self.id.0.as_str());
        match &self.postfix {
            Some(p) => {
                s.append("_");
                s.append(p.as_str());
            },
            None => {},
        }
        proof {
            assert(s@ =~= self.spec_full());
        }
        CDDAIdentifier(s)
    }

    pub fn clone_id(&self) -> (r: TilesheetCDDAId)
        ensures
            r.id@ == self.id@,
            opt_text(r.prefix) == opt_text(self.prefix),
            opt_text(r.postfix) == opt_text(self.postfix),
    {
        TilesheetCDDAId {
            id: self.id.clone(),
            prefix: clone_opt_string(&self.prefix),
            postfix: clone_opt_string(&self.postfix),
        }
    }
}

pub fn clone_opt_string(s: &Option<String>) -> (r: Option<String>)
    ensures
        opt_text(r) == opt_text(*s),
{
    match s {
        Some(t) => Some(t.clone()),
        None => None,
    }
}

/// A tile as the map places it: the tileset identifier, its rotation and
/// whether it is broken or open.
pub struct MappedCDDAId {
    pub tilesheet_id: TilesheetCDDAId,
    pub rotation: Rotation,
    pub is_broken: bool,
    pub is_open: bool,
}

/// The text of `s` before its last `_`, if it holds one.
fn before_last_underscore(s: &String) -> (r: Option<String>)
    ensures
        opt_text(r) == spec_sliced_postfix(s@),
{
    let text = s.as_str();
    let n = text.unicode_len();
    let mut i: usize = n;
    while i > 0
        invariant
            n == s@.len(),
            text@ == s@,
            i <= n,
            forall|j: int| i <= j < n ==> s@[j] != '_',
        decreases i,
    {
        if text.get_char(i - 1) == '_' {
            proof {
                lemma_last_index_of(s@, '_', (i - 1) as int);
            }
            let head = text.substring_char(0, i - 1);
            return Some(String::from_str(head));
        }
        i = i - 1;
    }
    None
}

impl MappedCDDAId {
    /// A tile facing north that is neither broken nor open.
    pub fn simple(id: TilesheetCDDAId) -> (r: MappedCDDAId)
        ensures
            r.tilesheet_id == id,
            r.rotation == Rotation::Deg0,
            !r.is_broken,
            !r.is_open,
    {
        MappedCDDAId { tilesheet_id: id, rotation: Rotation::Deg0, is_broken: false, is_open: false }
    }

    /// The same tile with the last `_`-separated part of the postfix
    /// removed (a postfix without `_` is removed whole), as the tileset
    /// looks up variants of vehicle parts.
    pub fn slice_right(&self) -> (r: MappedCDDAId)
        ensures
            r.tilesheet_id.id@ == self.tilesheet_id.id@,
            opt_text(r.tilesheet_id.prefix) == opt_text(self.tilesheet_id.prefix),
            opt_text(r.tilesheet_id.postfix) == match self.tilesheet_id.postfix {
                Some(p) => spec_sliced_postfix(p@),
                None => None,
            },
            r.rotation == self.rotation,
            r.is_broken == self.is_broken,
            r.is_open == self.is_open,
    {
        let new_postfix = match &self.tilesheet_id.postfix {
            Some(p) => before_last_underscore(p),
            None => None,
        };
        MappedCDDAId {
            tilesheet_id: TilesheetCDDAId {
                id: self.tilesheet_id.id.clone(),
                prefix: clone_opt_string(&self.tilesheet_id.prefix),
                postfix: new_postfix,
            },
            rotation: self.rotation,
            is_broken: self.is_broken,
            is_open: self.is_open,
        }
    }

    pub fn clone_mapped(&self) -> (r: MappedCDDAId)
        ensures
            r.tilesheet_id.id@ == self.tilesheet_id.id@,
            opt_text(r.tilesheet_id.prefix) == opt_text(self.tilesheet_id.prefix),
            opt_text(r.tilesheet_id.postfix) == opt_text(self.tilesheet_id.postfix),
            r.rotation == self.rotation,
            r.is_broken == self.is_broken,
            r.is_open == self.is_open,
    {
        MappedCDDAId {
            tilesheet_id: self.tilesheet_id.clone_id(),
            rotation: self.rotation,
            is_broken: self.is_broken,
            is_open: self.is_open,
        }
    }
}

/// Slicing a postfix leaves a strictly shorter postfix: repeated slicing
/// ends without a postfix.
pub proof fn law_slice_right_shortens(p: Seq<char>)
    ensures
        spec_sliced_postfix(p) matches Some(q) ==> q.len() < p.len(),
{
    if let Some(i) = last_index_of(p, '_') {
        let k = choose|k: int| 0 <= k < p.len() && p[k] == '_' && forall|j: int| k < j < p.len() ==> p[j] != '_';
        assert(i == k);
    }
}

} // verus!
