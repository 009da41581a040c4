//! Lists of (cell, value) pairs, seen as maps.
use crate::level_data::CellPos;
use vstd::prelude::*;

verus! {

/// The map built by inserting the pairs in order, so that a later pair wins.
pub open spec fn to_map<T>(s: Seq<(CellPos, T)>) -> Map<CellPos, T>
    decreases s.len(),
{
    if s.len() == 0 {
        Map::empty()
    } else {
        to_map(s.drop_last()).insert(s.last().0, s.last().1)
    }
}

/// No cell appears twice.
pub open spec fn keys_unique<T>(s: Seq<(CellPos, T)>) -> bool {
    forall|i: int, j: int| 0 <= i < j < s.len() ==> s[i].0 != s[j].0
}

/// The cells of a list are exactly the keys of its map.
pub proof fn lemma_to_map_dom<T>(s: Seq<(CellPos, T)>, k: CellPos)
    ensures
        to_map(s).contains_key(k) <==> exists|i: int| 0 <= i < s.len() && s[i].0 == k,
    decreases s.len(),
{
    if s.len() > 0 {
        lemma_to_map_dom(s.drop_last(), k);
        if exists|i: int| 0 <= i < s.drop_last().len() && s.drop_last()[i].0 == k {
            let i = choose|i: int| 0 <= i < s.drop_last().len() && s.drop_last()[i].0 == k;
            assert(s[i].0 == k);
        }
        if exists|i: int| 0 <= i < s.len() && s[i].0 == k {
            let i = choose|i: int| 0 <= i < s.len() && s[i].0 == k;
            if i < s.len() - 1 {
                assert(s.drop_last()[i].0 == k);
            }
        }
    }
}

/// In a list with distinct cells, the map gives each cell the value paired with it.
pub proof fn lemma_to_map_index<T>(s: Seq<(CellPos, T)>, i: int)
    requires
        keys_unique(s),
        0 <= i < s.len(),
    ensures
        to_map(s).contains_key(s[i].0),
        to_map(s)[s[i].0] == s[i].1,
    decreases s.len(),
{
    if i < s.len() - 1 {
        lemma_to_map_index(s.drop_last(), i);
    }
}

} // verus!
