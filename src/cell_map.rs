//! A map from grid cell to value, kept in a `HashMap` under an integer key that
//! packs the cell's two coordinates.
use crate::assoc::{keys_unique, lemma_to_map_dom, lemma_to_map_index, to_map};
use crate::level_data::CellPos;
use std::collections::HashMap;
use vstd::prelude::*;
use vstd::std_specs::iter::IteratorSpec;

verus! {

broadcast use vstd::std_specs::hash::group_hash_axioms;

/// The key of a cell: `x` in the high half, `y` shifted to be non-negative in the
/// low half.
pub open spec fn cell_key(p: CellPos) -> i64 {
    (p.x as int * 0x1_0000_0000 + (p.y as int + 0x8000_0000)) as i64
}

pub proof fn lemma_cell_key_injective(p: CellPos, q: CellPos)
    ensures
        cell_key(p) == cell_key(q) ==> p == q,
{
    lemma_key_range(p);
    lemma_key_range(q);
    let (px, py, qx, qy) = (p.x as int, p.y as int + 0x8000_0000, q.x as int, q.y as int + 0x8000_0000);
    if px * 0x1_0000_0000 + py == qx * 0x1_0000_0000 + qy {
        assert(px == qx) by (nonlinear_arith)
            requires
                px * 0x1_0000_0000 + py == qx * 0x1_0000_0000 + qy,
                0 <= py < 0x1_0000_0000,
                0 <= qy < 0x1_0000_0000,
        ;
    }
}

proof fn lemma_key_range(p: CellPos)
    ensures
        -0x8000_0000_0000_0000 <= p.x as int * 0x1_0000_0000 + (p.y as int + 0x8000_0000)
            <= 0x7fff_ffff_ffff_ffff,
{
    let (x, y) = (p.x as int, p.y as int + 0x8000_0000);
    assert(-0x8000_0000_0000_0000 <= x * 0x1_0000_0000 + y <= 0x7fff_ffff_ffff_ffff) by (nonlinear_arith)
        requires
            -0x8000_0000 <= x <= 0x7fff_ffff,
            0 <= y < 0x1_0000_0000,
    ;
}

fn key_of(p: CellPos) -> (r: i64)
    ensures
        r == cell_key(p),
{
    proof {
        lemma_key_range(p);
    }
    (p.x as i64) * 0x1_0000_0000 + (p.y as i64 + 0x8000_0000)
}

/// Values by cell. Each entry holds its cell beside the value.
pub struct CellMap<T> {
    pub m: HashMap<i64, (CellPos, T)>,
}

impl<T> CellMap<T> {
    /// Every entry sits under its own cell's key.
    pub open spec fn wf(&self) -> bool {
        forall|k: i64| #[trigger] self.m@.contains_key(k) ==> cell_key(self.m@[k].0) == k
    }
}

impl<T> View for CellMap<T> {
    type V = Map<CellPos, T>;

    open spec fn view(&self) -> Map<CellPos, T> {
        Map::new(|p: CellPos| self.m@.contains_key(cell_key(p)), |p: CellPos| self.m@[cell_key(p)].1)
    }
}

/// `s` lists the map `m`: each cell once, with its value.
pub open spec fn lists<T>(s: Seq<(CellPos, T)>, m: Map<CellPos, T>) -> bool {
    keys_unique(s) && to_map(s) == m
}

impl<T: Copy> CellMap<T> {
    pub fn new() -> (r: CellMap<T>)
        ensures
            r.wf(),
            r@ == Map::<CellPos, T>::empty(),
    {
        let r = CellMap { m: HashMap::new() };
        assert(r@ =~= Map::<CellPos, T>::empty());
        r
    }

    pub fn insert(&mut self, pos: CellPos, val: T)
        requires
            old(self).wf(),
        ensures
            final(self).wf(),
            final(self)@ == old(self)@.insert(pos, val),
    {
        let k = key_of(pos);
        self.m.insert(k, (pos, val));
        proof {
            assert forall|q: CellPos| #[trigger] self@.contains_key(q) == old(self)@.insert(pos, val).contains_key(q) by {
                lemma_cell_key_injective(q, pos);
            }
            assert forall|q: CellPos| #[trigger] self@.contains_key(q) implies self@[q] == old(self)@.insert(pos, val)[q] by {
                lemma_cell_key_injective(q, pos);
            }
            assert(self@ =~= old(self)@.insert(pos, val));
        }
    }

    pub fn remove(&mut self, pos: CellPos)
        requires
            old(self).wf(),
        ensures
            final(self).wf(),
            final(self)@ == old(self)@.remove(pos),
    {
        let k = key_of(pos);
        self.m.remove(&k);
        proof {
            assert forall|q: CellPos| #[trigger] self@.contains_key(q) == old(self)@.remove(pos).contains_key(q) by {
                lemma_cell_key_injective(q, pos);
            }
            assert(self@ =~= old(self)@.remove(pos));
        }
    }

    pub fn get(&self, pos: CellPos) -> (r: Option<T>)
        requires
            self.wf(),
        ensures
            r == (if self@.contains_key(pos) { Some(self@[pos]) } else { None }),
    {
        let k = key_of(pos);
        match self.m.get(&k) {
            Some(e) => Some(e.1),
            None => None,
        }
    }

    /// The entries, each cell once, in the order the `HashMap` gives them.
    pub fn entries(&self) -> (r: Vec<(CellPos, T)>)
        requires
            self.wf(),
        ensures
            lists(r@, self@),
    {
        let ghost s = vstd::std_specs::hash::spec_hash_map_iter(&self.m).remaining();
        let mut r: Vec<(CellPos, T)> = Vec::new();
        for kv in it: self.m.iter()
            invariant
                self.wf(),
                s == vstd::std_specs::hash::spec_hash_map_iter(&self.m).remaining(),
                it.seq() == s,
                r@.len() == it.index(),
                forall|i: int| 0 <= i < it.index() ==> r@[i] == *(#[trigger] s[i]).1,
        {
            let (_, e) = kv;
            r.push(*e);
        }
        proof {
            let m = self.m@;
            assert(r@.len() == s.len());
            assert forall|i: int| 0 <= i < s.len() implies m.contains_key(*(#[trigger] s[i]).0) && m[*s[i].0] == *s[i].1 by {}
            assert(keys_unique(r@)) by {
                assert forall|i: int, j: int| 0 <= i < j < r@.len() implies r@[i].0 != r@[j].0 by {
                    let ki = *s[i].0;
                    let kj = *s[j].0;
                    assert(m.contains_key(ki) && m[ki] == *s[i].1);
                    assert(m.contains_key(kj) && m[kj] == *s[j].1);
                    if r@[i].0 == r@[j].0 {
                        assert(ki == kj);
                        assert(s[i] == s[j]);
                    }
                }
            }
            assert forall|p: CellPos| #[trigger] to_map(r@).contains_key(p) == self@.contains_key(p) by {
                lemma_to_map_dom(r@, p);
                if self@.contains_key(p) {
                    let k = cell_key(p);
                    assert(m.contains_key(k));
                    assert(s.contains((&k, &m[k])));
                    let i = choose|i: int| 0 <= i < s.len() && s[i] == (&k, &m[k]);
                    lemma_cell_key_injective(m[k].0, p);
                    assert(r@[i].0 == p);
                }
                if to_map(r@).contains_key(p) {
                    let i = choose|i: int| 0 <= i < r@.len() && r@[i].0 == p;
                    assert(m.contains_key(*s[i].0));
                }
            }
            assert forall|p: CellPos| #[trigger] to_map(r@).contains_key(p) implies to_map(r@)[p] == self@[p] by {
                lemma_to_map_dom(r@, p);
                let i = choose|i: int| 0 <= i < r@.len() && r@[i].0 == p;
                lemma_to_map_index(r@, i);
                assert(m.contains_key(*s[i].0));
                lemma_cell_key_injective(m[*s[i].0].0, p);
            }
            assert(to_map(r@) =~= self@);
        }
        r
    }
}

} // verus!
