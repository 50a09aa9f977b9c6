//! A finite set of cells, stored as a hash set of packed coordinates.
//!
//! A cell is stored as one 128-bit key: both coordinates are shifted into the
//! unsigned range and `x` takes the upper half. Packing is a bijection between
//! cells and keys, so the set of cells is recovered exactly from the keys.

use crate::cell::Cell;
use std::collections::HashSet;
use vstd::prelude::*;
use vstd::set_lib::lemma_map_size;
use vstd::std_specs::iter::IteratorSpec;

verus! {

broadcast use vstd::std_specs::hash::group_hash_axioms;

/// Distance from `i64::MIN` to zero.
pub const HALF: i128 = 0x8000_0000_0000_0000;

/// Number of values of one coordinate.
pub const SPAN: u128 = 0x1_0000_0000_0000_0000;

/// The key under which a cell is stored.
pub open spec fn pack(c: Cell) -> u128 {
    ((c.0 + HALF) * SPAN + (c.1 + HALF)) as u128
}

/// The cell stored under a key.
pub open spec fn unpack(k: u128) -> Cell {
    Cell((k / SPAN - HALF) as i64, (k % SPAN - HALF) as i64)
}

/// Packing and unpacking are inverse to each other.
pub proof fn lemma_pack_bijective()
    ensures
        forall|c: Cell| #[trigger] unpack(pack(c)) == c,
        forall|k: u128| #[trigger] pack(unpack(k)) == k,
{
    assert forall|c: Cell| #[trigger] unpack(pack(c)) == c by {
        let hi: int = c.0 + HALF;
        let lo: int = c.1 + HALF;
        assert(0 <= hi < SPAN && 0 <= lo < SPAN);
        assert(0 <= hi * SPAN + lo < SPAN * SPAN) by (nonlinear_arith)
            requires
                0 <= hi < SPAN,
                0 <= lo < SPAN,
        ;
        assert((hi * SPAN + lo) / (SPAN as int) == hi && (hi * SPAN + lo) % (SPAN as int) == lo)
            by (nonlinear_arith)
            requires
                0 <= lo < SPAN,
                SPAN > 0,
        ;
    }
    assert forall|k: u128| #[trigger] pack(unpack(k)) == k by {
        let hi: int = (k / SPAN) as int;
        let lo: int = (k % SPAN) as int;
        assert(0 <= hi < SPAN && 0 <= lo < SPAN);
        assert(hi * SPAN + lo == k);
    }
}

/// The key under which a cell is stored.
fn pack_cell(c: Cell) -> (k: u128)
    ensures
        k == pack(c),
{
    let hi: u128 = (c.0 as i128 + HALF) as u128;
    let lo: u128 = (c.1 as i128 + HALF) as u128;
    assert(hi * SPAN + lo < SPAN * SPAN) by (nonlinear_arith)
        requires
            0 <= hi < SPAN,
            0 <= lo < SPAN,
    ;
    hi * SPAN + lo
}

/// The cell stored under a key.
fn unpack_key(k: u128) -> (c: Cell)
    ensures
        c == unpack(k),
{
    let hi: u128 = k / SPAN;
    let lo: u128 = k % SPAN;
    Cell((hi as i128 - HALF) as i64, (lo as i128 - HALF) as i64)
}

/// The elements among the first `i + 1` of a sequence are those among the
/// first `i` and the one at `i`, which is new if nothing occurs twice.
pub proof fn lemma_prefix_one_more<A>(s: Seq<A>, i: int)
    requires
        0 <= i < s.len(),
    ensures
        s.take(i + 1).to_set() == s.take(i).to_set().insert(s[i]),
        s.take(i).to_set().finite(),
        s.no_duplicates() ==> !s.take(i).to_set().contains(s[i]),
{
    let before = s.take(i);
    let after = s.take(i + 1);
    let seen = before.to_set();
    vstd::seq_lib::seq_to_set_is_finite(before);
    if s.no_duplicates() && seen.contains(s[i]) {
        let j = choose|j: int| 0 <= j < before.len() && before[j] == s[i];
        assert(s[j] == s[i]);
    }
    assert forall|d: A| seen.insert(s[i]).contains(d) implies after.to_set().contains(d) by {
        if d == s[i] {
            assert(after[i] == d);
        } else {
            let j = choose|j: int| 0 <= j < before.len() && before[j] == d;
            assert(after[j] == d);
        }
    }
    assert forall|d: A| after.to_set().contains(d) implies seen.insert(s[i]).contains(d) by {
        let j = choose|j: int| 0 <= j < after.len() && after[j] == d;
        if j < i {
            assert(before[j] == d);
        }
    }
    assert(after.to_set() =~= seen.insert(s[i]));
}

/// A finite set of cells.
#[derive(Debug, PartialEq, Eq)]
pub struct CellSet {
    keys: HashSet<u128>,
}

impl View for CellSet {
    type V = Set<Cell>;

    /// The cells in the set.
    closed spec fn view(&self) -> Set<Cell> {
        self.keys@.map_by(|k: u128| unpack(k), |c: Cell| pack(c))
    }
}

impl Clone for CellSet {
    /// A set of the same cells.
    fn clone(&self) -> (out: CellSet)
        ensures
            out@ == self@,
    {
        let cells = self.to_vec();
        let mut out = CellSet::new();
        let mut i: usize = 0;
        proof {
            assert(cells@.take(0).to_set() =~= Set::<Cell>::empty());
        }
        while i < cells.len()
            invariant
                i <= cells@.len(),
                out@ == cells@.take(i as int).to_set(),
            decreases cells@.len() - i,
        {
            out.insert(cells[i]);
            proof {
                lemma_prefix_one_more(cells@, i as int);
            }
            i += 1;
        }
        proof {
            assert(cells@.take(i as int) =~= cells@);
        }
        out
    }
}

impl CellSet {
    /// The cells correspond to the keys one to one.
    proof fn lemma_view(&self)
        ensures
            self@.finite(),
            self@.len() == self.keys@.len(),
            forall|c: Cell| self@.contains(c) <==> self.keys@.contains(pack(c)),
            forall|k: u128| self.keys@.contains(k) <==> self@.contains(unpack(k)),
    {
        lemma_pack_bijective();
        let all: Seq<u128> = self.keys.iter().remaining().unref();
        assert(all.to_set() == self.keys@);
        vstd::seq_lib::seq_to_set_is_finite(all);
        let f = |k: u128| unpack(k);
        assert(self.keys@.map(f) =~= self@) by {
            assert forall|c: Cell| self.keys@.map(f).contains(c) implies self@.contains(c) by {
                let k = choose|k: u128| self.keys@.contains(k) && c == f(k);
                assert(pack(c) == k);
            }
            assert forall|c: Cell| self@.contains(c) implies self.keys@.map(f).contains(c) by {
                assert(self.keys@.contains(pack(c)) && c == f(pack(c)));
            }
        }
        assert(vstd::relations::injective_on(f, self.keys@)) by {
            assert forall|a: u128, b: u128| #[trigger] f(a) == #[trigger] f(b) implies a == b by {
                assert(pack(unpack(a)) == a);
                assert(pack(unpack(b)) == b);
            }
        }
        lemma_map_size(self.keys@, self@, f);
    }

    /// The empty set.
    pub fn new() -> (out: CellSet)
        ensures
            out@ == Set::<Cell>::empty(),
    {
        let out = CellSet { keys: HashSet::new() };
        proof {
            out.lemma_view();
            assert(out@ =~= Set::<Cell>::empty());
        }
        out
    }

    /// Whether the set holds no cell.
    pub fn is_empty(&self) -> (out: bool)
        ensures
            out == self@.is_empty(),
    {
        proof {
            self.lemma_view();
            if self.keys@.is_empty() {
                assert(self@ =~= Set::<Cell>::empty());
            } else {
                let k = self.keys@.choose();
                assert(self.keys@.contains(k));
                assert(self@.contains(unpack(k)));
            }
        }
        self.keys.is_empty()
    }

    /// The number of cells in the set.
    pub fn len(&self) -> (out: usize)
        ensures
            out == self@.len(),
    {
        proof {
            self.lemma_view();
        }
        self.keys.len()
    }

    /// Whether `cell` is in the set.
    pub fn contains(&self, cell: &Cell) -> (out: bool)
        ensures
            out == self@.contains(*cell),
    {
        proof {
            self.lemma_view();
        }
        let key = pack_cell(*cell);
        self.keys.contains(&key)
    }

    /// Adds `cell`; returns whether it was absent before.
    pub fn insert(&mut self, cell: Cell) -> (out: bool)
        ensures
            final(self)@ == old(self)@.insert(cell),
            out == !old(self)@.contains(cell),
    {
        proof {
            self.lemma_view();
            lemma_pack_bijective();
        }
        let key = pack_cell(cell);
        let out = self.keys.insert(key);
        proof {
            self.lemma_view();
            assert(self@ =~= old(self)@.insert(cell));
        }
        out
    }

    /// Removes `cell`; returns whether it was present before.
    pub fn remove(&mut self, cell: &Cell) -> (out: bool)
        ensures
            final(self)@ == old(self)@.remove(*cell),
            out == old(self)@.contains(*cell),
    {
        proof {
            self.lemma_view();
            lemma_pack_bijective();
        }
        let key = pack_cell(*cell);
        let out = self.keys.remove(&key);
        proof {
            self.lemma_view();
            assert(self@ =~= old(self)@.remove(*cell));
        }
        out
    }

    /// Removes every cell.
    pub fn clear(&mut self)
        ensures
            final(self)@ == Set::<Cell>::empty(),
    {
        self.keys.clear();
        proof {
            self.lemma_view();
            assert(self@ =~= Set::<Cell>::empty());
        }
    }

    /// The cells of the set, each once, in no particular order.
    pub fn to_vec(&self) -> (out: Vec<Cell>)
        ensures
            out@.no_duplicates(),
            out@.to_set() == self@,
            out@.len() == self@.len(),
    {
        let mut out: Vec<Cell> = Vec::new();
        let ghost all: Seq<u128> = self.keys.iter().remaining().unref();
        proof {
            self.lemma_view();
            lemma_pack_bijective();
        }
        for k in it: self.keys.iter()
            invariant
                it.seq().unref() == all,
                out@.len() == it.index(),
                forall|i: int| 0 <= i < out@.len() ==> out@[i] == unpack(#[trigger] all[i]),
        {
            out.push(unpack_key(*k));
        }
        proof {
            assert(out@.len() == all.len());
            assert(all.to_set() == self.keys@);
            assert forall|i: int, j: int|
                0 <= i < out@.len() && 0 <= j < out@.len() && i != j implies out@[i] != out@[j] by {
                assert(pack(unpack(all[i])) == all[i]);
                assert(pack(unpack(all[j])) == all[j]);
            }
            assert forall|c: Cell| out@.to_set().contains(c) <==> self@.contains(c) by {
                if out@.to_set().contains(c) {
                    let i = choose|i: int| 0 <= i < out@.len() && out@[i] == c;
                    assert(all.to_set().contains(all[i]));
                }
                if self@.contains(c) {
                    assert(all.to_set().contains(pack(c)));
                    let i = choose|i: int| 0 <= i < all.len() && all[i] == pack(c);
                    assert(out@[i] == c);
                }
            }
            assert(out@.to_set() =~= self@);
        }
        out
    }
}

} // verus!
