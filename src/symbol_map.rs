//! Symbol maps: the symbols of a file sorted by address, each with the size
//! up to the next boundary.
use crate::read::{Symbol, SymbolKind, SymbolSection};
use vstd::prelude::*;

verus! {

broadcast use vstd::seq_lib::group_to_multiset_ensures;

/// The symbols of a file that a symbol map holds, sorted by address.
#[derive(Debug)]
pub struct SymbolMap<'data> {
    pub symbols: Vec<Symbol<'data>>,
}

/// Whether a symbol belongs in a symbol map: it is code, data or of
/// unknown kind, it is defined, and it has a size.
pub open spec fn spec_map_filter(s: Symbol) -> bool {
    &&& (s.kind == SymbolKind::Unknown || s.kind == SymbolKind::Text || s.kind == SymbolKind::Data)
    &&& s.section != SymbolSection::Undefined
    &&& s.size > 0
}

/// Whether the symbols of `s` come in order of address.
pub open spec fn sorted_by_address(s: Seq<Symbol>) -> bool {
    forall|i: int, j: int| 0 <= i < j < s.len() ==> s[i].address <= s[j].address
}

impl<'data> SymbolMap<'data> {
    /// Whether `symbol` belongs in a symbol map.
    pub fn filter(symbol: &Symbol) -> (r: bool)
        ensures
            r == spec_map_filter(*symbol),
    {
        match symbol.kind {
            SymbolKind::Unknown | SymbolKind::Text | SymbolKind::Data => {},
            _ => return false,
        }
        symbol.section != SymbolSection::Undefined && symbol.size > 0
    }
}

/// The least value of `v` above `a`, if any.
pub fn least_above(v: &Vec<u64>, a: u64) -> (r: Option<u64>)
    ensures
        r is None <==> forall|k: int| 0 <= k < v@.len() ==> v@[k] <= a,
        r matches Some(m) ==> m > a && v@.contains(m) && forall|k: int| 0 <= k < v@.len() && v@[k] > a ==> m <= v@[k],
{
    let mut best: Option<u64> = None;
    let mut i: usize = 0;
    while i < v.len()
        invariant
            i <= v@.len(),
            best is None ==> forall|k: int| 0 <= k < i ==> v@[k] <= a,
            best matches Some(m) ==> m > a && v@.contains(m) && forall|k: int| 0 <= k < i && v@[k] > a ==> m <= v@[k],
        decreases v@.len() - i,
    {
        let x = v[i];
        if x > a {
            match best {
                Some(m) if m <= x => {},
                _ => {
                    best = Some(x);
                },
            }
        }
        i = i + 1;
    }
    best
}

/// Whether `a` is one of the values of `v`.
pub fn contains_u64(v: &Vec<u64>, a: u64) -> (r: bool)
    ensures
        r == v@.contains(a),
{
    let mut i: usize = 0;
    while i < v.len()
        invariant
            i <= v@.len(),
            forall|k: int| 0 <= k < i ==> v@[k] != a,
        decreases v@.len() - i,
    {
        if v[i] == a {
            return true;
        }
        i = i + 1;
    }
    false
}

/// Whether some position of `p` holds `j`.
pub open spec fn is_taken(p: Seq<int>, j: int) -> bool {
    exists|k: int| 0 <= k < p.len() && p[k] == j
}

/// Whether `r` is the first `n` elements of `v` reordered by `p`: `r[k]` is
/// `v[p[k]]`, each of them is taken exactly once, and symbols of equal
/// address keep their order.
pub open spec fn reorders(r: Seq<Symbol>, v: Seq<Symbol>, p: Seq<int>, n: int) -> bool {
    &&& p.len() == r.len()
    &&& forall|k: int| 0 <= k < r.len() ==> 0 <= #[trigger] p[k] < n && r[k] == v[p[k]]
    &&& forall|a: int, b: int| 0 <= a < b < r.len() ==> p[a] != p[b]
    &&& forall|j: int| 0 <= j < n ==> #[trigger] is_taken(p, j)
    &&& forall|a: int, b: int| 0 <= a < b < r.len() && r[a].address == r[b].address ==> p[a] < p[b]
}

/// Whether `r` is `v` reordered by `p`, keeping the order of symbols of
/// equal address.
pub open spec fn stable_reorder(r: Seq<Symbol>, v: Seq<Symbol>, p: Seq<int>) -> bool {
    reorders(r, v, p, v.len() as int)
}

/// Sorts `v` by address, keeping symbols of equal address in their order.
pub fn sort_by_address<'data>(v: Vec<Symbol<'data>>) -> (r: Vec<Symbol<'data>>)
    ensures
        sorted_by_address(r@),
        r@.to_multiset() == v@.to_multiset(),
        r@.len() == v@.len(),
        exists|p: Seq<int>| stable_reorder(r@, v@, p),
{
    let mut out: Vec<Symbol<'data>> = Vec::new();
    let ghost mut p: Seq<int> = seq![];
    let mut i: usize = 0;
    while i < v.len()
        invariant
            i <= v@.len(),
            sorted_by_address(out@),
            out@.to_multiset() == v@.take(i as int).to_multiset(),
            out@.len() == i,
            reorders(out@, v@, p, i as int),
        decreases v@.len() - i,
    {
        let x = v[i];
        let mut pos: usize = out.len();
        while pos > 0 && out[pos - 1].address > x.address
            invariant
                pos <= out@.len(),
                forall|k: int| pos <= k < out@.len() ==> out@[k].address > x.address,
            decreases pos,
        {
            pos = pos - 1;
        }
        let ghost before = out@;
        let ghost old_p = p;
        out.insert(pos, x);
        proof {
            p = old_p.insert(pos as int, i as int);
            assert(out@ == before.insert(pos as int, x));
            assert forall|a: int, b: int| 0 <= a < b < out@.len() implies out@[a].address <= out@[b].address by {
                if b == pos && pos > 0 {
                    assert(before[pos - 1].address <= x.address);
                    assert(before[a].address <= before[pos - 1].address || a == pos - 1);
                } else if a < pos && b > pos && pos > 0 {
                    assert(before[a].address <= before[pos - 1].address || a == pos - 1);
                }
            }
            assert forall|k: int| 0 <= k < out@.len() implies 0 <= #[trigger] p[k] < i + 1 && out@[k] == v@[p[k]] by {
                if k > pos {
                    assert(p[k] == old_p[k - 1]);
                } else if k < pos {
                    assert(p[k] == old_p[k]);
                }
            }
            assert forall|a: int, b: int| 0 <= a < b < out@.len() implies p[a] != p[b] by {
                if a != pos && b != pos {
                    let a0 = if a < pos { a } else { a - 1 };
                    let b0 = if b < pos { b } else { b - 1 };
                    assert(p[a] == old_p[a0] && p[b] == old_p[b0]);
                } else if a == pos {
                    let b0 = b - 1;
                    assert(p[b] == old_p[b0]);
                } else {
                    assert(p[a] == old_p[a]);
                }
            }
            assert forall|a: int, b: int| 0 <= a < b < out@.len() && out@[a].address == out@[b].address implies p[a] < p[b] by {
                if a != pos && b != pos {
                    let a0 = if a < pos { a } else { a - 1 };
                    let b0 = if b < pos { b } else { b - 1 };
                    assert(p[a] == old_p[a0] && p[b] == old_p[b0]);
                    assert(before[a0] == out@[a] && before[b0] == out@[b]);
                } else if a == pos {
                    assert(out@[b] == before[b - 1]);
                } else {
                    assert(p[a] == old_p[a]);
                }
            }
            assert forall|j: int| 0 <= j < i + 1 implies #[trigger] is_taken(p, j) by {
                if j < i {
                    assert(is_taken(old_p, j));
                    let k0 = choose|k0: int| 0 <= k0 < old_p.len() && old_p[k0] == j;
                    if k0 < pos {
                        assert(p[k0] == j);
                    } else {
                        assert(p[k0 + 1] == j);
                    }
                } else {
                    assert(p[pos as int] == j);
                }
            }
            assert(v@.take(i + 1) =~= v@.take(i as int).push(x));
        }
        i = i + 1;
    }
    assert(v@.take(v@.len() as int) =~= v@);
    assert(stable_reorder(out@, v@, p));
    out
}

} // verus!
