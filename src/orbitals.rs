//! Ordering of molecular orbitals by energy and choice of the occupied ones.
//!
//! An eigensolver returns its eigenpairs in no particular order. Orbital
//! energies are handed in as integer keys whose order is the order of the
//! energies (an order-preserving encoding of the real values); ties go to
//! the lower orbital index, so the order is total and the result unique.
use vstd::prelude::*;

verus! {

/// Orbital `a` comes before orbital `b`: lower energy, or equal energy and
/// lower index.
pub open spec fn orbital_before(keys: Seq<u64>, a: int, b: int) -> bool {
    keys[a] < keys[b] || (keys[a] == keys[b] && a < b)
}

/// `order` lists orbital indices below `keys.len()` in strictly ascending
/// orbital order (so without repetition).
pub open spec fn is_ordered_selection(keys: Seq<u64>, order: Seq<usize>) -> bool {
    &&& forall|p: int| 0 <= p < order.len() ==> #[trigger] order[p] < keys.len()
    &&& forall|p: int, q: int|
        0 <= p < q < order.len() ==> orbital_before(keys, #[trigger] order[p] as int, #[trigger] order[q] as int)
}

/// IEEE-754 total order on binary64 bit patterns: negative values (sign bit
/// set) before non-negative ones; among non-negative values the larger
/// magnitude comes later, among negative values it comes earlier.
pub open spec fn bits_before(a: u64, b: u64) -> bool {
    let sa = a >> 63u64;
    let sb = b >> 63u64;
    let ma = a & 0x7fff_ffff_ffff_ffffu64;
    let mb = b & 0x7fff_ffff_ffff_ffffu64;
    if sa == 0 && sb == 0 {
        ma < mb
    } else if sa == 1 && sb == 1 {
        ma > mb
    } else {
        sa == 1 && sb == 0
    }
}

pub open spec fn energy_key_spec(bits: u64) -> u64 {
    if bits >> 63u64 == 1 {
        !bits
    } else {
        bits | 0x8000_0000_0000_0000u64
    }
}

/// The unsigned key of an orbital energy given by its binary64 bit
/// pattern; keys compare as the energies do.
pub fn energy_key(bits: u64) -> (k: u64)
    ensures
        k == energy_key_spec(bits),
{
    if bits >> 63u64 == 1 {
        !bits
    } else {
        bits | 0x8000_0000_0000_0000u64
    }
}

/// Energy keys order bit patterns exactly as the IEEE-754 total order does.
pub proof fn lemma_energy_key_order(a: u64, b: u64)
    ensures
        bits_before(a, b) <==> energy_key_spec(a) < energy_key_spec(b),
{
    assert(bits_before(a, b) <==> energy_key_spec(a) < energy_key_spec(b)) by (bit_vector);
}

/// `order` lists orbital `x`.
pub open spec fn lists_orbital(order: Seq<usize>, x: int) -> bool {
    exists|p: int| 0 <= p < order.len() && order[p] == x
}

/// Sorts the orbital indices `0..keys.len()` by ascending energy key.
pub fn sort_orbitals(keys: &Vec<u64>) -> (order: Vec<usize>)
    ensures
        order.len() == keys.len(),
        is_ordered_selection(keys@, order@),
        forall|x: int| 0 <= x < keys.len() ==> #[trigger] lists_orbital(order@, x),
{
    let n = keys.len();
    let mut order: Vec<usize> = Vec::new();
    let mut t: usize = 0;
    while t < n
        invariant
            n == keys.len(),
            t <= n,
            order.len() == t,
            is_ordered_selection(keys@, order@),
            forall|p: int| 0 <= p < order.len() ==> #[trigger] order[p] < t,
            forall|x: int| 0 <= x < t ==> #[trigger] lists_orbital(order@, x),
        decreases n - t,
    {
        let mut pos: usize = 0;
        while pos < order.len() && keys[order[pos]] <= keys[t]
            invariant
                n == keys.len(),
                t < n,
                pos <= order.len(),
                forall|p: int| 0 <= p < order.len() ==> #[trigger] order[p] < t,
                forall|p: int| 0 <= p < pos ==> keys[#[trigger] order[p] as int] <= keys[t as int],
            decreases order.len() - pos,
        {
            pos = pos + 1;
        }
        let ghost old_order = order@;
        order.insert(pos, t);
        proof {
            assert forall|p: int, q: int| 0 <= p < q < order.len() implies orbital_before(
                keys@,
                #[trigger] order[p] as int,
                #[trigger] order[q] as int,
            ) by {
                if q == pos {
                    assert(order[p] == old_order[p]);
                } else if p == pos {
                    assert(order[q] == old_order[q - 1]);
                    assert(!(keys[old_order[pos as int] as int] <= keys[t as int]));
                    if q - 1 > pos {
                        assert(orbital_before(keys@, old_order[pos as int] as int, old_order[q - 1] as int));
                    }
                } else if q < pos {
                    assert(order[p] == old_order[p] && order[q] == old_order[q]);
                } else if p < pos {
                    assert(order[p] == old_order[p] && order[q] == old_order[q - 1]);
                } else {
                    assert(order[p] == old_order[p - 1] && order[q] == old_order[q - 1]);
                }
            }
            assert forall|x: int| 0 <= x < t + 1 implies #[trigger] lists_orbital(order@, x) by {
                if x == t {
                    assert(order[pos as int] == t);
                } else {
                    assert(lists_orbital(old_order, x));
                    let p = choose|p: int| 0 <= p < old_order.len() && old_order[p] == x;
                    if p < pos {
                        assert(order[p] == x);
                    } else {
                        assert(order[p + 1] == x);
                    }
                }
            }
        }
        t = t + 1;
    }
    order
}

/// The `n_occ` lowest orbitals, in ascending order: every orbital left out
/// comes after every orbital chosen.
pub fn occupied_orbitals(keys: &Vec<u64>, n_occ: usize) -> (occ: Vec<usize>)
    requires
        n_occ <= keys.len(),
    ensures
        occ.len() == n_occ,
        is_ordered_selection(keys@, occ@),
        forall|x: int|
            0 <= x < keys.len() ==> #[trigger] lists_orbital(occ@, x) || (forall|p: int|
                0 <= p < occ.len() ==> orbital_before(keys@, #[trigger] occ[p] as int, x)),
{
    let order = sort_orbitals(keys);
    let mut occ: Vec<usize> = Vec::new();
    let mut p: usize = 0;
    while p < n_occ
        invariant
            n_occ <= keys.len(),
            order.len() == keys.len(),
            p <= n_occ,
            occ@ == order@.subrange(0, p as int),
        decreases n_occ - p,
    {
        occ.push(order[p]);
        p = p + 1;
    }
    proof {
        assert forall|x: int| 0 <= x < keys.len() implies #[trigger] lists_orbital(occ@, x) || (
        forall|p: int| 0 <= p < occ.len() ==> orbital_before(keys@, #[trigger] occ[p] as int, x)) by {
            assert(lists_orbital(order@, x));
            let q = choose|q: int| 0 <= q < order.len() && order[q] == x;
            if q < n_occ {
                assert(occ[q] == x);
            } else {
                assert forall|p: int| 0 <= p < occ.len() implies orbital_before(
                    keys@,
                    #[trigger] occ[p] as int,
                    x,
                ) by {
                    assert(occ[p] == order[p]);
                }
            }
        }
    }
    occ
}

} // verus!
