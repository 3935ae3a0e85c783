//! A verified insertion sort over any totally ordered record type, used to
//! put query results into their documented order.

use vstd::prelude::*;
use vstd::seq_lib::group_to_multiset_ensures;

verus! {

/// A total order on a record type, with an executable comparison.
pub trait Ordered: Sized {
    /// The order relation (reflexive, transitive, total).
    spec fn le(self, other: Self) -> bool;

    proof fn lemma_le_total(a: Self, b: Self)
        ensures
            a.le(b) || b.le(a),
    ;

    proof fn lemma_le_trans(a: Self, b: Self, c: Self)
        requires
            a.le(b),
            b.le(c),
        ensures
            a.le(c),
    ;

    /// Decides the order relation.
    fn le_exec(&self, other: &Self) -> (r: bool)
        ensures
            r == self.le(*other),
    ;

    /// A duplicate of the value (a clone whose contract Verus sees).
    fn copy_val(&self) -> (r: Self)
        ensures
            r == *self,
    ;
}

/// Whether `s` is sorted under the type's order.
pub open spec fn sorted<T: Ordered>(s: Seq<T>) -> bool {
    forall|a: int, b: int| 0 <= a < b < s.len() ==> #[trigger] s[a].le(#[trigger] s[b])
}

/// Sorts a copy of `input`: the result is ordered and holds exactly the
/// input's elements (as a multiset).
pub fn insertion_sort<T: Ordered>(input: &Vec<T>) -> (out: Vec<T>)
    ensures
        out@.len() == input@.len(),
        out@.to_multiset() == input@.to_multiset(),
        sorted(out@),
{
    broadcast use group_to_multiset_ensures;

    let mut out: Vec<T> = Vec::new();
    let mut i: usize = 0;
    while i < input.len()
        invariant
            0 <= i <= input@.len(),
            out@.len() == i,
            out@.to_multiset() == input@.subrange(0, i as int).to_multiset(),
            sorted(out@),
        decreases input@.len() - i,
    {
        let x = input[i].copy_val();
        let ghost pre_out = out@;
        let mut p: usize = 0;
        while p < out.len() && out[p].le_exec(&x)
            invariant
                0 <= p <= out@.len(),
                out@ == pre_out,
                forall|a: int| 0 <= a < p ==> (#[trigger] out@[a]).le(x),
                i < input@.len(),
                x == input@[i as int],
                sorted(out@),
            decreases out@.len() - p,
        {
            p = p + 1;
        }
        out.insert(p, x);
        proof {
            assert(out@ == pre_out.insert(p as int, x));
            // index facts of the inserted sequence
            assert(forall|k: int| 0 <= k < p ==> out@[k] == pre_out[k]);
            assert(out@[p as int] == x);
            assert(forall|k: int| p < k < out@.len() ==> out@[k] == pre_out[k - 1]);
            assert forall|a: int, b: int| 0 <= a < b < out@.len() implies #[trigger] out@[a].le(
                #[trigger] out@[b],
            ) by {
                if a == p as int {
                    // x precedes everything that refused to precede it
                    if p < pre_out.len() {
                        T::lemma_le_total(x, pre_out[p as int]);
                        if b > p as int + 1 {
                            T::lemma_le_trans(x, pre_out[p as int], pre_out[b - 1]);
                        }
                    }
                } else if b == p as int {
                    // everything before position p admitted x
                } else if a < p as int && b > p as int {
                    // both sides keep their old order across the gap
                } else {
                    // both on the same side of the insertion point
                }
            }
            // the consumed prefix grows by exactly the inserted element
            vstd::seq_lib::to_multiset_insert(pre_out, p as int, x);
            assert(input@.subrange(0, i as int + 1) =~= input@.subrange(0, i as int).push(
                input@[i as int],
            ));
            vstd::seq_lib::to_multiset_build(input@.subrange(0, i as int), input@[i as int]);
            assert(out@.to_multiset() =~= input@.subrange(0, i as int + 1).to_multiset());
        }
        i = i + 1;
    }
    proof {
        assert(input@.subrange(0, input@.len() as int) =~= input@);
    }
    out
}

} // verus!
