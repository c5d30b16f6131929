use vstd::prelude::*;

verus! {

use crate::session::PartRecord;
use crate::uploader::unique_parts;

broadcast use vstd::seq_lib::group_to_multiset_ensures, vstd::multiset::group_multiset_axioms;

/// The records are in ascending part-number order.
pub open spec fn sorted_by_part_number(parts: Seq<PartRecord>) -> bool {
    forall|i: int, j: int|
        0 <= i < j < parts.len() ==> (#[trigger] parts[i]).part_number <= (
        #[trigger] parts[j]).part_number
}

/// The records are in strictly ascending part-number order.
pub open spec fn strictly_ascending(parts: Seq<PartRecord>) -> bool {
    forall|i: int, j: int|
        0 <= i < j < parts.len() ==> (#[trigger] parts[i]).part_number < (
        #[trigger] parts[j]).part_number
}

/// Orders the completed parts ascending by part number before the
/// completion call: the remote side accepts the list only in that
/// order. The records themselves are kept intact, whatever order the
/// concurrent uploads finished in; with unique part numbers the result
/// is strictly ascending.
pub fn order_parts(parts: Vec<PartRecord>) -> (r: Vec<PartRecord>)
    ensures
        r@.len() == parts@.len(),
        r@.to_multiset() == parts@.to_multiset(),
        sorted_by_part_number(r@),
        unique_parts(parts@) ==> strictly_ascending(r@),
{
    let ghost orig = parts@;
    let mut rest = parts;
    let mut out: Vec<PartRecord> = Vec::new();
    while rest.len() > 0
        invariant
            orig == parts@,
            out@.len() + rest@.len() == orig.len(),
            rest@ == orig.skip(out@.len() as int),
            out@.to_multiset() == orig.take(out@.len() as int).to_multiset(),
            sorted_by_part_number(out@),
            unique_parts(orig) ==> strictly_ascending(out@),
        decreases rest@.len(),
    {
        let ghost k = out@.len() as int;
        let t = rest.remove(0);
        proof {
            assert(t == orig[k]);
            assert(rest@ =~= orig.skip(k + 1));
        }
        let pn = t.part_number;
        let mut j: usize = 0;
        while j < out.len() && out[j].part_number <= pn
            invariant
                j <= out@.len(),
                pn == t.part_number,
                forall|m: int| 0 <= m < j ==> (#[trigger] out@[m]).part_number <= pn,
            decreases out@.len() - j,
        {
            j = j + 1;
        }
        proof {
            // Any record already placed came from the prefix consumed so
            // far; with unique part numbers none can share `t`'s number.
            if unique_parts(orig) {
                assert forall|m: int| 0 <= m < out@.len() implies (#[trigger] out@[m]).part_number
                    != pn by {
                    if out@[m].part_number == pn {
                        assert(out@.to_multiset().count(out@[m]) > 0);
                        assert(orig.take(k).to_multiset().count(out@[m]) > 0);
                        assert(orig.take(k).contains(out@[m]));
                        let j2 = choose|j2: int| 0 <= j2 < k && orig.take(k)[j2] == out@[m];
                        assert(orig[j2].part_number == pn);
                        assert(orig[k].part_number == pn);
                    }
                }
            }
        }
        let ghost out_old = out@;
        out.insert(j, t);
        proof {
            let s2 = out_old.insert(j as int, t);
            assert(out@ == s2);
            assert(s2[j as int] == t);
            assert(s2.remove(j as int) =~= out_old);
            assert(s2.to_multiset().count(t) > 0) by {
                assert(s2.contains(t));
            }
            assert(s2.to_multiset() =~= out_old.to_multiset().insert(t));
            assert(orig.take(k + 1).drop_last() =~= orig.take(k));
            assert(orig.take(k + 1) =~= orig.take(k).push(orig[k]));
            assert(orig.take(k).push(orig[k]).to_multiset() =~= orig.take(
                k,
            ).to_multiset().insert(orig[k]));
            assert(out@.to_multiset() == orig.take(k + 1).to_multiset());
            assert(forall|m: int| 0 <= m < j ==> s2[m] == out_old[m]);
            assert(forall|m: int| j < m < s2.len() ==> s2[m] == out_old[m - 1]);
        }
    }
    proof {
        assert(orig.take(out@.len() as int) =~= orig);
    }
    out
}

} // verus!
