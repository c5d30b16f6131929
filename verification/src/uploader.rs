use vstd::prelude::*;

verus! {

use crate::planner::UploadPlan;
use crate::session::PartRecord;
use vstd::arithmetic::mul::{lemma_mul_inequality, lemma_mul_is_distributive_sub_other_way};
use vstd::string::StringExecFns;

/// Whether some record in `parts` carries the 1-based part number `pn`.
pub open spec fn has_part(parts: Seq<PartRecord>, pn: int) -> bool {
    exists|j: int| 0 <= j < parts.len() && (#[trigger] parts[j]).part_number == pn
}

/// Part numbers are unique within a session.
pub open spec fn unique_parts(parts: Seq<PartRecord>) -> bool {
    forall|i: int, j: int|
        0 <= i < j < parts.len() ==> (#[trigger] parts[i]).part_number != (
        #[trigger] parts[j]).part_number
}

/// Every recorded part number lies in the 1-based range of a plan with
/// `count` parts.
pub open spec fn parts_in_range(parts: Seq<PartRecord>, count: int) -> bool {
    forall|i: int| 0 <= i < parts.len() ==> 1 <= (#[trigger] parts[i]).part_number <= count
}

/// How many of the part numbers `1..=k` are recorded in `parts`.
pub open spec fn known_below(parts: Seq<PartRecord>, k: int) -> int
    decreases k,
{
    if k <= 0 {
        0
    } else {
        known_below(parts, k - 1) + if has_part(parts, k) {
            1int
        } else {
            0int
        }
    }
}

/// The bytes of the parts among `1..=k` that are recorded in `parts`.
pub open spec fn bytes_known_below(plan: UploadPlan, parts: Seq<PartRecord>, k: int) -> int
    decreases k,
{
    if k <= 0 {
        0
    } else {
        bytes_known_below(plan, parts, k - 1) + if has_part(parts, k) {
            plan.part_len(k - 1)
        } else {
            0
        }
    }
}

/// The bytes of the parts among `1..=k` that are missing from `parts`.
pub open spec fn bytes_missing_below(plan: UploadPlan, parts: Seq<PartRecord>, k: int) -> int
    decreases k,
{
    if k <= 0 {
        0
    } else {
        bytes_missing_below(plan, parts, k - 1) + if has_part(parts, k) {
            0
        } else {
            plan.part_len(k - 1)
        }
    }
}

/// The bytes of all the parts `1..=k` of the plan.
pub open spec fn bytes_below(plan: UploadPlan, k: int) -> int
    decreases k,
{
    if k <= 0 {
        0
    } else {
        bytes_below(plan, k - 1) + plan.part_len(k - 1)
    }
}

/// The first `k` full parts hold `k * part_size` bytes.
proof fn lemma_bytes_below_full(plan: UploadPlan, k: int)
    requires
        plan.wf(),
        0 <= k <= plan.part_count - 1,
    ensures
        bytes_below(plan, k) == k * plan.part_size,
    decreases k,
{
    if k == 0 {
    } else {
        lemma_bytes_below_full(plan, k - 1);
        assert((k - 1) * plan.part_size + plan.part_size == k * plan.part_size) by {
            lemma_mul_is_distributive_sub_other_way(plan.part_size as int, k, 1);
        }
    }
}

/// All the parts of the plan together hold exactly the plan's total.
pub proof fn lemma_bytes_below_total(plan: UploadPlan)
    requires
        plan.wf(),
    ensures
        bytes_below(plan, plan.part_count as int) == plan.total_size(),
{
    lemma_bytes_below_full(plan, plan.part_count - 1);
}

/// Prefix sums of part bytes only grow.
proof fn lemma_bytes_below_mono(plan: UploadPlan, k1: int, k2: int)
    requires
        plan.wf(),
        0 <= k1 <= k2,
    ensures
        bytes_below(plan, k1) <= bytes_below(plan, k2),
    decreases k2 - k1,
{
    if k1 < k2 {
        lemma_bytes_below_mono(plan, k1, k2 - 1);
    }
}

/// The recorded and the missing parts of any prefix split its bytes,
/// and each side stays within the prefix total.
proof fn lemma_bytes_split(plan: UploadPlan, parts: Seq<PartRecord>, k: int)
    requires
        plan.wf(),
        0 <= k,
    ensures
        bytes_known_below(plan, parts, k) + bytes_missing_below(plan, parts, k) == bytes_below(
            plan,
            k,
        ),
        0 <= bytes_known_below(plan, parts, k),
        0 <= bytes_missing_below(plan, parts, k),
    decreases k,
{
    if k > 0 {
        lemma_bytes_split(plan, parts, k - 1);
    }
}

/// At completion the progress counter reaches the plan's total: the
/// bytes counted up front for the recorded parts plus the bytes of
/// every part still to upload cover the plan exactly, with no byte
/// counted twice.
pub proof fn lemma_progress_accounting(plan: UploadPlan, parts: Seq<PartRecord>)
    requires
        plan.wf(),
    ensures
        bytes_known_below(plan, parts, plan.part_count as int) + bytes_missing_below(
            plan,
            parts,
            plan.part_count as int,
        ) == plan.total_size(),
{
    lemma_bytes_split(plan, parts, plan.part_count as int);
    lemma_bytes_below_total(plan);
}

/// Dropping the last record removes exactly its part number from every
/// prefix count, provided part numbers are unique.
proof fn lemma_known_below_drop_last(parts: Seq<PartRecord>, k: int)
    requires
        parts.len() > 0,
        unique_parts(parts),
        0 <= k,
    ensures
        known_below(parts, k) == known_below(parts.drop_last(), k) + if 1 <= parts.last().part_number
            <= k {
            1int
        } else {
            0int
        },
    decreases k,
{
    if k > 0 {
        lemma_known_below_drop_last(parts, k - 1);
        let rest = parts.drop_last();
        let last = parts.last();
        if last.part_number == k {
            assert(has_part(parts, k)) by {
                assert(parts[parts.len() - 1].part_number == k);
            }
            assert(!has_part(rest, k)) by {
                if has_part(rest, k) {
                    let j = choose|j: int|
                        0 <= j < rest.len() && (#[trigger] rest[j]).part_number == k;
                    assert(parts[j].part_number == k);
                    assert(parts[parts.len() - 1].part_number == k);
                }
            }
        } else {
            assert(has_part(parts, k) == has_part(rest, k)) by {
                if has_part(rest, k) {
                    let j = choose|j: int|
                        0 <= j < rest.len() && (#[trigger] rest[j]).part_number == k;
                    assert(parts[j].part_number == k);
                }
                if has_part(parts, k) {
                    let j = choose|j: int|
                        0 <= j < parts.len() && (#[trigger] parts[j]).part_number == k;
                    assert(j < parts.len() - 1 ==> rest[j].part_number == k);
                }
            }
        }
    }
}

/// With unique part numbers all within `1..=n`, the count of recorded
/// numbers below `n` is exactly the number of records. This is the
/// resume law's bookkeeping: `k` of `n` parts recorded means `n - k`
/// uploads are issued.
pub proof fn lemma_known_below_count(parts: Seq<PartRecord>, n: int)
    requires
        unique_parts(parts),
        parts_in_range(parts, n),
        0 <= n,
    ensures
        known_below(parts, n) == parts.len(),
    decreases parts.len(),
{
    if parts.len() == 0 {
        assert forall|k: int| 0 <= k <= n implies known_below(parts, k) == 0 by {
            lemma_known_below_empty(parts, k);
        }
    } else {
        let rest = parts.drop_last();
        assert(unique_parts(rest)) by {
            assert(forall|i: int| 0 <= i < rest.len() ==> rest[i] == parts[i]);
        }
        assert(parts_in_range(rest, n)) by {
            assert(forall|i: int| 0 <= i < rest.len() ==> rest[i] == parts[i]);
        }
        lemma_known_below_count(rest, n);
        lemma_known_below_drop_last(parts, n);
    }
}

/// No part number is recorded in an empty record list.
proof fn lemma_known_below_empty(parts: Seq<PartRecord>, k: int)
    requires
        parts.len() == 0,
        0 <= k,
    ensures
        known_below(parts, k) == 0,
    decreases k,
{
    if k > 0 {
        lemma_known_below_empty(parts, k - 1);
    }
}

/// Whether some task in `tasks` carries the 1-based part number `pn`.
pub open spec fn has_task(tasks: Seq<PartTask>, pn: int) -> bool {
    exists|j: int| 0 <= j < tasks.len() && (#[trigger] tasks[j]).part_number == pn
}

/// The bytes the tasks will upload, summed in order.
pub open spec fn tasks_bytes(tasks: Seq<PartTask>) -> int
    decreases tasks.len(),
{
    if tasks.len() == 0 {
        0
    } else {
        tasks_bytes(tasks.drop_last()) + tasks.last().length
    }
}

/// One pending upload: the part to send and the exact byte range of the
/// source file that forms its body.
#[derive(Clone, Copy, Debug, PartialEq, Eq, Structural)]
pub struct PartTask {
    pub part_number: i32,
    pub offset: u64,
    pub length: u64,
}

/// A task is for a part of the plan that is not yet recorded, reads at
/// the part's exact offset, and sends the part's exact length.
pub open spec fn valid_task(plan: UploadPlan, known: Seq<PartRecord>, t: PartTask) -> bool {
    &&& 1 <= t.part_number <= plan.part_count
    &&& !has_part(known, t.part_number as int)
    &&& t.offset == (t.part_number - 1) * plan.part_size
    &&& t.length == plan.part_len(t.part_number - 1)
}

/// Whether `parts` records the part number `pn`.
pub fn contains_part(parts: &Vec<PartRecord>, pn: i32) -> (r: bool)
    ensures
        r == has_part(parts@, pn as int),
{
    let mut i: usize = 0;
    while i < parts.len()
        invariant
            i <= parts@.len(),
            forall|j: int| 0 <= j < i ==> (#[trigger] parts@[j]).part_number != pn,
        decreases parts@.len() - i,
    {
        if parts[i].part_number == pn {
            return true;
        }
        i = i + 1;
    }
    false
}

/// Computes the byte ranges still to upload: one task for every part of
/// the plan whose number is not recorded in `known`, in ascending part
/// order, each reading exactly its part's range. Parts already recorded
/// are skipped: their bytes are neither re-read nor re-sent.
pub fn missing_parts(plan: &UploadPlan, known: &Vec<PartRecord>) -> (r: Vec<PartTask>)
    requires
        plan.wf(),
        plan.total_size() <= u64::MAX,
        plan.part_count <= 0x7fff_ffff,
    ensures
        forall|k: int| 0 <= k < r@.len() ==> valid_task(*plan, known@, #[trigger] r@[k]),
        forall|k1: int, k2: int|
            0 <= k1 < k2 < r@.len() ==> r@[k1].part_number < r@[k2].part_number,
        forall|pn: int| 1 <= pn <= plan.part_count && !has_part(known@, pn) ==> has_task(r@, pn),
        forall|pn: int|
            1 <= pn <= plan.part_count ==> (has_part(known@, pn) <==> !has_task(r@, pn)),
        r@.len() == plan.part_count - known_below(known@, plan.part_count as int),
        tasks_bytes(r@) == bytes_missing_below(*plan, known@, plan.part_count as int),
{
    let mut r: Vec<PartTask> = Vec::new();
    let count = plan.part_count;
    let mut i: u64 = 0;
    while i < count
        invariant
            plan.wf(),
            plan.total_size() <= u64::MAX,
            count == plan.part_count,
            count <= 0x7fff_ffff,
            i <= count,
            forall|k: int| 0 <= k < r@.len() ==> valid_task(*plan, known@, #[trigger] r@[k]),
            forall|k: int| 0 <= k < r@.len() ==> (#[trigger] r@[k]).part_number <= i,
            forall|k1: int, k2: int|
                0 <= k1 < k2 < r@.len() ==> r@[k1].part_number < r@[k2].part_number,
            forall|pn: int| 1 <= pn <= i && !has_part(known@, pn) ==> has_task(r@, pn),
            forall|pn: int| 1 <= pn <= i ==> (has_part(known@, pn) <==> !has_task(r@, pn)),
            r@.len() == i - known_below(known@, i as int),
            tasks_bytes(r@) == bytes_missing_below(*plan, known@, i as int),
        decreases count - i,
    {
        let pn_index = i;
        let pn = (i + 1) as i32;
        assert(pn == i + 1);
        if contains_part(known, pn) {
            assert(known_below(known@, (i + 1) as int) == known_below(known@, i as int) + 1);
        } else {
            proof {
                lemma_mul_inequality(pn_index as int, count - 1, plan.part_size as int);
            }
            let offset = pn_index * plan.part_size;
            let length = if pn_index + 1 == count {
                plan.last_part_size
            } else {
                plan.part_size
            };
            let t = PartTask { part_number: pn, offset, length };
            let ghost old_r = r@;
            r.push(t);
            proof {
                assert(r@.drop_last() =~= old_r);
                assert(has_task(r@, i + 1)) by {
                    assert(r@[r@.len() - 1].part_number == i + 1);
                }
                assert(forall|pn2: int|
                    1 <= pn2 <= i && has_task(old_r, pn2) ==> has_task(r@, pn2)) by {
                    assert(forall|j: int| 0 <= j < old_r.len() ==> r@[j] == old_r[j]);
                }
                assert(forall|pn2: int| 1 <= pn2 <= i && has_task(r@, pn2) ==> has_task(
                    old_r,
                    pn2,
                )) by {
                    assert forall|pn2: int| 1 <= pn2 <= i && has_task(r@, pn2) implies has_task(
                        old_r,
                        pn2,
                    ) by {
                        let j = choose|j: int|
                            0 <= j < r@.len() && (#[trigger] r@[j]).part_number == pn2;
                        assert(j < old_r.len());
                        assert(old_r[j].part_number == pn2);
                    }
                }
            }
        }
        proof {
            assert(forall|pn2: int|
                1 <= pn2 <= i ==> (has_part(known@, pn2) <==> !has_task(r@, pn2)));
        }
        i = i + 1;
    }
    r
}

/// The bytes already stored for the recorded parts, counted before any
/// task launches so that the displayed progress includes resumed work.
pub fn seed_bytes(plan: &UploadPlan, known: &Vec<PartRecord>) -> (r: u64)
    requires
        plan.wf(),
        plan.total_size() <= u64::MAX,
        plan.part_count <= 0x7fff_ffff,
    ensures
        r == bytes_known_below(*plan, known@, plan.part_count as int),
{
    let count = plan.part_count;
    let mut total: u64 = 0;
    let mut i: u64 = 0;
    while i < count
        invariant
            plan.wf(),
            plan.total_size() <= u64::MAX,
            count == plan.part_count,
            count <= 0x7fff_ffff,
            i <= count,
            total == bytes_known_below(*plan, known@, i as int),
        decreases count - i,
    {
        proof {
            lemma_bytes_split(*plan, known@, i as int);
            lemma_bytes_split(*plan, known@, i + 1);
            lemma_bytes_below_mono(*plan, i + 1, count as int);
            lemma_bytes_below_total(*plan);
        }
        let pn = (i + 1) as i32;
        if contains_part(known, pn) {
            let length = if i + 1 == count {
                plan.last_part_size
            } else {
                plan.part_size
            };
            total = total + length;
        }
        i = i + 1;
    }
    total
}

/// The shared accumulator of bytes confirmed uploaded. It is seeded
/// with the bytes of the resumed parts before any task launches, and
/// every completing task adds its part's bytes; with the split proved
/// in [`lemma_progress_accounting`], the count reaches the file size
/// exactly when every part is in.
#[derive(Clone, Copy, Debug, PartialEq, Eq, Structural)]
pub struct ProgressCounter {
    pub done: u64,
    pub total: u64,
}

impl ProgressCounter {
    /// A counter for a transfer of `total` bytes, with nothing
    /// confirmed yet.
    pub fn new(total: u64) -> (r: ProgressCounter)
        ensures
            r.done == 0,
            r.total == total,
    {
        ProgressCounter { done: 0, total }
    }

    /// Confirms `n` more bytes: an increment is never lost.
    pub fn add(&mut self, n: u64)
        requires
            old(self).done + n <= u64::MAX,
        ensures
            final(self).done == old(self).done + n,
            final(self).total == old(self).total,
    {
        self.done = self.done + n;
    }

    /// The overwriting progress line: bytes confirmed over bytes total,
    /// each in a human-readable unit.
    pub fn line(&self) -> (r: String)
        ensures
            r@ == "\rCompleted "@ + crate::format::size_text(self.done as int) + "/"@
                + crate::format::size_text(self.total as int),
    {
        let mut s = "\rCompleted ".to_owned();
        let done_text = crate::format::get_size_in_nice(self.done);
        s.append(done_text.as_str());
        s.append("/");
        let total_text = crate::format::get_size_in_nice(self.total);
        s.append(total_text.as_str());
        s
    }
}

/// The union of the resumed records and the freshly uploaded ones, in
/// the order they were gathered; the finalizer orders them.
pub fn merge_parts(base: Vec<PartRecord>, extra: Vec<PartRecord>) -> (r: Vec<PartRecord>)
    ensures
        r@ == base@ + extra@,
{
    let mut merged = base;
    let mut extra = extra;
    merged.append(&mut extra);
    merged
}

} // verus!
