use vstd::prelude::*;

verus! {

use crate::UploadError;
use vstd::arithmetic::div_mod::{
    lemma_fundamental_div_mod,
    lemma_fundamental_div_mod_converse,
    lemma_small_mod,
};

/// How a file is cut into parts: `part_count` parts of `part_size` bytes
/// each, except the last, which holds `last_part_size` bytes.
#[derive(Clone, Copy, Debug, PartialEq, Eq, Structural)]
pub struct UploadPlan {
    pub part_size: u64,
    pub part_count: u64,
    pub last_part_size: u64,
}

impl UploadPlan {
    /// A well-formed plan has at least one part, and a non-empty final
    /// part no longer than the others.
    pub open spec fn wf(self) -> bool {
        &&& self.part_size >= 1
        &&& self.part_count >= 1
        &&& 1 <= self.last_part_size <= self.part_size
    }

    /// The number of bytes the plan covers.
    pub open spec fn total_size(self) -> int {
        (self.part_count - 1) * self.part_size + self.last_part_size
    }

    /// The length of the part at 0-based index `idx`.
    pub open spec fn part_len(self, idx: int) -> int {
        if idx == self.part_count - 1 {
            self.last_part_size as int
        } else {
            self.part_size as int
        }
    }
}

/// Whether the naive part count would overrun `max`, so that the part
/// size is rebuilt from the chunk limit.
pub open spec fn plan_recomputes(fs: int, max: int, dps: int) -> bool
    recommends
        max >= 1,
        dps >= 1,
{
    fs / dps + 1 > max
}

/// The part size the plan settles on.
pub open spec fn plan_part_size(fs: int, max: int, dps: int) -> int
    recommends
        max >= 1,
        dps >= 1,
{
    if plan_recomputes(fs, max, dps) {
        fs / max + 1
    } else {
        dps
    }
}

/// The part count before the trailing-part adjustment.
pub open spec fn plan_raw_count(fs: int, max: int, dps: int) -> int
    recommends
        max >= 1,
        dps >= 1,
{
    if plan_recomputes(fs, max, dps) {
        max
    } else {
        fs / dps + 1
    }
}

/// The plan the engine builds for a file of `file_size` bytes: start from
/// the default part size, fall back to `file_size / max_chunks + 1` when
/// the naive count overruns `max_chunks`, and when the file divides
/// evenly, fold the would-be empty trailing part into the previous one.
pub open spec fn spec_plan(file_size: u64, max_chunks: u64, default_part_size: u64) -> UploadPlan
    recommends
        file_size >= 1,
        max_chunks >= 1,
        default_part_size >= 1,
{
    let fs = file_size as int;
    let max = max_chunks as int;
    let dps = default_part_size as int;
    let ps = plan_part_size(fs, max, dps);
    let raw = plan_raw_count(fs, max, dps);
    let rem = fs % ps;
    if rem == 0 {
        UploadPlan {
            part_size: ps as u64,
            part_count: (raw - 1) as u64,
            last_part_size: ps as u64,
        }
    } else {
        UploadPlan {
            part_size: ps as u64,
            part_count: raw as u64,
            last_part_size: rem as u64,
        }
    }
}

/// The inputs on which the plan partitions the file exactly: either the
/// naive part count already fits, or the file is large enough relative to
/// the chunk limit that the rebuilt part size covers it in `max` parts.
/// Outside this region the rebuilt plan over-counts the file's bytes.
pub open spec fn plan_exact(fs: int, max: int, dps: int) -> bool
    recommends
        fs >= 1,
        max >= 1,
        dps >= 1,
{
    !plan_recomputes(fs, max, dps) || fs / max + fs % max >= max - 1
}

/// After a recompute, the rebuilt part size `fs / max + 1` cuts the file
/// into exactly `max - 1` full parts plus a remainder, provided the file
/// is large enough (`plan_exact`).
proof fn lemma_recomputed_division(fs: int, max: int)
    requires
        fs >= 1,
        max >= 1,
        fs / max + fs % max >= max - 1,
    ensures
        fs / (fs / max + 1) == max - 1,
        fs % (fs / max + 1) == fs - (max - 1) * (fs / max + 1),
{
    let a = fs / max;
    let b = fs % max;
    lemma_fundamental_div_mod(fs, max);
    assert(fs == max * a + b);
    let c = a + b - max + 1;
    assert(max * a + b == (max - 1) * (a + 1) + (a + b - max + 1)) by (nonlinear_arith);
    assert(0 <= c);
    assert(b < max);
    assert(c < a + 1);
    lemma_fundamental_div_mod_converse(fs, a + 1, max - 1, c);
}

/// The plan's structural invariants hold for every positive input: at
/// least one part, and a final part that is non-empty and no longer than
/// the rest. The part count never exceeds `max_chunks`.
pub proof fn lemma_plan_wf(file_size: u64, max_chunks: u64, default_part_size: u64)
    requires
        file_size >= 1,
        max_chunks >= 1,
        default_part_size >= 1,
        file_size / max_chunks < u64::MAX,
    ensures
        spec_plan(file_size, max_chunks, default_part_size).wf(),
        spec_plan(file_size, max_chunks, default_part_size).part_count <= max_chunks,
{
    let fs = file_size as int;
    let max = max_chunks as int;
    let dps = default_part_size as int;
    let ps = plan_part_size(fs, max, dps);
    let raw = plan_raw_count(fs, max, dps);
    assert(ps >= 1);
    lemma_fundamental_div_mod(fs, ps);
    if fs % ps == 0 {
        // The file holds at least one full part, so the decrement keeps
        // the count positive.
        if fs < ps {
            lemma_small_mod(fs as nat, ps as nat);
            assert(false);
        }
        assert(fs / ps >= 1) by {
            if fs / ps <= 0 {
                assert(ps * (fs / ps) <= 0) by (nonlinear_arith)
                    requires ps >= 1 && fs / ps <= 0;
            }
        }
        if plan_recomputes(fs, max, dps) {
            // With max == 1 the rebuilt size exceeds the file, so the
            // remainder could not have been zero.
            if max == 1 {
                lemma_small_mod(fs as nat, (fs + 1) as nat);
                assert(false);
            }
        } else {
            assert(raw == fs / dps + 1 && ps == dps);
        }
        assert(raw - 1 >= 1);
    } else {
        assert(raw >= 1);
    }
}

/// On `plan_exact` inputs the plan partitions the file: the full parts
/// plus the final part cover `file_size` bytes exactly, and the part
/// count is the least count that covers the file.
pub proof fn lemma_plan_partitions(file_size: u64, max_chunks: u64, default_part_size: u64)
    requires
        file_size >= 1,
        max_chunks >= 1,
        default_part_size >= 1,
        file_size / max_chunks < u64::MAX,
        plan_exact(file_size as int, max_chunks as int, default_part_size as int),
    ensures
        spec_plan(file_size, max_chunks, default_part_size).total_size() == file_size,
        (spec_plan(file_size, max_chunks, default_part_size).part_count - 1)
            * spec_plan(file_size, max_chunks, default_part_size).part_size < file_size,
        file_size <= spec_plan(file_size, max_chunks, default_part_size).part_count
            * spec_plan(file_size, max_chunks, default_part_size).part_size,
        file_size as int % spec_plan(file_size, max_chunks, default_part_size).part_size as int == 0
            ==> spec_plan(file_size, max_chunks, default_part_size).part_count
                == file_size as int / spec_plan(file_size, max_chunks, default_part_size).part_size as int,
{
    let fs = file_size as int;
    let max = max_chunks as int;
    let dps = default_part_size as int;
    let ps = plan_part_size(fs, max, dps);
    let raw = plan_raw_count(fs, max, dps);
    let p = spec_plan(file_size, max_chunks, default_part_size);
    lemma_plan_wf(file_size, max_chunks, default_part_size);
    lemma_fundamental_div_mod(fs, ps);
    if plan_recomputes(fs, max, dps) {
        lemma_recomputed_division(fs, max);
        assert(fs / ps == max - 1);
        assert(fs == ps * (max - 1) + fs % ps);
        if fs % ps == 0 {
            assert(p.part_count == max - 1 && p.last_part_size == ps);
            assert(p.total_size() == (max - 2) * ps + ps);
            assert((max - 2) * ps + ps == (max - 1) * ps) by (nonlinear_arith);
            assert((max - 1) * ps == ps * (max - 1)) by (nonlinear_arith);
        } else {
            assert(p.total_size() == (max - 1) * ps + fs % ps);
            assert((max - 1) * ps == ps * (max - 1)) by (nonlinear_arith);
        }
    } else {
        let q = fs / dps;
        assert(fs == dps * q + fs % dps);
        if fs % ps == 0 {
            assert(p.part_count == q && p.last_part_size == ps);
            assert(p.total_size() == (q - 1) * dps + dps);
            assert((q - 1) * dps + dps == dps * q) by (nonlinear_arith);
        } else {
            assert(p.total_size() == q * dps + fs % dps);
            assert(q * dps == dps * q) by (nonlinear_arith);
        }
    }
    // The ceiling bounds follow from the exact partition and the bounds
    // on the final part.
    assert(p.total_size() == fs);
    assert((p.part_count - 1) * p.part_size < fs);
    assert(p.part_count * p.part_size == (p.part_count - 1) * p.part_size + p.part_size)
        by (nonlinear_arith);
    if fs % p.part_size as int == 0 {
        lemma_fundamental_div_mod_converse(
            fs,
            p.part_size as int,
            p.part_count as int,
            (fs - p.part_count as int * p.part_size as int),
        );
    }
}

/// Builds the upload plan for a file of `file_size` bytes, capped at
/// `max_chunks` parts of `default_part_size` bytes by default. An empty
/// file has no meaningful multipart plan and is rejected.
pub fn plan(file_size: u64, max_chunks: u64, default_part_size: u64) -> (r: Result<
    UploadPlan,
    UploadError,
>)
    requires
        max_chunks >= 1,
        default_part_size >= 1,
        file_size / max_chunks < u64::MAX,
    ensures
        r is Ok <==> file_size >= 1,
        r is Err ==> r->Err_0 == UploadError::EmptyFile,
        r is Ok ==> r->Ok_0 == spec_plan(file_size, max_chunks, default_part_size),
        r is Ok ==> r->Ok_0.wf() && r->Ok_0.part_count <= max_chunks,
        r is Ok && plan_exact(file_size as int, max_chunks as int, default_part_size as int)
            ==> r->Ok_0.total_size() == file_size,
{
    if file_size == 0 {
        return Err(UploadError::EmptyFile);
    }
    let mut part_size = default_part_size;
    let mut count: u64;
    let q = file_size / default_part_size;
    if q >= max_chunks {
        part_size = file_size / max_chunks + 1;
        count = max_chunks;
    } else {
        count = q + 1;
    }
    let rem = file_size % part_size;
    let last_part_size: u64;
    if rem == 0 {
        last_part_size = part_size;
        proof {
            lemma_plan_wf(file_size, max_chunks, default_part_size);
        }
        count = count - 1;
    } else {
        last_part_size = rem;
    }
    let p = UploadPlan { part_size, part_count: count, last_part_size };
    proof {
        lemma_plan_wf(file_size, max_chunks, default_part_size);
        if plan_exact(file_size as int, max_chunks as int, default_part_size as int) {
            lemma_plan_partitions(file_size, max_chunks, default_part_size);
        }
    }
    Ok(p)
}

} // verus!
