use vstd::prelude::*;

verus! {

use crate::UploadError;
use crate::planner::{UploadPlan, spec_plan, plan, plan_recomputes};
use vstd::arithmetic::div_mod::lemma_fundamental_div_mod;
use vstd::arithmetic::mul::lemma_mul_inequality;

/// One part already stored in a multipart session: its 1-based number,
/// the entity tag the remote side returned for it, and its byte length.
#[derive(Clone, Debug)]
pub struct PartRecord {
    pub part_number: i32,
    pub entity_tag: String,
    pub size: u64,
}

/// One open multipart session as the remote listing reports it: its
/// upload id and the parts it already stores, in listed order.
#[derive(Debug)]
pub struct RemoteSession {
    pub upload_id: String,
    pub parts: Vec<PartRecord>,
}

/// The session picked for resumption: the first listed session that
/// stores at least one part. Its part size is the size observed on the
/// first stored part.
#[derive(Debug)]
pub struct ResumeCandidate {
    pub upload_id: String,
    pub part_size: u64,
    pub parts: Vec<PartRecord>,
}

/// What the scan decides for one listed session.
#[derive(Debug)]
pub enum ScanStep {
    /// The session stores no parts: it is a leftover with no recoverable
    /// value, and is aborted.
    Abort(String),
    /// The session stores parts: it becomes the resumption candidate and
    /// the scan stops.
    Take(ResumeCandidate),
}

/// Decides what to do with one listed session, given the parts it
/// stores: abort it when it is empty, otherwise take it as the
/// resumption candidate.
pub fn scan_step(upload_id: String, parts: Vec<PartRecord>) -> (r: ScanStep)
    ensures
        parts@.len() == 0 ==> (r matches ScanStep::Abort(id) && id == upload_id),
        parts@.len() > 0 ==> (r matches ScanStep::Take(c) && c.upload_id == upload_id
            && c.part_size == parts@[0].size && c.parts == parts),
{
    if parts.len() == 0 {
        ScanStep::Abort(upload_id)
    } else {
        let part_size = parts[0].size;
        ScanStep::Take(ResumeCandidate { upload_id, part_size, parts })
    }
}

/// The index of the first listed session that stores at least one part,
/// if any session does.
pub open spec fn first_with_parts(sessions: Seq<RemoteSession>) -> Option<int>
    decreases sessions.len(),
{
    if sessions.len() == 0 {
        None
    } else if sessions[0].parts@.len() > 0 {
        Some(0)
    } else {
        match first_with_parts(sessions.drop_first()) {
            Some(i) => Some(i + 1),
            None => None,
        }
    }
}

/// `first_with_parts` returns the position after any run of empty
/// sessions, and nothing when every session is empty.
proof fn lemma_first_with_parts(sessions: Seq<RemoteSession>, k: int)
    requires
        0 <= k <= sessions.len(),
        forall|j: int| 0 <= j < k ==> #[trigger] sessions[j].parts@.len() == 0,
        k < sessions.len() ==> sessions[k].parts@.len() > 0,
    ensures
        first_with_parts(sessions) == if k == sessions.len() {
            None::<int>
        } else {
            Some(k)
        },
    decreases k,
{
    if k == 0 {
    } else {
        let rest = sessions.drop_first();
        assert(forall|j: int| 0 <= j < k - 1 ==> #[trigger] rest[j].parts@.len() == 0);
        lemma_first_with_parts(rest, k - 1);
    }
}

/// The outcome of scanning the remote listing: the ids of the empty
/// sessions found before the candidate (to be aborted), and the
/// candidate itself when one exists.
#[derive(Debug)]
pub struct ScanOutcome {
    pub aborts: Vec<String>,
    pub resume: Option<ResumeCandidate>,
}

/// Scans the remote listing in order: every session without parts found
/// before the first session with parts is marked for abort; the first
/// session with parts becomes the resumption candidate and ends the
/// scan. Sessions after the candidate are left untouched.
pub fn scan_sessions(sessions: Vec<RemoteSession>) -> (r: ScanOutcome)
    ensures
        match first_with_parts(sessions@) {
            None => {
                &&& r.resume is None
                &&& r.aborts@.len() == sessions@.len()
                &&& forall|j: int|
                    0 <= j < sessions@.len() ==> r.aborts@[j] == #[trigger] sessions@[j].upload_id
            },
            Some(i) => {
                &&& r.resume is Some
                &&& r.resume->0.upload_id == sessions@[i].upload_id
                &&& r.resume->0.parts == sessions@[i].parts
                &&& r.resume->0.part_size == sessions@[i].parts@[0].size
                &&& r.aborts@.len() == i
                &&& forall|j: int| 0 <= j < i ==> r.aborts@[j] == #[trigger] sessions@[j].upload_id
            },
        },
{
    let ghost orig = sessions@;
    let mut rest = sessions;
    let mut aborts: Vec<String> = Vec::new();
    let mut resume: Option<ResumeCandidate> = None;
    while rest.len() > 0
        invariant
            orig == sessions@,
            resume is None,
            aborts@.len() + rest@.len() == orig.len(),
            rest@ == orig.skip(aborts@.len() as int),
            forall|j: int| 0 <= j < aborts@.len() ==> aborts@[j] == #[trigger] orig[j].upload_id,
            forall|j: int| 0 <= j < aborts@.len() ==> #[trigger] orig[j].parts@.len() == 0,
        decreases rest@.len(),
    {
        let ghost k = aborts@.len() as int;
        let s = rest.remove(0);
        proof {
            assert(s == orig[k]);
            assert(rest@ =~= orig.skip(k + 1));
        }
        if s.parts.len() == 0 {
            aborts.push(s.upload_id);
        } else {
            proof {
                lemma_first_with_parts(orig, k);
            }
            let part_size = s.parts[0].size;
            resume = Some(ResumeCandidate { upload_id: s.upload_id, part_size, parts: s.parts });
            return ScanOutcome { aborts, resume };
        }
    }
    proof {
        lemma_first_with_parts(orig, orig.len() as int);
    }
    ScanOutcome { aborts, resume }
}

/// What the reconciler tells the caller to do with the multipart
/// session before any part is uploaded.
#[derive(Clone, Copy, Debug, PartialEq, Eq, Structural)]
pub enum SessionAction {
    /// No resumable session exists: create a fresh one.
    CreateNew,
    /// The candidate's observed part size matches the plan: resume it.
    Resume,
    /// The rebuilt plan no longer matches the candidate's part size:
    /// abort the candidate and create a fresh session.
    AbortAndCreate,
}

/// What reconciliation settles on: the plan to upload by, what to do
/// with the remote session, and the parts that may be skipped during
/// upload.
#[derive(Debug)]
pub struct Reconciliation {
    pub plan: UploadPlan,
    pub action: SessionAction,
    pub known_parts: Vec<PartRecord>,
}

/// The part size the plan starts from: the candidate's observed size
/// when a session is resumed, the engine default otherwise.
pub open spec fn base_part_size(found: Option<ResumeCandidate>, default_part_size: u64) -> u64 {
    match found {
        Some(c) => c.part_size,
        None => default_part_size,
    }
}

/// When the naive count overruns the chunk limit, the rebuilt part size
/// never equals the size it replaces.
proof fn lemma_recompute_changes_size(fs: int, max: int, base: int)
    requires
        fs >= 1,
        max >= 1,
        base >= 1,
        plan_recomputes(fs, max, base),
    ensures
        fs / max + 1 != base,
{
    if fs / max + 1 == base {
        let a = fs / max;
        lemma_fundamental_div_mod(fs, max);
        assert(fs < max * (a + 1)) by (nonlinear_arith)
            requires fs == max * a + fs % max && fs % max < max;
        assert(fs / base >= max);
        lemma_fundamental_div_mod(fs, base);
        lemma_mul_inequality(max, fs / base, base);
        assert(base * max <= base * (fs / base)) by (nonlinear_arith)
            requires max <= fs / base && base >= 1;
        assert(max * (a + 1) == base * max) by (nonlinear_arith)
            requires base == a + 1;
        assert(false);
    }
}

/// Reconciles the resumption candidate against the plan rebuilt for the
/// file: with no candidate a fresh session is created; a candidate whose
/// observed part size survives the rebuild is resumed with its parts;
/// one whose part size the rebuild changed is aborted and replaced, and
/// its parts are discarded.
pub fn reconcile(
    file_size: u64,
    max_chunks: u64,
    default_part_size: u64,
    found: Option<ResumeCandidate>,
) -> (r: Result<Reconciliation, UploadError>)
    requires
        max_chunks >= 1,
        default_part_size >= 1,
        file_size / max_chunks < u64::MAX,
        found is Some ==> found->0.part_size >= 1,
    ensures
        r is Ok <==> file_size >= 1,
        r is Err ==> r->Err_0 == UploadError::EmptyFile,
        r is Ok ==> ({
            let v = r->Ok_0;
            let base = base_part_size(found, default_part_size);
            &&& v.plan == spec_plan(file_size, max_chunks, base)
            &&& v.plan.wf()
            &&& v.plan.part_count <= max_chunks
            &&& match found {
                None => v.action == SessionAction::CreateNew && v.known_parts@.len() == 0,
                Some(c) => {
                    &&& (v.plan.part_size == c.part_size) <==> !plan_recomputes(
                        file_size as int,
                        max_chunks as int,
                        c.part_size as int,
                    )
                    &&& v.plan.part_size == c.part_size ==> v.action == SessionAction::Resume
                        && v.known_parts == c.parts
                    &&& v.plan.part_size != c.part_size ==> v.action
                        == SessionAction::AbortAndCreate && v.known_parts@.len() == 0
                },
            }
        }),
{
    let base = match &found {
        Some(c) => c.part_size,
        None => default_part_size,
    };
    let p = match plan(file_size, max_chunks, base) {
        Ok(p) => p,
        Err(e) => {
            return Err(e);
        },
    };
    proof {
        if found is Some && plan_recomputes(
            file_size as int,
            max_chunks as int,
            base as int,
        ) {
            lemma_recompute_changes_size(file_size as int, max_chunks as int, base as int);
        }
    }
    match found {
        None => Ok(Reconciliation {
            plan: p,
            action: SessionAction::CreateNew,
            known_parts: Vec::new(),
        }),
        Some(c) => {
            if p.part_size == c.part_size {
                Ok(Reconciliation {
                    plan: p,
                    action: SessionAction::Resume,
                    known_parts: c.parts,
                })
            } else {
                Ok(Reconciliation {
                    plan: p,
                    action: SessionAction::AbortAndCreate,
                    known_parts: Vec::new(),
                })
            }
        },
    }
}

/// The parts a full reconciliation ends up allowed to skip, as a
/// function of the remote listing alone: the first session with parts
/// supplies them, unless the plan rebuild discards them; otherwise none.
pub open spec fn spec_known_parts(
    sessions: Seq<RemoteSession>,
    file_size: u64,
    max_chunks: u64,
) -> Seq<PartRecord> {
    match first_with_parts(sessions) {
        None => Seq::empty(),
        Some(i) => {
            let observed = sessions[i].parts@[0].size;
            if plan_recomputes(file_size as int, max_chunks as int, observed as int) {
                Seq::empty()
            } else {
                sessions[i].parts@
            }
        },
    }
}

/// Reconciling twice against the same untouched remote state yields the
/// same set of known parts: the verdict is a function of the listing and
/// the file alone, so a repeated run skips exactly the same parts.
pub proof fn lemma_reconcile_idempotent(
    first: Seq<RemoteSession>,
    second: Seq<RemoteSession>,
    file_size: u64,
    max_chunks: u64,
)
    requires
        first == second,
    ensures
        spec_known_parts(first, file_size, max_chunks) == spec_known_parts(
            second,
            file_size,
            max_chunks,
        ),
{
}

} // verus!
