//! Removing a space from this account: who may ask, which replicas are
//! eligible, which recorded facts are retracted, and whether the local
//! storage is deleted with it.

use vstd::prelude::*;
use crate::errors::TonkWorkerError;
use crate::labels::views;
use crate::text::{chars_of, has_prefix, starts_with, str_eq};

verus! {

/// Only the profile branch (an empty origin repository) may remove a
/// space; the same command asserted on a content branch is ignored.
pub fn remove_space_allowed(origin_repo: &str) -> (b: bool)
    ensures
        b == (origin_repo@.len() == 0),
{
    origin_repo.unicode_len() == 0
}

/// A replica is a user space only when one of its recorded kinds is the
/// repository kind; system replicas (the profile, the account) are
/// refused every user-space control.
pub fn require_real_space(kinds: &Vec<String>, repository_kind: &str) -> (r: Result<(), TonkWorkerError>)
    ensures
        (exists|k: int| 0 <= k < kinds@.len() && (#[trigger] kinds@[k])@ == repository_kind@) ==> r is Ok,
        !(exists|k: int| 0 <= k < kinds@.len() && (#[trigger] kinds@[k])@ == repository_kind@) ==> (r matches Err(
            TonkWorkerError::Forbidden(m),
        ) && m@ == "system replicas are ineligible for user-space controls"@),
{
    let mut i: usize = 0;
    while i < kinds.len()
        invariant
            i <= kinds@.len(),
            forall|k: int| 0 <= k < i ==> (#[trigger] kinds@[k])@ != repository_kind@,
        decreases kinds@.len() - i,
    {
        if str_eq(kinds[i].as_str(), repository_kind) {
            return Ok(());
        }
        i = i + 1;
    }
    Err(TonkWorkerError::Forbidden(String::from_str("system replicas are ineligible for user-space controls")))
}

/// Whether a removal is refused: the replica is not a user space and is
/// still recorded.
pub open spec fn refuses_removal(real_space: bool, still_recorded: bool) -> bool {
    !real_space && still_recorded
}

/// A removal is refused only for a replica that is not a user space and
/// is still recorded; a stale record that is already gone removes
/// cleanly.
pub fn removal_refused(real_space: bool, still_recorded: bool) -> (b: bool)
    ensures
        b == refuses_removal(real_space, still_recorded),
{
    !real_space && still_recorded
}

/// The replica entities a removal sweeps: every device's replica row for
/// the subject (removal is account-wide), plus this device's own derived
/// entity when no row carries it, for stray stamps it may still hold.
pub fn entities_to_sweep(rows: &Vec<String>, own: &str) -> (r: Vec<String>)
    ensures
        (exists|k: int| 0 <= k < rows@.len() && (#[trigger] rows@[k])@ == own@) ==> views(r@) == views(rows@),
        !(exists|k: int| 0 <= k < rows@.len() && (#[trigger] rows@[k])@ == own@) ==> views(r@) == views(rows@).push(own@),
{
    let mut r: Vec<String> = rows.clone();
    let mut present = false;
    let mut i: usize = 0;
    while i < rows.len()
        invariant
            i <= rows@.len(),
            present == exists|k: int| 0 <= k < i && (#[trigger] rows@[k])@ == own@,
        decreases rows@.len() - i,
    {
        if str_eq(rows[i].as_str(), own) {
            present = true;
        }
        i = i + 1;
    }
    assert(r@ == rows@);
    if !present {
        r.push(String::from_str(own));
        proof {
            assert(views(r@) =~= views(rows@).push(own@));
        }
    }
    r
}

/// A recorded claim: its attribute, the entity it is on, and its value.
#[derive(Clone, Debug)]
pub struct RecordedClaim {
    pub attribute: String,
    pub entity: String,
    pub value: String,
}

/// The namespace of the account-level directory entry for a space.
pub open spec fn space_namespace() -> Seq<char> {
    "xyz.tonk.space/"@
}

/// Whether a claim belongs to the directory entry: its attribute is in the
/// directory namespace.
pub open spec fn directory_claim() -> spec_fn(RecordedClaim) -> bool {
    |c: RecordedClaim| has_prefix(c.attribute@, space_namespace())
}

/// The claims a removal retracts: every claim on a swept replica entity,
/// then, of the claims on the space's own entity, those in the directory
/// namespace (other facts may key on that entity too).
pub open spec fn retracted_claims(replica: Seq<RecordedClaim>, directory: Seq<RecordedClaim>) -> Seq<RecordedClaim> {
    replica + directory.filter(directory_claim())
}

/// The claims on the space's own entity that a removal leaves standing.
pub open spec fn left_standing(directory: Seq<RecordedClaim>) -> Seq<RecordedClaim> {
    directory.filter(|c: RecordedClaim| !directory_claim()(c))
}

proof fn lemma_nothing_left_to_retract(directory: Seq<RecordedClaim>)
    ensures
        left_standing(directory).filter(directory_claim()) == Seq::<RecordedClaim>::empty(),
    decreases directory.len(),
{
    reveal(Seq::filter);
    if directory.len() > 0 {
        lemma_nothing_left_to_retract(directory.drop_last());
        let rest = directory.drop_last();
        if !directory_claim()(directory.last()) {
            left_standing(rest).lemma_filter_push(directory.last(), directory_claim());
        }
    }
}

/// Removing a space twice is the same as removing it once: after the first
/// removal retracted every replica claim and the directory entry, the
/// second finds nothing to retract (so commits nothing), and as the
/// replica is no longer recorded it is not refused either.
pub proof fn law_repeated_removal_is_a_no_op(directory: Seq<RecordedClaim>, real_space: bool)
    ensures
        retracted_claims(Seq::empty(), left_standing(directory)) == Seq::<RecordedClaim>::empty(),
        !refuses_removal(real_space, false),
{
    lemma_nothing_left_to_retract(directory);
    assert(retracted_claims(Seq::empty(), left_standing(directory)) =~= Seq::<RecordedClaim>::empty());
}

/// The retractions of a removal, and whether anything was recorded at all
/// (when nothing was, the desired end state already holds and nothing is
/// committed).
pub fn removal_retractions(replica: Vec<RecordedClaim>, directory: &Vec<RecordedClaim>) -> (r: (Vec<RecordedClaim>, bool))
    ensures
        r.0@ == retracted_claims(replica@, directory@),
        r.1 == (r.0@.len() > 0),
{
    let prefix = chars_of("xyz.tonk.space/");
    proof {
        reveal_strlit("xyz.tonk.space/");
    }
    let mut out = replica;
    let ghost base = out@;
    let mut i: usize = 0;
    while i < directory.len()
        invariant
            i <= directory@.len(),
            prefix@ == space_namespace(),
            out@ == base + directory@.subrange(0, i as int).filter(directory_claim()),
        decreases directory@.len() - i,
    {
        proof {
            let pre = directory@.subrange(0, i + 1);
            assert(pre.drop_last() =~= directory@.subrange(0, i as int));
            reveal(Seq::filter);
        }
        let c = &directory[i];
        let a = chars_of(c.attribute.as_str());
        if starts_with(&a, &prefix) {
            out.push(RecordedClaim { attribute: c.attribute.clone(), entity: c.entity.clone(), value: c.value.clone() });
            proof {
                assert(out@ =~= base + directory@.subrange(0, i + 1).filter(directory_claim()));
            }
        }
        i = i + 1;
    }
    assert(directory@.subrange(0, directory@.len() as int) =~= directory@);
    let found = out.len() > 0;
    (out, found)
}

/// A space's storage is shared by every profile on this browser that
/// replicates it, so it is deleted only when this is the only profile;
/// an unreadable profile roster keeps it too (sharing cannot be ruled
/// out). Keeping leaks bytes; deleting could lose another profile's data.
pub fn keeps_storage(profiles: Option<usize>) -> (b: bool)
    ensures
        b == (match profiles {
            Some(n) => n > 1,
            None => true,
        }),
{
    match profiles {
        Some(n) => n > 1,
        None => true,
    }
}

} // verus!
