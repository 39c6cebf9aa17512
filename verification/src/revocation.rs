//! Revoking an invitation and restoring backed-up spaces: which grant a
//! proved path revokes, when the access service's answer is accepted, and
//! which backed-up spaces are restored.

use vstd::prelude::*;
use crate::errors::TonkWorkerError;
use crate::text::str_eq;

verus! {

/// The grant a proved delegation path revokes: its leaf, the hop into the
/// invite's audience (the last of the path's proofs).
pub fn leaf_of(proofs: &Vec<String>) -> (r: Result<String, TonkWorkerError>)
    ensures
        proofs@.len() > 0 ==> r == Ok::<String, TonkWorkerError>(proofs@.last()),
        proofs@.len() == 0 ==> (r matches Err(TonkWorkerError::Internal(m)) && m@ == "a proved path has no leaf"@),
{
    if proofs.len() == 0 {
        Err(TonkWorkerError::Internal(String::from_str("a proved path has no leaf")))
    } else {
        Ok(proofs[proofs.len() - 1].clone())
    }
}

/// The access service's receipt is accepted only when it names the grant
/// that was revoked.
pub fn check_receipt(revoked: &str, target: &str) -> (r: Result<(), TonkWorkerError>)
    ensures
        revoked@ == target@ ==> r is Ok,
        revoked@ != target@ ==> (r matches Err(TonkWorkerError::Internal(m)) && m@
            == "the access service acknowledged a different grant"@),
{
    if str_eq(revoked, target) {
        Ok(())
    } else {
        Err(TonkWorkerError::Internal(String::from_str("the access service acknowledged a different grant")))
    }
}

/// The refusal when a space has no access service to revoke at.
pub fn revoke_refusal(repo: &str, detail: &str, code: &str) -> (e: TonkWorkerError)
    ensures
        e matches TonkWorkerError::Conflict(m) && m@ == "cannot revoke a grant on '"@ + repo@ + "': "@ + detail@ + " ("@
            + code@ + ")"@,
{
    let mut m = String::from_str("cannot revoke a grant on '");
    m.append(repo);
    m.append("': ");
    m.append(detail);
    m.append(" (");
    m.append(code);
    m.append(")");
    TonkWorkerError::Conflict(m)
}

/// What restoring one backed-up space does before fetching its backup.
#[derive(Clone, Debug)]
pub enum RestoreStart {
    /// The backup is ambiguous: skipped.
    SkipAmbiguous,
    /// The space is already replicated here: nothing to restore.
    AlreadyPresent,
    /// Fetch the backup stored under this key.
    Fetch(String),
}

/// An ambiguous backup is skipped; a backup with no selected key cannot be
/// fetched; a space already replicated on this device needs nothing.
pub fn restore_start(ambiguous: bool, key: Option<String>, already_replicated: bool) -> (r: Result<RestoreStart, TonkWorkerError>)
    ensures
        ambiguous ==> r matches Ok(RestoreStart::SkipAmbiguous),
        !ambiguous && key is None ==> (r matches Err(TonkWorkerError::Internal(m)) && m@
            == "account spot has no selected backup key"@),
        !ambiguous && key is Some && already_replicated ==> r matches Ok(RestoreStart::AlreadyPresent),
        !ambiguous && !already_replicated ==> (key matches Some(k) ==> r == Ok::<RestoreStart, TonkWorkerError>(
            RestoreStart::Fetch(k),
        )),
{
    if ambiguous {
        return Ok(RestoreStart::SkipAmbiguous);
    }
    match key {
        None => Err(TonkWorkerError::Internal(String::from_str("account spot has no selected backup key"))),
        Some(k) => if already_replicated {
            Ok(RestoreStart::AlreadyPresent)
        } else {
            Ok(RestoreStart::Fetch(k))
        },
    }
}

/// A fetched backup is restored only when its validated subject is the
/// one its inventory row names and it carries the remote to sync from;
/// the remote is what the replica is mounted with.
pub fn restore_remote(subject_matches: bool, remote_url: Option<String>) -> (r: Result<String, TonkWorkerError>)
    ensures
        !subject_matches ==> (r matches Err(TonkWorkerError::Internal(m)) && m@
            == "backup subject does not match its inventory row"@),
        subject_matches && remote_url is None ==> (r matches Err(TonkWorkerError::Internal(m)) && m@
            == "backup has no sync remote"@),
        subject_matches ==> (remote_url matches Some(u) ==> r == Ok::<String, TonkWorkerError>(u)),
{
    if !subject_matches {
        return Err(TonkWorkerError::Internal(String::from_str("backup subject does not match its inventory row")));
    }
    match remote_url {
        None => Err(TonkWorkerError::Internal(String::from_str("backup has no sync remote"))),
        Some(u) => Ok(u),
    }
}

} // verus!
