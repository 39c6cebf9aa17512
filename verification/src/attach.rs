//! Turning on sync for a space: which endpoint it attaches to, when an
//! attach is refused rather than attempted, and the label a space is
//! known by while the untitled sequence is counted.

use vstd::prelude::*;
use crate::config::{RepositoryConfiguration, space_config, wired_to};
use crate::errors::RepositoryError;
use crate::facts::EnableSyncArguments;
use crate::text::{trim, trimmed, str_eq};

verus! {

/// The endpoint an enable-sync attaches: the one the command named, else
/// wherever the account syncs; `None` when neither names one (nothing is
/// attached).
pub fn enable_sync_remote(requested: Option<String>, account_remote: Option<String>) -> (r: Option<String>)
    ensures
        r == (match requested {
            Some(x) => Some(x),
            None => account_remote,
        }),
{
    match requested {
        Some(x) => Some(x),
        None => account_remote,
    }
}

/// What an enable-sync command sets out to do: nothing, or attach
/// `remote` to the space stored under `key`, minting an invite afterwards
/// when `share` asks for one. No path creates a space.
#[derive(Clone, Debug)]
pub enum EnableSyncStart {
    /// The command is dropped: no space named, no endpoint, a target that
    /// is not a DID, an origin that may not target it, or not a user space.
    Skip,
    /// Attach the endpoint to the existing space.
    Attach { key: String, remote: String, share: bool },
}

/// The start of an enable-sync command from its arguments and what the
/// worker knows: the account's sync endpoint, the routing key of the
/// named space (`None` when the name is not a DID), whether the command's
/// origin may target that space, and whether it is a user space.
pub fn enable_sync_start(
    args: EnableSyncArguments,
    account_remote: Option<String>,
    key: Option<String>,
    may_target: bool,
    real_space: bool,
) -> (r: EnableSyncStart)
    ensures
        (r is Skip) <==> (args.space is None || (args.remote is None && account_remote is None) || key is None
            || !may_target || !real_space),
        r matches EnableSyncStart::Attach { key: k, remote: e, share } ==> {
            &&& Some(k) == key
            &&& Some(e) == (match args.remote {
                Some(x) => Some(x),
                None => account_remote,
            })
            &&& share == args.share
        },
{
    if args.space.is_none() {
        return EnableSyncStart::Skip;
    }
    match enable_sync_remote(args.remote, account_remote) {
        None => EnableSyncStart::Skip,
        Some(remote) => match key {
            None => EnableSyncStart::Skip,
            Some(k) => {
                if may_target && real_space {
                    EnableSyncStart::Attach { key: k, remote, share: args.share }
                } else {
                    EnableSyncStart::Skip
                }
            },
        },
    }
}

/// What follows the attach of an enable-sync command.
#[derive(Clone, Debug)]
pub enum EnableSyncFinish {
    /// Nothing more.
    Nothing,
    /// Report the failed attach to the share control, as `reason`, with
    /// `detail`.
    ReportBlocked { reason: String, detail: String },
    /// Mint the invite.
    Mint,
}

/// After the attach: a successful one mints exactly when the command asked
/// to share; a failed one is reported to the share control only when it
/// asked to share and the space names an entity; no path creates a space.
pub fn enable_sync_finish(share: bool, attached: Result<(), String>, space_is_entity: bool) -> (r: EnableSyncFinish)
    ensures
        (r is Mint) <==> (share && attached is Ok),
        attached is Ok && !share ==> r is Nothing,
        attached matches Err(e) ==> if share && space_is_entity {
            r matches EnableSyncFinish::ReportBlocked { reason, detail } && reason@ == "attach-failed"@ && detail@
                == "Could not turn on sync: "@ + e@
        } else {
            r is Nothing
        },
{
    match attached {
        Ok(()) => if share {
            EnableSyncFinish::Mint
        } else {
            EnableSyncFinish::Nothing
        },
        Err(e) => {
            if share && space_is_entity {
                EnableSyncFinish::ReportBlocked {
                    reason: String::from_str("attach-failed"),
                    detail: attach_failed_detail(e.as_str()),
                }
            } else {
                EnableSyncFinish::Nothing
            }
        },
    }
}

/// The configuration an enable-sync wires: nothing for a blank endpoint,
/// else `origin` at the trimmed endpoint with `main` tracking
/// `origin/main`.
pub fn attach_configuration(remote: &str) -> (r: Option<RepositoryConfiguration>)
    ensures
        trimmed(remote@).len() == 0 <==> r is None,
        r matches Some(c) ==> c.wf() && wired_to(c, trimmed(remote@)),
{
    let t = trim(remote);
    if t.unicode_len() == 0 {
        return None;
    }
    match space_config(remote) {
        Ok(c) => Some(c),
        Err(_) => None,
    }
}

/// Whether provisioning's refusal fails the attach: only a definite,
/// non-retryable refusal by this deployment's own service does, since
/// attaching anyway would wire the space to an upstream that refuses every
/// request. The error names the space and the service's answer.
pub fn provisioning_refusal(key: &str, own_service: bool, retryable: bool, error: &str) -> (r: Option<RepositoryError>)
    ensures
        !(own_service && !retryable) ==> r is None,
        own_service && !retryable ==> (r matches Some(RepositoryError::Internal(m)) && m@ == "enable sync '"@ + key@
            + "': the service refused to provision this space, and attaching its own remote anyway would wire the space to an upstream that refuses every request: "@
            + error@),
{
    if own_service && !retryable {
        let mut m = String::from_str("enable sync '");
        m.append(key);
        m.append(
            "': the service refused to provision this space, and attaching its own remote anyway would wire the space to an upstream that refuses every request: ",
        );
        m.append(error);
        Some(RepositoryError::Internal(m))
    } else {
        None
    }
}

/// The account sweep attaches its remote only to a space whose meta names
/// no remote at all: a foreign or partly configured remote is left alone.
pub fn attaches_account_remote(has_any_remote: bool) -> (b: bool)
    ensures
        b == !has_any_remote,
{
    !has_any_remote
}

/// The detail a share reports when the attach it needed failed.
pub fn attach_failed_detail(error: &str) -> (d: String)
    ensures
        d@ == "Could not turn on sync: "@ + error@,
{
    let mut d = String::from_str("Could not turn on sync: ");
    d.append(error);
    d
}

/// The label a space is known by: its own recorded name, else its
/// routing key.
pub fn space_label(display_name: Option<String>, key: &str) -> (r: String)
    ensures
        match display_name {
            Some(n) => r == n,
            None => r@ == key@,
        },
{
    match display_name {
        Some(n) => n,
        None => String::from_str(key),
    }
}

/// Of the profile's replica rows (kind, label), the labels of the user
/// spaces: the rows whose kind is the repository kind, in order.
pub fn space_labels(rows: &Vec<(String, String)>, repository_kind: &str) -> (r: Vec<String>)
    ensures
        r@ == rows@.filter(|x: (String, String)| x.0@ == repository_kind@).map_values(|x: (String, String)| x.1),
{
    let mut out: Vec<String> = Vec::new();
    let mut i: usize = 0;
    while i < rows.len()
        invariant
            i <= rows@.len(),
            out@ == rows@.subrange(0, i as int).filter(|x: (String, String)| x.0@ == repository_kind@).map_values(
                |x: (String, String)| x.1,
            ),
        decreases rows@.len() - i,
    {
        proof {
            let pre = rows@.subrange(0, i + 1);
            assert(pre.drop_last() =~= rows@.subrange(0, i as int));
            reveal(Seq::filter);
        }
        if str_eq(rows[i].0.as_str(), repository_kind) {
            let ghost before = out@;
            out.push(rows[i].1.clone());
            proof {
                let f = rows@.subrange(0, i + 1).filter(|x: (String, String)| x.0@ == repository_kind@);
                let g = rows@.subrange(0, i as int).filter(|x: (String, String)| x.0@ == repository_kind@);
                assert(f =~= g.push(rows@[i as int]));
                assert(out@ =~= f.map_values(|x: (String, String)| x.1));
            }
        } else {
            proof {
                let f = rows@.subrange(0, i + 1).filter(|x: (String, String)| x.0@ == repository_kind@);
                let g = rows@.subrange(0, i as int).filter(|x: (String, String)| x.0@ == repository_kind@);
                assert(f =~= g);
            }
        }
        i = i + 1;
    }
    assert(rows@.subrange(0, rows@.len() as int) =~= rows@);
    out
}

} // verus!
