//! Handing a space to an agent: the status the handoff control shows at
//! each step, and which account the prompt is scoped to.

use vstd::prelude::*;
use crate::text::str_eq;

verus! {

/// What the handoff control shows: a status line, the link to copy (empty
/// until one is ready), and the account the handoff is scoped to.
#[derive(Clone, Debug)]
pub struct HandoffState {
    pub status: String,
    pub link: String,
    pub account: String,
}

/// The status shown to a profile with no account.
pub open spec fn no_account_status() -> Seq<char> {
    "Create an account or sign in to connect an agent. Open share and choose ‘log in to share’ to get started, then return here to copy your prompt."@
}

/// Without an account there is nothing to scope a handoff to: the
/// control asks for one, on the profile's own identity.
pub fn handoff_without_account(profile: String) -> (s: HandoffState)
    ensures
        s.status@ == no_account_status(),
        s.link@.len() == 0,
        s.account == profile,
{
    HandoffState {
        status: String::from_str(
            "Create an account or sign in to connect an agent. Open share and choose ‘log in to share’ to get started, then return here to copy your prompt.",
        ),
        link: String::new(),
        account: profile,
    }
}

/// While the handoff is minted, the control says so.
pub fn handoff_pending(profile: String) -> (s: HandoffState)
    ensures
        s.status@ == "Generating account-scoped handoff…"@,
        s.link@.len() == 0,
        s.account == profile,
{
    HandoffState { status: String::from_str("Generating account-scoped handoff…"), link: String::new(), account: profile }
}

/// The origin a handoff link is rooted on: the worker's own, else the
/// public deployment.
pub fn handoff_origin(worker_origin: Option<String>) -> (r: String)
    ensures
        match worker_origin {
            Some(o) => r == o,
            None => r@ == "https://tonk.network"@,
        },
{
    match worker_origin {
        Some(o) => o,
        None => String::from_str("https://tonk.network"),
    }
}

/// A minted handoff: its link and the account root it was scoped to.
#[derive(Clone, Debug)]
pub struct MintedHandoff {
    pub url: String,
    pub root: String,
    pub root_bytes: Vec<u8>,
}

/// How a mint settles: a failure is reported on the profile's identity; a
/// mint whose account root changed while it ran is stale and asks for a
/// new one on the current root; otherwise the link is ready, scoped to the
/// root it was minted for.
pub fn handoff_result(
    minted: Result<MintedHandoff, String>,
    current_root: String,
    current_bytes: &Vec<u8>,
    profile: String,
) -> (s: HandoffState)
    ensures
        match minted {
            Err(e) => s.status@ == "Could not create an agent handoff: "@ + e@ && s.link@.len() == 0 && s.account == profile,
            Ok(m) => if m.root@ != current_root@ || m.root_bytes@ != current_bytes@ {
                s.status@ == "Account changed; generate a new handoff."@ && s.link@.len() == 0 && s.account == current_root
            } else {
                s.status@ == "ready"@ && s.link == m.url && s.account == m.root
            },
        },
{
    match minted {
        Err(e) => {
            let mut status = String::from_str("Could not create an agent handoff: ");
            status.append(e.as_str());
            HandoffState { status, link: String::new(), account: profile }
        },
        Ok(m) => {
            let mut same_bytes = m.root_bytes.len() == current_bytes.len();
            if same_bytes {
                let mut i: usize = 0;
                while i < current_bytes.len()
                    invariant
                        m.root_bytes@.len() == current_bytes@.len(),
                        i <= current_bytes@.len(),
                        same_bytes == forall|k: int| 0 <= k < i ==> m.root_bytes@[k] == current_bytes@[k],
                    decreases current_bytes@.len() - i,
                {
                    if m.root_bytes[i] != current_bytes[i] {
                        same_bytes = false;
                    }
                    i = i + 1;
                }
                proof {
                    if same_bytes {
                        assert(m.root_bytes@ =~= current_bytes@);
                    }
                }
            }
            if !str_eq(m.root.as_str(), current_root.as_str()) || !same_bytes {
                HandoffState {
                    status: String::from_str("Account changed; generate a new handoff."),
                    link: String::new(),
                    account: current_root,
                }
            } else {
                HandoffState { status: String::from_str("ready"), link: m.url, account: m.root }
            }
        },
    }
}

} // verus!
