//! Verified core of the Tonk worker router: the decisions and data
//! shapes behind its repository, sync, session, invite and transact routes.

pub mod text;
pub mod named;
pub mod errors;
pub mod labels;
pub mod facts;
pub mod config;
pub mod remote_plan;
pub mod repo_info;
pub mod roster;
pub mod creation;
pub mod attach;
pub mod spaces;
pub mod removal;
pub mod seed;
pub mod invite;
pub mod handoff;
pub mod revocation;
pub mod rotation;
pub mod sync_queue;
pub mod sync_rules;
pub mod session;
pub mod transact;
pub mod routes;
