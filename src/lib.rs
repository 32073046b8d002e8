//! Decision logic of an SMS-to-chat notification relay: authentication and
//! classification of device requests, device liveness, notification
//! rendering and operator command dispatch.
use vstd::prelude::*;

pub mod auth;
pub mod command;
pub mod format;
pub mod liveness;
pub mod text;

verus! {

} // verus!
