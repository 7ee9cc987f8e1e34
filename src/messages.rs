//! Requests that the web client sends and responses that the server returns.
use vstd::prelude::*;

use crate::wg_conf::WireGuardConf;

verus! {

#[derive(Clone, Debug, PartialEq, Eq)]
pub enum Request {
    Login { username: String, password: String },
    PeerDownload { index: usize },
    UpdatePeerName { index: usize, name: String },
    UpdateUser {
        name: String,
        old_password: String,
        new_password: String,
        password_confirmation: String,
    },
}

#[derive(Clone, Debug, PartialEq, Eq)]
pub enum Response {
    LoginSuccess { session: String },
    LoginFailure,
    Logout,
    WireGuardConf { config: WireGuardConf },
    Success,
    Failure,
}

} // verus!
