//! The web client's state and its reaction to each message: what it
//! changes in its state, and which request, if any, it asks the browser to
//! send. The browser side sends the request and hands the response back as
//! a `Msg::Fetched`.
use vstd::prelude::*;

use crate::messages::Response;
use crate::wg_conf::{ConfView, Peer, PeerView, WireGuardConf};

verus! {

#[derive(Clone, Copy, Debug, PartialEq, Eq, Structural)]
pub enum Page {
    EditUser,
    Login,
    WGCong,
}

impl Default for Page {
    fn default() -> (r: Page)
        ensures
            r == Page::Login,
    {
        Page::Login
    }
}

#[derive(Clone, Debug, PartialEq, Eq)]
pub struct Model {
    pub last_response: Option<Response>,
    pub session: String,
    pub username: String,
    pub password: String,
    pub wireguard_config: WireGuardConf,
    pub loaded: bool,
    pub current_page: Page,
    pub old_password: String,
    pub password_confirmation: String,
}

#[derive(Clone, Debug, PartialEq, Eq)]
pub enum Msg {
    NoAction,
    LoginRequest,
    LogoutRequest,
    NewPeer,
    UpdatePeerName(usize, String),
    RemovePeer(usize),
    ShowPage(Page),
    OldPasswordChanged(String),
    PasswordChanged(String),
    UsernameChanged(String),
    ConfirmationChanged(String),
    UpdateUser,
    /// The response to a request, or `None` when the request failed.
    Fetched(Option<Response>),
}

/// A request for the browser side to send; `ShowPage` comes back as a message.
#[derive(Clone, Debug, PartialEq, Eq)]
pub enum Command {
    Login { username: String, password: String },
    Logout,
    LoadConfig,
    NewPeer,
    RemovePeer(usize),
    UpdatePeerName(usize, String),
    UpdateUser {
        name: String,
        old_password: String,
        new_password: String,
        password_confirmation: String,
    },
    ShowPage(Page),
}

/// What a message asks of the browser side besides the new state.
#[derive(Clone, Debug, PartialEq, Eq)]
pub struct Effects {
    pub command: Option<Command>,
    pub skip_render: bool,
}

pub open spec fn renders(c: Option<Command>) -> Effects {
    Effects { command: c, skip_render: false }
}

pub open spec fn skips(c: Option<Command>) -> Effects {
    Effects { command: c, skip_render: true }
}

/// The peers with the one at `index` renamed; unchanged when there is none.
pub open spec fn renamed(c: ConfView, index: int, name: Seq<char>) -> ConfView {
    if 0 <= index < c.peers.len() {
        ConfView {
            interface: c.interface,
            peers: c.peers.update(index, PeerView { name, ..c.peers[index] }),
        }
    } else {
        c
    }
}

/// How the state `m` becomes `n` on a response, with effects `fx`.
pub open spec fn on_response(m: Model, r: Response, n: Model, fx: Effects) -> bool {
    match r {
        Response::LoginSuccess { session } => n == (Model {
            last_response: Some(Response::Success),
            loaded: true,
            session,
            ..m
        }) && fx == renders(Some(Command::LoadConfig)),
        Response::LoginFailure => n == (Model {
            last_response: Some(Response::Failure),
            loaded: true,
            ..m
        }) && fx == renders(None),
        Response::WireGuardConf { config } => n == (Model {
            wireguard_config: config,
            current_page: Page::WGCong,
            loaded: true,
            ..m
        }) && fx == renders(None),
        Response::Logout => n == (Model {
            loaded: true,
            session: n.session,
            current_page: Page::Login,
            ..m
        }) && n.session@.len() == 0 && fx == renders(None),
        Response::Failure => n == (Model {
            last_response: Some(Response::Failure),
            loaded: true,
            ..m
        }) && fx == renders(None),
        Response::Success => n == (Model {
            last_response: Some(Response::Success),
            loaded: true,
            ..m
        }) && fx == renders(Some(Command::ShowPage(Page::WGCong))),
    }
}

/// How the state `m` becomes `n` on message `msg`, with effects `fx`.
pub open spec fn stepped(m: Model, msg: Msg, n: Model, fx: Effects) -> bool {
    match msg {
        Msg::NoAction => n == m && fx == renders(None),
        Msg::ShowPage(page) => n == (Model { current_page: page, ..m }) && fx == renders(None),
        Msg::UpdatePeerName(i, name) => n == (Model {
            wireguard_config: n.wireguard_config,
            ..m
        }) && n.wireguard_config@ == renamed(m.wireguard_config@, i as int, name@) && fx
            == renders(Some(Command::UpdatePeerName(i, name))),
        Msg::UsernameChanged(s) => n == (Model { username: s, ..m }) && fx == renders(None),
        Msg::PasswordChanged(s) => n == (Model { password: s, ..m }) && fx == renders(None),
        Msg::OldPasswordChanged(s) => n == (Model { old_password: s, ..m }) && fx == renders(
            None,
        ),
        Msg::ConfirmationChanged(s) => n == (Model { password_confirmation: s, ..m }) && fx
            == renders(None),
        Msg::LoginRequest => n == (Model { loaded: false, password: n.password, ..m })
            && n.password@.len() == 0 && fx == renders(
            Some(Command::Login { username: m.username, password: m.password }),
        ),
        Msg::LogoutRequest => n == (Model { loaded: false, username: n.username, ..m })
            && n.username@.len() == 0 && fx == renders(Some(Command::Logout)),
        Msg::NewPeer => n == m && fx == skips(Some(Command::NewPeer)),
        Msg::RemovePeer(i) => n == m && fx == skips(Some(Command::RemovePeer(i))),
        Msg::UpdateUser => n == (Model {
            loaded: false,
            old_password: n.old_password,
            password: n.password,
            password_confirmation: n.password_confirmation,
            ..m
        }) && n.old_password@.len() == 0 && n.password@.len() == 0
            && n.password_confirmation@.len() == 0 && fx == renders(
            Some(
                Command::UpdateUser {
                    name: m.username,
                    old_password: m.old_password,
                    new_password: m.password,
                    password_confirmation: m.password_confirmation,
                },
            ),
        ),
        Msg::Fetched(Some(r)) => on_response(m, r, n, fx),
        Msg::Fetched(None) => n == m && fx == skips(None),
    }
}

impl Model {
    /// The state before anything happened: on the login page, nothing loaded.
    pub fn new() -> (r: Model)
        ensures
            r.current_page == Page::Login,
            !r.loaded,
            r.last_response is None,
            r.wireguard_config@ == crate::wg_conf::empty_conf(),
            r.session@.len() == 0 && r.username@.len() == 0 && r.password@.len() == 0,
            r.old_password@.len() == 0 && r.password_confirmation@.len() == 0,
    {
        Model {
            last_response: None,
            session: String::new(),
            username: String::new(),
            password: String::new(),
            wireguard_config: WireGuardConf::new(),
            loaded: false,
            current_page: Page::Login,
            old_password: String::new(),
            password_confirmation: String::new(),
        }
    }
}

fn on_fetched(r: Response, model: &mut Model) -> (fx: Effects)
    ensures
        on_response(*old(model), r, *final(model), fx),
{
    match r {
        Response::LoginSuccess { session } => {
            model.last_response = Some(Response::Success);
            model.loaded = true;
            model.session = session;
            Effects { command: Some(Command::LoadConfig), skip_render: false }
        },
        Response::LoginFailure => {
            model.last_response = Some(Response::Failure);
            model.loaded = true;
            Effects { command: None, skip_render: false }
        },
        Response::WireGuardConf { config } => {
            model.wireguard_config = config;
            model.current_page = Page::WGCong;
            model.loaded = true;
            Effects { command: None, skip_render: false }
        },
        Response::Logout => {
            model.loaded = true;
            model.session = String::new();
            model.current_page = Page::Login;
            Effects { command: None, skip_render: false }
        },
        Response::Failure => {
            model.last_response = Some(Response::Failure);
            model.loaded = true;
            Effects { command: None, skip_render: false }
        },
        Response::Success => {
            model.last_response = Some(Response::Success);
            model.loaded = true;
            Effects { command: Some(Command::ShowPage(Page::WGCong)), skip_render: false }
        },
    }
}

/// Renames the peer at `index` in the client's copy of the configuration.
fn rename_local(conf: &mut WireGuardConf, index: usize, name: String)
    ensures
        final(conf)@ == renamed(old(conf)@, index as int, name@),
        final(conf).interface == old(conf).interface,
{
    if index < conf.peers.len() {
        let p = &conf.peers[index];
        let q = Peer {
            public_key: p.public_key.clone(),
            private_key: p.private_key.clone(),
            endpoint: p.endpoint,
            allowed_ips: p.allowed_ips,
            name,
        };
        let ghost before = conf.peers@;
        assert(crate::wg_conf::peer_views(before)[index as int] == p@);
        conf.peers.set(index, q);
        assert(crate::wg_conf::peer_views(conf.peers@) =~= crate::wg_conf::peer_views(
            before,
        ).update(index as int, q@));
    }
}

/// The client's reaction to a message.
pub fn update(msg: Msg, model: &mut Model) -> (fx: Effects)
    ensures
        stepped(*old(model), msg, *final(model), fx),
{
    match msg {
        Msg::NoAction => Effects { command: None, skip_render: false },
        Msg::ShowPage(page) => {
            model.current_page = page;
            Effects { command: None, skip_render: false }
        },
        Msg::UpdatePeerName(i, name) => {
            rename_local(&mut model.wireguard_config, i, name.clone());
            Effects { command: Some(Command::UpdatePeerName(i, name)), skip_render: false }
        },
        Msg::UsernameChanged(s) => {
            model.username = s;
            Effects { command: None, skip_render: false }
        },
        Msg::PasswordChanged(s) => {
            model.password = s;
            Effects { command: None, skip_render: false }
        },
        Msg::OldPasswordChanged(s) => {
            model.old_password = s;
            Effects { command: None, skip_render: false }
        },
        Msg::ConfirmationChanged(s) => {
            model.password_confirmation = s;
            Effects { command: None, skip_render: false }
        },
        Msg::LoginRequest => {
            model.loaded = false;
            let username = model.username.clone();
            let password = model.password.clone();
            model.password = String::new();
            Effects { command: Some(Command::Login { username, password }), skip_render: false }
        },
        Msg::LogoutRequest => {
            model.loaded = false;
            model.username = String::new();
            Effects { command: Some(Command::Logout), skip_render: false }
        },
        Msg::NewPeer => Effects { command: Some(Command::NewPeer), skip_render: true },
        Msg::RemovePeer(index) => Effects {
            command: Some(Command::RemovePeer(index)),
            skip_render: true,
        },
        Msg::UpdateUser => {
            let name = model.username.clone();
            let old_password = model.old_password.clone();
            let new_password = model.password.clone();
            let password_confirmation = model.password_confirmation.clone();
            model.loaded = false;
            model.old_password = String::new();
            model.password = String::new();
            model.password_confirmation = String::new();
            Effects {
                command: Some(
                    Command::UpdateUser { name, old_password, new_password, password_confirmation },
                ),
                skip_render: false,
            }
        },
        Msg::Fetched(Some(r)) => on_fetched(r, model),
        Msg::Fetched(None) => Effects { command: None, skip_render: true },
    }
}

} // verus!
