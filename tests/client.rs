use wg_manager::client::{update, Command, Effects, Model, Msg, Page};
use wg_manager::messages::Response;
use wg_manager::net::{Ipv4Addr, Ipv4Net};
use wg_manager::wg_conf::{Peer, WireGuardConf};

fn named_peer(name: &str) -> Peer {
    let mut p = Peer::new();
    p.name = name.to_string();
    p.allowed_ips = Ipv4Net { addr: Ipv4Addr::new(10, 200, 100, 2), prefix_len: 32 };
    p
}

#[test]
fn starts_on_login_page() {
    let m = Model::new();
    assert_eq!(m.current_page, Page::Login);
    assert_eq!(Page::default(), Page::Login);
    assert!(!m.loaded);
}

#[test]
fn login_sends_credentials_and_clears_password() {
    let mut m = Model::new();
    update(Msg::UsernameChanged("admin".to_string()), &mut m);
    update(Msg::PasswordChanged("secret".to_string()), &mut m);
    let fx = update(Msg::LoginRequest, &mut m);
    assert_eq!(
        fx,
        Effects {
            command: Some(Command::Login { username: "admin".to_string(), password: "secret".to_string() }),
            skip_render: false
        }
    );
    assert_eq!(m.password, "");
    assert_eq!(m.username, "admin");
    assert!(!m.loaded);
}

#[test]
fn login_success_loads_config() {
    let mut m = Model::new();
    let fx = update(Msg::Fetched(Some(Response::LoginSuccess { session: "admin".to_string() })), &mut m);
    assert_eq!(fx.command, Some(Command::LoadConfig));
    assert_eq!(m.session, "admin");
    assert_eq!(m.last_response, Some(Response::Success));
    assert!(m.loaded);
}

#[test]
fn config_response_shows_config_page() {
    let mut m = Model::new();
    let mut conf = WireGuardConf::new();
    conf.peers.push(named_peer("office"));
    update(Msg::Fetched(Some(Response::WireGuardConf { config: conf.clone() })), &mut m);
    assert_eq!(m.wireguard_config, conf);
    assert_eq!(m.current_page, Page::WGCong);
}

#[test]
fn rename_updates_local_copy_and_sends_request() {
    let mut m = Model::new();
    m.wireguard_config.peers.push(named_peer("office"));
    let fx = update(Msg::UpdatePeerName(0, "home".to_string()), &mut m);
    assert_eq!(m.wireguard_config.peers[0].name, "home");
    assert_eq!(fx.command, Some(Command::UpdatePeerName(0, "home".to_string())));
    let fx = update(Msg::UpdatePeerName(5, "x".to_string()), &mut m);
    assert_eq!(m.wireguard_config.peers.len(), 1);
    assert_eq!(fx.command, Some(Command::UpdatePeerName(5, "x".to_string())));
}

#[test]
fn peer_changes_skip_render() {
    let mut m = Model::new();
    let before = m.clone();
    assert_eq!(update(Msg::NewPeer, &mut m), Effects { command: Some(Command::NewPeer), skip_render: true });
    assert_eq!(
        update(Msg::RemovePeer(2), &mut m),
        Effects { command: Some(Command::RemovePeer(2)), skip_render: true }
    );
    assert_eq!(update(Msg::Fetched(None), &mut m), Effects { command: None, skip_render: true });
    assert_eq!(m, before);
}

#[test]
fn update_user_sends_and_clears_passwords() {
    let mut m = Model::new();
    update(Msg::UsernameChanged("admin".to_string()), &mut m);
    update(Msg::OldPasswordChanged("old".to_string()), &mut m);
    update(Msg::PasswordChanged("new".to_string()), &mut m);
    update(Msg::ConfirmationChanged("new".to_string()), &mut m);
    let fx = update(Msg::UpdateUser, &mut m);
    assert_eq!(
        fx.command,
        Some(Command::UpdateUser {
            name: "admin".to_string(),
            old_password: "old".to_string(),
            new_password: "new".to_string(),
            password_confirmation: "new".to_string(),
        })
    );
    assert!(m.old_password.is_empty() && m.password.is_empty() && m.password_confirmation.is_empty());
}

#[test]
fn success_returns_to_config_page_and_logout_to_login() {
    let mut m = Model::new();
    let fx = update(Msg::Fetched(Some(Response::Success)), &mut m);
    assert_eq!(fx.command, Some(Command::ShowPage(Page::WGCong)));
    update(Msg::ShowPage(Page::EditUser), &mut m);
    assert_eq!(m.current_page, Page::EditUser);
    m.session = "admin".to_string();
    let fx = update(Msg::LogoutRequest, &mut m);
    assert_eq!(fx.command, Some(Command::Logout));
    update(Msg::Fetched(Some(Response::Logout)), &mut m);
    assert_eq!(m.session, "");
    assert_eq!(m.current_page, Page::Login);
    update(Msg::Fetched(Some(Response::LoginFailure)), &mut m);
    assert_eq!(m.last_response, Some(Response::Failure));
    update(Msg::Fetched(Some(Response::Failure)), &mut m);
    assert_eq!(m.last_response, Some(Response::Failure));
    let before = m.clone();
    update(Msg::NoAction, &mut m);
    assert_eq!(m, before);
}
