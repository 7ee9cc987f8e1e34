use wg_manager::accounts::{get_user_by_name, password_change_complete, User};
use wg_manager::discovery::{default_device, wireguard_interface_name};
use wg_manager::helper::HelperCommand;

fn args(v: &[&str]) -> Vec<String> {
    v.iter().map(|s| s.to_string()).collect()
}

#[test]
fn helper_reads_commands() {
    assert_eq!(HelperCommand::from_args(&args(&["helper", "show"])), Some(HelperCommand::Show));
    assert_eq!(
        HelperCommand::from_args(&args(&["helper", "showconf", "wg0"])),
        Some(HelperCommand::ShowConf { iface: "wg0".to_string() })
    );
    assert_eq!(
        HelperCommand::from_args(&args(&["helper", "add", "wg0", "/tmp/p"])),
        Some(HelperCommand::Add { iface: "wg0".to_string(), path: "/tmp/p".to_string() })
    );
    assert_eq!(
        HelperCommand::from_args(&args(&["helper", "remove", "wg0", "PK="])),
        Some(HelperCommand::Remove { iface: "wg0".to_string(), public_key: "PK=".to_string() })
    );
}

#[test]
fn helper_rejects_incomplete_commands() {
    assert_eq!(HelperCommand::from_args(&args(&["helper"])), None);
    assert_eq!(HelperCommand::from_args(&args(&["helper", "showconf"])), None);
    assert_eq!(HelperCommand::from_args(&args(&["helper", "add", "wg0"])), None);
    assert_eq!(HelperCommand::from_args(&args(&["helper", "reboot", "now"])), None);
}

#[test]
fn helper_command_lines() {
    let c = HelperCommand::Remove { iface: "wg0".to_string(), public_key: "PK=".to_string() };
    assert_eq!(c.to_args(), args(&["remove", "wg0", "PK="]));
    assert_eq!(c.wg_args(), args(&["set", "wg0", "peer", "PK=", "remove"]));
    let c = HelperCommand::Add { iface: "wg0".to_string(), path: "/tmp/p".to_string() };
    assert_eq!(c.wg_args(), args(&["addconf", "wg0", "/tmp/p"]));
    let mut full = args(&["helper"]);
    full.extend(c.to_args());
    assert_eq!(HelperCommand::from_args(&full), Some(c));
}

#[test]
fn interface_name_from_show_output() {
    let out = "interface: wg0\n  public key: abc=\n  listening port: 51820\n";
    assert_eq!(wireguard_interface_name(out), Some("wg0".to_string()));
    assert_eq!(wireguard_interface_name("nothing here"), None);
}

#[test]
fn default_device_from_route_output() {
    let out = "default via 192.168.1.1 dev eth0 proto dhcp metric 100\n";
    assert_eq!(default_device(out), Some("eth0".to_string()));
    assert_eq!(default_device("10.0.0.0/8 dev wg0"), None);
}

#[test]
fn user_lookup() {
    let users = vec![
        User { name: "admin".to_string(), hashed_pass: "h1".to_string() },
        User { name: "ops".to_string(), hashed_pass: "h2".to_string() },
        User { name: "ops".to_string(), hashed_pass: "h3".to_string() },
    ];
    assert_eq!(get_user_by_name(&users, &"ops".to_string()), Some(1));
    assert_eq!(get_user_by_name(&users, &"root".to_string()), None);
}

#[test]
fn password_change_checks() {
    let s = |x: &str| x.to_string();
    assert!(password_change_complete(&s("admin"), &s("old"), &s("new"), &s("new")));
    assert!(!password_change_complete(&s("admin"), &s("old"), &s("new"), &s("neu")));
    assert!(!password_change_complete(&s(""), &s("old"), &s("new"), &s("new")));
    assert!(!password_change_complete(&s("admin"), &s(""), &s("new"), &s("new")));
    assert!(!password_change_complete(&s("admin"), &s("old"), &s(""), &s("")));
}
