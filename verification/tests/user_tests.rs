use distirc::alert::Alert;
use distirc::config::{NetConfig, UserConfig};
use distirc::handle::{BaseUpdateHandle, UpdateHandle};
use distirc::messages::CoreMsg;
use distirc::session::{authenticate, handle_list_nets};
use distirc::user::{Core, UserHandle, User};

fn net_cfg(nick: &str) -> NetConfig {
    NetConfig {
        nick: nick.to_owned(),
        alt_nicks: vec![],
        nickserv_pass: None,
        channels: vec![],
        username: None,
        realname: None,
        server: "irc.example.net".to_owned(),
        port: None,
        password: None,
        use_ssl: None,
    }
}

fn user_cfg(password: &str, alert_cmd: Option<&str>) -> UserConfig {
    UserConfig {
        net: vec![("example".to_owned(), net_cfg("bob"))],
        password: password.to_owned(),
        alert_cmd: alert_cmd.map(|c| c.to_owned()),
    }
}

#[test]
fn from_cfg_builds_one_network_per_record() {
    let user = User::from_cfg(user_cfg("SECRET-REDACTED", None));
    assert_eq!(1, user.net_count());
    assert_eq!("example", user.net_at(0).id());
    assert_eq!("bob", user.net_at(0).cfg.nick());
    assert_eq!("SECRET-REDACTED", user.password());
}

#[test]
fn authenticate_accepts_right_password_and_lists_networks() {
    let mut core = Core::new();
    core.add_user("ada".to_owned(), user_cfg("SECRET-REDACTED", None));

    let (client, replies) = authenticate(&mut core, "ada", "SECRET-REDACTED");
    assert_eq!(Some((0, 0)), client);
    assert_eq!(2, replies.len());
    assert!(matches!(replies[0], CoreMsg::AuthOk));
    match &replies[1] {
        CoreMsg::Networks(nets) => {
            assert_eq!(1, nets.len());
            assert_eq!("example", nets[0].id);
        }
        other => panic!("wrong reply: {:?}", other),
    }
}

#[test]
fn authenticate_refuses_wrong_password() {
    let mut core = Core::new();
    core.add_user("ada".to_owned(), user_cfg("SECRET-REDACTED", None));
    let (client, replies) = authenticate(&mut core, "ada", "wrong");
    assert_eq!(None, client);
    assert_eq!(1, replies.len());
    assert!(matches!(replies[0], CoreMsg::AuthErr));
}

#[test]
fn authenticate_ignores_unknown_user() {
    let mut core = Core::new();
    core.add_user("ada".to_owned(), user_cfg("SECRET-REDACTED", None));
    let (client, replies) = authenticate(&mut core, "eve", "SECRET-REDACTED");
    assert_eq!(None, client);
    assert!(replies.is_empty());
}

#[test]
fn list_nets_replies_with_the_networks() {
    let user = User::from_cfg(user_cfg("SECRET-REDACTED", None));
    let replies = handle_list_nets(&user);
    assert_eq!(1, replies.len());
    match &replies[0] {
        CoreMsg::Networks(nets) => assert_eq!(1, nets.len()),
        other => panic!("wrong reply: {:?}", other),
    }
}

fn alert(text: &str) -> Alert {
    Alert::ping("example".to_owned(), "#x".to_owned(), text.to_owned())
}

#[test]
fn update_handle_broadcasts_to_every_client_with_one_alerts_batch() {
    let user = User::from_cfg(user_cfg("SECRET-REDACTED", None));
    let mut handle = UserHandle::new(user);
    let a = handle.register_client();
    let b = handle.register_client();

    let mut u = BaseUpdateHandle::<CoreMsg>::new();
    u.send_clients(CoreMsg::AuthOk);
    u.send_clients(CoreMsg::Status("one".to_owned()));
    u.post_alert(alert("ping!"));
    let for_cmd = handle.exec_update_handle(u);
    assert!(for_cmd.is_empty());

    for ci in [a, b] {
        let mut q = handle.take_client_msgs(ci);
        assert!(matches!(q.recv(), Some(CoreMsg::AuthOk)));
        assert!(matches!(q.recv(), Some(CoreMsg::Status(_))));
        match q.recv() {
            Some(CoreMsg::Alerts(alerts)) => {
                assert_eq!(1, alerts.len());
                assert_eq!("ping!", alerts[0].msg);
            }
            other => panic!("wrong message: {:?}", other),
        }
        assert!(q.recv().is_none());
    }
}

#[test]
fn update_handle_stores_alerts_when_no_client_and_no_command() {
    let user = User::from_cfg(user_cfg("SECRET-REDACTED", None));
    let mut handle = UserHandle::new(user);

    let mut u = BaseUpdateHandle::<CoreMsg>::new();
    u.post_alert(alert("while away"));
    let for_cmd = handle.exec_update_handle(u);
    assert!(for_cmd.is_empty());

    // The stored alert is delivered once a client attaches.
    let ci = handle.register_client();
    let u2 = BaseUpdateHandle::<CoreMsg>::new();
    let for_cmd2 = handle.exec_update_handle(u2);
    assert!(for_cmd2.is_empty());
    let mut q = handle.take_client_msgs(ci);
    match q.recv() {
        Some(CoreMsg::Alerts(alerts)) => {
            assert_eq!(1, alerts.len());
            assert_eq!("while away", alerts[0].msg);
        }
        other => panic!("wrong message: {:?}", other),
    }
}

#[test]
fn update_handle_hands_alerts_to_the_command_when_no_client() {
    let user = User::from_cfg(user_cfg("SECRET-REDACTED", Some("notify %m")));
    let mut handle = UserHandle::new(user);
    let mut u = BaseUpdateHandle::<CoreMsg>::new();
    u.post_alert(alert("run me"));
    let for_cmd = handle.exec_update_handle(u);
    assert_eq!(1, for_cmd.len());
    assert_eq!("run me", for_cmd[0].msg);
}
