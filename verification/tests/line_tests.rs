use distirc::line::{Sender, User};

#[test]
fn line_parse_prefix() {
    assert_eq!(
        Sender::User(User {
            nick: "Forkk".to_owned(),
            ident: "~forkk".to_owned(),
            host: "irc.forkk.net".to_owned(),
        }),
        Sender::parse_prefix("Forkk!~forkk@irc.forkk.net")
    );
}

#[test]
fn parse_prefix_server() {
    assert_eq!(
        Sender::Server("irc.example.net".to_owned()),
        Sender::parse_prefix("irc.example.net")
    );
}

#[test]
fn sender_name_picks_nick_or_server() {
    let u = Sender::User(User {
        nick: "ada".to_owned(),
        ident: "~a".to_owned(),
        host: "h".to_owned(),
    });
    assert_eq!("ada", u.name());
    let s = Sender::Server("irc.example.net".to_owned());
    assert_eq!("irc.example.net", s.name());
}
