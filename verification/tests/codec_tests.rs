use distirc::buffer::Buffer;
use distirc::handle::BaseUpdateHandle;
use distirc::line::{BufferLine, LineData, MsgKind, User};
use distirc::logfmt::{encode_line, parse_line};
use distirc::logstore::Day;
use distirc::messages::{BufTarget, CoreBufMsg};

fn user(nick: &str) -> User {
    User {
        nick: nick.to_owned(),
        ident: format!("~{}", nick),
        host: "host.example".to_owned(),
    }
}

#[test]
fn encode_line_exact_text() {
    let line = BufferLine {
        id: 7,
        time: -3,
        data: LineData::Message {
            kind: MsgKind::PrivMsg,
            from: "ada".to_owned(),
            msg: "hi \"you\"\nthere\\".to_owned(),
        },
    };
    assert_eq!(
        "{\"id\":7,\"time\":-3,\"data\":{\"type\":\"Message\",\"kind\":\"PrivMsg\",\
         \"from\":\"ada\",\"msg\":\"hi \\\"you\\\"\\nthere\\\\\"}}",
        encode_line(&line)
    );
}

#[test]
fn record_round_trip_all_variants() {
    let lines = vec![
        BufferLine {
            id: 0,
            time: 1000,
            data: LineData::Message {
                kind: MsgKind::Response(372),
                from: "motd".to_owned(),
                msg: "welcome".to_owned(),
            },
        },
        BufferLine {
            id: 1,
            time: 1001,
            data: LineData::Topic { by: Some("ada".to_owned()), topic: "the topic".to_owned() },
        },
        BufferLine { id: 2, time: 1002, data: LineData::Topic { by: None, topic: "".to_owned() } },
        BufferLine { id: 3, time: 1003, data: LineData::Join { user: user("ada") } },
        BufferLine {
            id: 4,
            time: 1004,
            data: LineData::Part { user: user("bea"), reason: "No reason given".to_owned() },
        },
        BufferLine {
            id: 5,
            time: 1005,
            data: LineData::Kick {
                by: user("op"),
                user: "bea".to_owned(),
                reason: "spam".to_owned(),
            },
        },
        BufferLine {
            id: 6,
            time: 1006,
            data: LineData::Quit { user: user("cee"), msg: Some("bye".to_owned()) },
        },
        BufferLine { id: 7, time: 1007, data: LineData::Quit { user: user("dee"), msg: None } },
        BufferLine {
            id: 8,
            time: 1008,
            data: LineData::Nick { user: user("eve"), new: "evelyn".to_owned() },
        },
    ];
    for line in lines {
        let text = encode_line(&line);
        let back = parse_line(&text).expect("round trip failed");
        assert_eq!(line, back);
    }
}

#[test]
fn corrupt_records_parse_to_none() {
    assert!(parse_line("").is_none());
    assert!(parse_line("{\"id\":7}").is_none());
    assert!(parse_line("not a record at all").is_none());
    assert!(parse_line("{\"id\":x,\"time\":1,\"data\":{}}").is_none());
}

#[test]
fn line_round_trip_through_reconstructed_buffer() {
    let today = Day { year: 2026, month: 10, day: 11 };
    let targ = BufTarget::Channel("#x".to_owned());
    let mut u = BaseUpdateHandle::<CoreBufMsg>::new();

    let mut buf = Buffer::new("net".to_owned(), targ.clone(), today);
    buf.push_line(
        LineData::Message {
            kind: MsgKind::PrivMsg,
            from: "ada".to_owned(),
            msg: "hello there".to_owned(),
        },
        &mut u,
    );
    let original = buf.get_line(0).expect("line missing").clone();
    let day_text = buf.take_log_writes().join("\n");

    // A reconstructed buffer pages the day back in; back-indexing starts
    // from 0 again, so the line reappears at index -1.
    let mut rebuilt = Buffer::new("net".to_owned(), targ, today);
    assert_eq!(0, rebuilt.last_idx());
    rebuilt.apply_fetch(Some(&day_text));
    let reread = rebuilt.get_line(-1).expect("history missing");
    assert_eq!(&original, reread);
}
