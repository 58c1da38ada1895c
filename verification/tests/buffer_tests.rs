use distirc::buffer::Buffer;
use distirc::handle::BaseUpdateHandle;
use distirc::line::{LineData, MsgKind};
use distirc::logstore::Day;
use distirc::messages::{BufTarget, CoreBufMsg};
use distirc::routing::BufferCmd;

fn today() -> Day {
    Day { year: 2026, month: 10, day: 11 }
}

fn status_line(text: &str) -> LineData {
    LineData::Message {
        kind: MsgKind::Status,
        from: "core".to_owned(),
        msg: text.to_owned(),
    }
}

#[test]
fn pushed_line_ids_strictly_increase() {
    let mut buf = Buffer::new("net".to_owned(), BufTarget::Channel("#x".to_owned()), today());
    let mut u = BaseUpdateHandle::<CoreBufMsg>::new();
    for i in 0..5usize {
        buf.push_line(status_line(&format!("line {}", i)), &mut u);
    }
    assert_eq!(5, buf.front_len());
    let mut last = None;
    for i in 0..5isize {
        let line = buf.get_line(i).expect("line missing");
        if let Some(prev) = last {
            assert!(line.id > prev, "ids must strictly increase");
        }
        last = Some(line.id);
    }
}

#[test]
fn paging_is_wanted_exactly_below_boundary() {
    let mut buf = Buffer::new("net".to_owned(), BufTarget::Channel("#x".to_owned()), today());
    let mut u = BaseUpdateHandle::<CoreBufMsg>::new();
    buf.push_line(status_line("live"), &mut u);
    assert_eq!(0, buf.last_idx());
    assert!(buf.wants_fetch(-1));
    assert!(!buf.wants_fetch(0));

    // Build a day's file from another buffer's records.
    let mut other = Buffer::new("net".to_owned(), BufTarget::Channel("#x".to_owned()), today());
    other.push_line(status_line("old one"), &mut u);
    other.push_line(status_line("old two"), &mut u);
    let text = other.take_log_writes().join("\n");

    buf.apply_fetch(Some(&text));
    assert_eq!(2, buf.back_len());
    assert_eq!(-2, buf.last_idx());
    assert!(!buf.wants_fetch(-1));
    assert!(!buf.wants_fetch(-2));
    assert!(buf.wants_fetch(-3));
    // Index -1 is the newest historical line.
    match buf.get_line(-1).map(|l| &l.data) {
        Some(LineData::Message { msg, .. }) => assert_eq!("old two", msg),
        other => panic!("wrong line: {:?}", other),
    }
    match buf.get_line(-2).map(|l| &l.data) {
        Some(LineData::Message { msg, .. }) => assert_eq!("old one", msg),
        other => panic!("wrong line: {:?}", other),
    }

    // A day with no file pages nothing in, but the cursor still moves on.
    let before = buf.next_log_file();
    buf.apply_fetch(None);
    let after = buf.next_log_file();
    assert_ne!(before, after, "the cursor must advance to an older day");
    assert_eq!(2, buf.back_len());
}

#[test]
fn names_replies_merge_until_end_of_names() {
    let mut buf = Buffer::new("net".to_owned(), BufTarget::Channel("#x".to_owned()), today());
    let mut u = BaseUpdateHandle::<CoreBufMsg>::new();
    buf.handle_cmd(BufferCmd::RPL_NAMREPLY("alice bob".to_owned()), "bob", &mut u);
    buf.handle_cmd(BufferCmd::RPL_NAMREPLY("@carol +dave".to_owned()), "bob", &mut u);
    // The union of both replies: nothing was cleared between them.
    assert!(buf.has_user("alice"));
    assert!(buf.has_user("bob"));
    assert!(buf.has_user("carol"));
    assert!(buf.has_user("dave"));

    buf.handle_cmd(BufferCmd::RPL_ENDOFNAMES, "bob", &mut u);
    buf.handle_cmd(BufferCmd::RPL_NAMREPLY("erin".to_owned()), "bob", &mut u);
    // A reply after the terminator starts a fresh set.
    assert!(buf.has_user("erin"));
    assert!(!buf.has_user("alice"));
    assert!(!buf.has_user("carol"));
}
