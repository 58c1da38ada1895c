use distirc::buffer::Buffer;
use distirc::handle::BaseUpdateHandle;
use distirc::line::{LineData, MsgKind};
use distirc::logstore::Day;
use distirc::messages::{BufTarget, CoreBufMsg};
use distirc::session::ClientBufs;

fn buffer_with_lines(n: usize) -> Buffer {
    let today = Day { year: 2026, month: 10, day: 11 };
    let mut buf = Buffer::new("net".to_owned(), BufTarget::Channel("#x".to_owned()), today);
    let mut u = BaseUpdateHandle::<CoreBufMsg>::new();
    for i in 0..n {
        buf.push_line(
            LineData::Message {
                kind: MsgKind::PrivMsg,
                from: "ada".to_owned(),
                msg: format!("line {}", i),
            },
            &mut u,
        );
    }
    buf
}

#[test]
fn fetch_logs_zero_moves_nothing() {
    let buf = buffer_with_lines(5);
    let targ = BufTarget::Channel("#x".to_owned());
    let mut bufs = ClientBufs::new();

    let served = bufs.fetch_logs(&targ, &buf, 0);
    assert!(served.is_empty());
    // A later real fetch starts exactly where an untouched cursor would.
    let batch = bufs.fetch_logs(&targ, &buf, 2);
    let ids: Vec<u64> = batch.iter().map(|l| l.id).collect();
    assert_eq!(vec![4, 3], ids);
}

#[test]
fn fetch_logs_batches_are_adjacent_without_overlap() {
    let buf = buffer_with_lines(5);
    let targ = BufTarget::Channel("#x".to_owned());
    let mut bufs = ClientBufs::new();

    // The implicit cursor starts at the front length (5), so the first
    // batch reads downward from index 4.
    let first = bufs.fetch_logs(&targ, &buf, 3);
    let first_ids: Vec<u64> = first.iter().map(|l| l.id).collect();
    assert_eq!(vec![4, 3, 2], first_ids);

    // The second batch continues strictly older, with no overlap or gap.
    let second = bufs.fetch_logs(&targ, &buf, 3);
    let second_ids: Vec<u64> = second.iter().map(|l| l.id).collect();
    assert_eq!(vec![1, 0], second_ids);

    // History is exhausted now.
    let third = bufs.fetch_logs(&targ, &buf, 3);
    assert!(third.is_empty());
}

#[test]
fn fetch_logs_serves_everything_for_a_huge_count() {
    let buf = buffer_with_lines(5);
    let targ = BufTarget::Channel("#x".to_owned());
    let mut bufs = ClientBufs::new();
    let batch = bufs.fetch_logs(&targ, &buf, 1000000);
    let ids: Vec<u64> = batch.iter().map(|l| l.id).collect();
    assert_eq!(vec![4, 3, 2, 1, 0], ids);
    assert_eq!(Some(0), bufs.cursor_for(&targ));
}
