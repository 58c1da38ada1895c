use distirc::entry::{Key, TextEntry};

fn press_key(entry: &mut TextEntry, key: Key) {
    entry.handle_key(&key);
}

fn press_times(entry: &mut TextEntry, key: Key, times: usize) {
    for _ in 0..times {
        entry.handle_key(&key);
    }
}

fn press_chars(entry: &mut TextEntry, string: &str) {
    for ch in string.chars() {
        entry.handle_key(&Key::Char(ch));
    }
}

#[test]
fn basic_typing() {
    let mut entry = TextEntry::new();
    press_chars(&mut entry, "testing");
    press_key(&mut entry, Key::Enter);
    assert_eq!(Some("testing".to_owned()), entry.next_entry());
}

#[test]
fn insert_typing() {
    // Tests typing in the middle of the line.
    let mut entry = TextEntry::new();
    press_chars(&mut entry, "This is test");
    assert_eq!("This is test", entry.get_text());
    press_times(&mut entry, Key::Left, 4);
    press_chars(&mut entry, "a ");
    press_key(&mut entry, Key::End);
    assert_eq!("This is a test", entry.get_text());
    press_key(&mut entry, Key::Enter);
    assert_eq!(Some("This is a test".to_owned()), entry.next_entry());
}

#[test]
fn backspace() {
    // Tests typing in the middle of the line.
    let mut entry = TextEntry::new();
    press_chars(&mut entry, "IRC sucks");
    press_times(&mut entry, Key::Backspace, 5);
    press_chars(&mut entry, "is awesome!");
    press_key(&mut entry, Key::Enter);
    assert_eq!(Some("IRC is awesome!".to_owned()), entry.next_entry());
}

#[test]
fn multibyte_char_basic_typing() {
    let mut entry = TextEntry::new();
    press_chars(&mut entry, "こんにちわ");
    press_key(&mut entry, Key::Enter);
    assert_eq!(Some("こんにちわ".to_owned()), entry.next_entry());
}

#[test]
fn multibyte_char_insert_typing() {
    let mut entry = TextEntry::new();
    press_chars(&mut entry, "これはです");
    press_times(&mut entry, Key::Left, 2);
    press_chars(&mut entry, "テスト");
    press_key(&mut entry, Key::Enter);
    assert_eq!(Some("これはテストです".to_owned()), entry.next_entry());
}

#[test]
fn cursor_move_left() {
    let mut entry = TextEntry::new();

    press_chars(&mut entry, "This is test");
    press_times(&mut entry, Key::Left, 4);
    press_chars(&mut entry, "a ");
    press_key(&mut entry, Key::Enter);
    assert_eq!(Some("This is a test".to_owned()), entry.next_entry());

    press_chars(&mut entry, "これはです");
    press_times(&mut entry, Key::Left, 2);
    press_chars(&mut entry, "テスト");
    press_key(&mut entry, Key::Enter);
    assert_eq!(Some("これはテストです".to_owned()), entry.next_entry());
}

#[test]
fn cursor_move_right() {
    // Also tests the home key.
    let mut entry = TextEntry::new();

    press_chars(&mut entry, "This is test");
    press_key(&mut entry, Key::Home);
    press_times(&mut entry, Key::Right, 8);
    press_chars(&mut entry, "a ");
    press_key(&mut entry, Key::Enter);
    assert_eq!(Some("This is a test".to_owned()), entry.next_entry());

    press_chars(&mut entry, "これはです");
    press_key(&mut entry, Key::Home);
    press_times(&mut entry, Key::Right, 3);
    press_chars(&mut entry, "テスト");
    println!("Text: {}", entry.get_text());
    press_key(&mut entry, Key::Enter);
    assert_eq!(Some("これはテストです".to_owned()), entry.next_entry());
}

#[test]
fn cycle_history() {
    let mut entry = TextEntry::new();
    press_chars(&mut entry, "Entry 1");
    press_key(&mut entry, Key::Enter);
    assert_eq!(Some("Entry 1".to_owned()), entry.next_entry());
    press_chars(&mut entry, "Another entry 2");
    press_key(&mut entry, Key::Enter);
    assert_eq!(Some("Another entry 2".to_owned()), entry.next_entry());
    press_chars(&mut entry, "Entry 3");
    press_key(&mut entry, Key::Enter);
    assert_eq!(Some("Entry 3".to_owned()), entry.next_entry());

    assert_eq!("", entry.get_text());
    press_key(&mut entry, Key::Up);
    assert_eq!("Entry 3", entry.get_text());
    press_key(&mut entry, Key::Up);
    assert_eq!("Another entry 2", entry.get_text());
    press_key(&mut entry, Key::Up);
    assert_eq!("Entry 1", entry.get_text());
    press_key(&mut entry, Key::Up);
    assert_eq!("Entry 1", entry.get_text());
    press_key(&mut entry, Key::Down);
    assert_eq!("Another entry 2", entry.get_text());
    press_key(&mut entry, Key::Down);
    assert_eq!("Entry 3", entry.get_text());
    press_key(&mut entry, Key::Down);
    assert_eq!("", entry.get_text());
}

#[test]
fn enter_from_history() {
    // This checks that when we enter a line from our entry history, it gets
    // placed in the history properly.
    let mut entry = TextEntry::new();
    press_chars(&mut entry, "Entry 1");
    press_key(&mut entry, Key::Enter);
    assert_eq!(Some("Entry 1".to_owned()), entry.next_entry());
    press_chars(&mut entry, "Another entry");
    press_key(&mut entry, Key::Enter);
    assert_eq!(Some("Another entry".to_owned()), entry.next_entry());
    press_chars(&mut entry, "Entry 3");
    press_key(&mut entry, Key::Enter);
    assert_eq!(Some("Entry 3".to_owned()), entry.next_entry());

    // Cycle up to "Another entry 2"
    press_times(&mut entry, Key::Up, 2);
    assert_eq!("Another entry", entry.get_text());
    press_chars(&mut entry, " 2");
    assert_eq!("Another entry 2", entry.get_text());
    press_key(&mut entry, Key::Enter);

    assert_eq!("", entry.get_text());
    press_key(&mut entry, Key::Up);
    assert_eq!("Another entry 2", entry.get_text());
}
