//! The text entry line: typed text, cursor movement, and entry history.
use vstd::prelude::*;
use vstd::string::StrSliceExecFns;
use vstd::string::StringExecFns;
use crate::strutil::push_char;

verus! {

/// A key press the entry handles.
#[derive(Debug, Clone, Copy, PartialEq, Eq)]
pub enum Key {
    Char(char),
    Backspace,
    Left,
    Right,
    Home,
    End,
    Enter,
    Up,
    Down,
}

/// The text box: the line being typed, a history of entered lines cycled
/// with the up and down keys, and the queue of lines entered but not yet
/// taken.
#[derive(Debug)]
pub struct TextEntry {
    cursor_col: usize,
    hist: Vec<String>,
    hist_pos: usize,
    cmds: Vec<String>,
}

impl TextEntry {
    /// The history entries; position 0 is the line being composed.
    pub closed spec fn hist_seq(&self) -> Seq<Seq<char>> {
        self.hist.deep_view()
    }

    /// Which history entry is being shown and edited.
    pub closed spec fn pos(&self) -> int {
        self.hist_pos as int
    }

    /// The text currently shown.
    pub open spec fn text(&self) -> Seq<char> {
        self.hist_seq()[self.pos()]
    }

    /// The cursor's character column in the shown text.
    pub closed spec fn col(&self) -> int {
        self.cursor_col as int
    }

    /// Entered lines not yet taken, oldest first.
    pub closed spec fn cmds_seq(&self) -> Seq<Seq<char>> {
        self.cmds.deep_view()
    }

    pub open spec fn wf(&self) -> bool {
        &&& self.hist_seq().len() >= 1
        &&& 0 <= self.pos() < self.hist_seq().len()
        &&& 0 <= self.col() <= self.text().len()
        &&& forall|j: int|
            0 <= j < self.hist_seq().len() ==> (#[trigger] self.hist_seq()[j]).len()
                <= 0x7fffffff
        &&& self.hist_seq().len() <= 0x7fffffff
    }

    pub fn new() -> (r: TextEntry)
        ensures
            r.wf(),
            r.hist_seq() == seq![Seq::<char>::empty()],
            r.pos() == 0,
            r.col() == 0,
            r.cmds_seq() == Seq::<Seq<char>>::empty(),
    {
        let mut hist: Vec<String> = Vec::new();
        hist.push(String::new());
        let r = TextEntry { cursor_col: 0, hist, hist_pos: 0, cmds: Vec::new() };
        proof {
            assert(r.hist_seq() =~= seq![Seq::<char>::empty()]);
            assert(r.cmds_seq() =~= Seq::<Seq<char>>::empty());
        }
        r
    }

    /// Returns the next entry in the list of things the user has typed.
    pub fn next_entry(&mut self) -> (r: Option<String>)
        requires
            old(self).wf(),
        ensures
            final(self).wf(),
            final(self).hist_seq() == old(self).hist_seq(),
            final(self).pos() == old(self).pos(),
            final(self).col() == old(self).col(),
            old(self).cmds_seq().len() == 0 ==> r is None && final(self).cmds_seq() == old(self).cmds_seq(),
            old(self).cmds_seq().len() > 0 ==> match r {
                Some(s) => s@ == old(self).cmds_seq()[0] && final(self).cmds_seq() == old(self).cmds_seq().drop_first(),
                None => false,
            },
    {
        if self.cmds.len() > 0 {
            let ghost pre = self.cmds.deep_view();
            let s = self.cmds.remove(0);
            proof {
                assert(s.deep_view() == pre[0]);
                assert forall|j: int|
                    0 <= j < self.cmds.deep_view().len() implies self.cmds.deep_view()[j]
                        == pre.drop_first()[j] by {
                    assert(self.cmds@[j] == old(self).cmds@.remove(0)[j]);
                }
                assert(self.cmds.deep_view() =~= pre.drop_first());
            }
            Some(s)
        } else {
            None
        }
    }

    /// The text currently shown.
    pub fn get_text(&self) -> (r: &str)
        requires
            self.wf(),
        ensures
            r@ == self.text(),
    {
        self.hist[self.hist_pos].as_str()
    }

    /// The cursor's character column.
    pub fn cursor_col(&self) -> (r: usize)
        ensures
            r as int == self.col(),
    {
        self.cursor_col
    }

    /// Moves the cursor left or right by up to `by` characters, stopping at
    /// the ends of the text.
    pub fn move_cursor_by(&mut self, by: isize)
        requires
            old(self).wf(),
            -0x10000 <= by as int <= 0x10000,
        ensures
            final(self).wf(),
            final(self).hist_seq() == old(self).hist_seq(),
            final(self).pos() == old(self).pos(),
            final(self).cmds_seq() == old(self).cmds_seq(),
            by >= 0 ==> final(self).col() == (if old(self).col() + by <= old(self).text().len() {
                old(self).col() + by
            } else {
                old(self).text().len() as int
            }),
            by < 0 ==> final(self).col() == (if old(self).col() + by >= 0 {
                old(self).col() + by
            } else {
                0
            }),
    {
        let len = self.hist[self.hist_pos].as_str().unicode_len();
        if by >= 0 {
            let step = by as usize;
            if self.cursor_col + step <= len {
                self.cursor_col = self.cursor_col + step;
            } else {
                self.cursor_col = len;
            }
        } else {
            let step = (-by) as usize;
            if self.cursor_col >= step {
                self.cursor_col = self.cursor_col - step;
            } else {
                self.cursor_col = 0;
            }
        }
    }

    /// Moves the cursor to the start of the text.
    pub fn move_cursor_home(&mut self)
        requires
            old(self).wf(),
        ensures
            final(self).wf(),
            final(self).hist_seq() == old(self).hist_seq(),
            final(self).pos() == old(self).pos(),
            final(self).cmds_seq() == old(self).cmds_seq(),
            final(self).col() == 0,
    {
        self.cursor_col = 0;
    }

    /// Moves the cursor past the end of the text.
    pub fn move_cursor_end(&mut self)
        requires
            old(self).wf(),
        ensures
            final(self).wf(),
            final(self).hist_seq() == old(self).hist_seq(),
            final(self).pos() == old(self).pos(),
            final(self).cmds_seq() == old(self).cmds_seq(),
            final(self).col() == old(self).text().len(),
    {
        self.cursor_col = self.hist[self.hist_pos].as_str().unicode_len();
    }

    /// Replaces the shown text.
    fn set_current(&mut self, text: String)
        requires
            old(self).wf(),
            text@.len() <= 0x7fffffff,
        ensures
            final(self).hist_seq() == old(self).hist_seq().update(old(self).pos(), text@),
            final(self).pos() == old(self).pos(),
            final(self).col() == old(self).col(),
            final(self).cmds_seq() == old(self).cmds_seq(),
    {
        let ghost pre = self.hist.deep_view();
        let p = self.hist_pos;
        let mut e = self.hist.remove(p);
        let ghost removed = self.hist@;
        e = text;
        self.hist.insert(p, e);
        proof {
            assert forall|j: int|
                0 <= j < self.hist.deep_view().len() implies self.hist.deep_view()[j]
                    == pre.update(old(self).pos(), text@)[j] by {
                if j < p {
                    assert(self.hist@[j] == removed[j]);
                    assert(removed[j] == old(self).hist@[j]);
                } else if j > p {
                    assert(self.hist@[j] == removed[j - 1]);
                    assert(removed[j - 1] == old(self).hist@[j]);
                }
            }
            assert(self.hist.deep_view() =~= pre.update(old(self).pos(), text@));
        }
    }

    /// Pushes the entered line into the history and clears the entry: a line
    /// entered while browsing history first replaces the newest scratch
    /// line.
    fn push_hist(&mut self)
        requires
            old(self).wf(),
        ensures
            final(self).wf(),
            final(self).pos() == 0,
            final(self).col() == 0,
            final(self).text() == Seq::<char>::empty(),
            final(self).cmds_seq() == old(self).cmds_seq(),
            old(self).hist_seq().len() < 0x7fffffff ==> final(self).hist_seq() == seq![
                Seq::<char>::empty(),
            ] + (if old(self).pos() > 0 {
                old(self).hist_seq().update(0, old(self).text())
            } else {
                old(self).hist_seq()
            }),
    {
        let ghost pre = self.hist.deep_view();
        self.cursor_col = 0;
        if self.hist_pos > 0 {
            let ent = self.hist[self.hist_pos].clone();
            let keep_pos = self.hist_pos;
            self.hist_pos = 0;
            self.set_current(ent);
            self.hist_pos = keep_pos;
        }
        let ghost mid = self.hist.deep_view();
        if self.hist.len() < 0x7fffffffusize {
            self.hist.insert(0, String::new());
            self.hist_pos = 0;
            self.cursor_col = 0;
            proof {
                assert forall|j: int|
                    0 <= j < self.hist.deep_view().len() implies self.hist.deep_view()[j] == (
                    seq![Seq::<char>::empty()] + mid)[j] by {
                    if j > 0 {
                        assert(self.hist.deep_view()[j] == mid[j - 1]);
                    }
                }
                assert(self.hist.deep_view() =~= seq![Seq::<char>::empty()] + mid);
            }
        } else {
            self.hist_pos = 0;
            self.set_current(String::new());
            self.cursor_col = 0;
        }
    }

    /// Handles one key press. Character keys insert at the cursor when the
    /// line has room; movement keys clamp at the ends; Enter queues a
    /// non-empty line and clears the entry; Up and Down browse the history.
    pub fn handle_key(&mut self, key: &Key) -> (r: bool)
        requires
            old(self).wf(),
        ensures
            final(self).wf(),
            r == true,
            match key {
                Key::Char(c) => {
                    &&& final(self).cmds_seq() == old(self).cmds_seq()
                    &&& final(self).pos() == old(self).pos()
                    &&& (old(self).text().len() < 0x7fffffff ==> final(self).text() == old(self).text().take(old(self).col()).push(*c) + old(self).text().skip(
                        old(self).col(),
                    ) && final(self).col() == old(self).col() + 1 && final(self).hist_seq()
                        == old(self).hist_seq().update(old(self).pos(), final(self).text()))
                },
                Key::Backspace => {
                    &&& final(self).cmds_seq() == old(self).cmds_seq()
                    &&& final(self).pos() == old(self).pos()
                    &&& (old(self).col() > 0 ==> final(self).text() == old(self).text().take(
                        old(self).col() - 1,
                    ) + old(self).text().skip(old(self).col()) && final(self).col() == old(self).col() - 1)
                    &&& (old(self).col() == 0 ==> final(self).text() == old(self).text() && final(self).col() == 0 && final(self).hist_seq() == old(self).hist_seq())
                },
                Key::Left => final(self).hist_seq() == old(self).hist_seq() && final(self).pos()
                    == old(self).pos() && final(self).cmds_seq() == old(self).cmds_seq() && final(self).col() == (if old(self).col() > 0 {
                    old(self).col() - 1
                } else {
                    0
                }),
                Key::Right => final(self).hist_seq() == old(self).hist_seq() && final(self).pos()
                    == old(self).pos() && final(self).cmds_seq() == old(self).cmds_seq() && final(self).col() == (if old(self).col() + 1 <= old(self).text().len() {
                    old(self).col() + 1
                } else {
                    old(self).text().len() as int
                }),
                Key::Home => final(self).hist_seq() == old(self).hist_seq() && final(self).pos()
                    == old(self).pos() && final(self).cmds_seq() == old(self).cmds_seq() && final(self).col() == 0,
                Key::End => final(self).hist_seq() == old(self).hist_seq() && final(self).pos()
                    == old(self).pos() && final(self).cmds_seq() == old(self).cmds_seq() && final(self).col() == old(self).text().len(),
                Key::Enter => {
                    &&& (old(self).text().len() == 0 ==> final(self).hist_seq() == old(self).hist_seq() && final(self).pos() == old(self).pos() && final(self).cmds_seq()
                        == old(self).cmds_seq())
                    &&& (old(self).text().len() > 0 ==> final(self).cmds_seq() == old(self).cmds_seq().push(old(self).text()) && final(self).pos() == 0 && final(self).col() == 0 && final(self).text() == Seq::<char>::empty())
                },
                Key::Up => {
                    &&& final(self).cmds_seq() == old(self).cmds_seq()
                    &&& final(self).hist_seq() == old(self).hist_seq()
                    &&& final(self).pos() == (if old(self).pos() + 1 < old(self).hist_seq().len() {
                        old(self).pos() + 1
                    } else {
                        old(self).pos()
                    })
                    &&& final(self).col() == final(self).text().len()
                },
                Key::Down => {
                    &&& final(self).cmds_seq() == old(self).cmds_seq()
                    &&& final(self).hist_seq() == old(self).hist_seq()
                    &&& final(self).pos() == (if old(self).pos() > 0 {
                        old(self).pos() - 1
                    } else {
                        0
                    })
                    &&& final(self).col() == final(self).text().len()
                },
            },
    {
        match key {
            Key::Char(c) => {
                let cur = self.hist[self.hist_pos].as_str();
                let n = cur.unicode_len();
                if n < 0x7fffffffusize {
                    let mut text: String = cur.substring_char(0, self.cursor_col).to_owned();
                    push_char(&mut text, *c);
                    let rest = cur.substring_char(self.cursor_col, n);
                    text.append(rest);
                    proof {
                        assert(text@ =~= old(self).text().take(old(self).col()).push(*c) + old(self).text().skip(old(self).col()));
                    }
                    self.set_current(text);
                    self.cursor_col = self.cursor_col + 1;
                }
                true
            },
            Key::Backspace => {
                if self.cursor_col > 0 {
                    let cur = self.hist[self.hist_pos].as_str();
                    let n = cur.unicode_len();
                    let mut text: String = cur.substring_char(0, self.cursor_col - 1).to_owned();
                    let rest = cur.substring_char(self.cursor_col, n);
                    text.append(rest);
                    proof {
                        assert(text@ =~= old(self).text().take(old(self).col() - 1) + old(self).text().skip(old(self).col()));
                    }
                    self.set_current(text);
                    self.cursor_col = self.cursor_col - 1;
                }
                true
            },
            Key::Left => {
                self.move_cursor_by(-1);
                true
            },
            Key::Right => {
                self.move_cursor_by(1);
                true
            },
            Key::Home => {
                self.move_cursor_home();
                true
            },
            Key::End => {
                self.move_cursor_end();
                true
            },
            Key::Enter => {
                let text = self.hist[self.hist_pos].clone();
                if text.as_str().unicode_len() > 0 {
                    let ghost pre_cmds = self.cmds.deep_view();
                    self.cmds.push(text);
                    proof {
                        assert(self.cmds.deep_view() =~= pre_cmds.push(old(self).text()));
                    }
                    self.push_hist();
                    self.move_cursor_home();
                }
                true
            },
            Key::Up => {
                self.cursor_col = 0;
                if self.hist_pos + 1 < self.hist.len() {
                    self.hist_pos = self.hist_pos + 1;
                }
                self.move_cursor_end();
                true
            },
            Key::Down => {
                self.cursor_col = 0;
                if self.hist_pos > 0 {
                    self.hist_pos = self.hist_pos - 1;
                }
                self.move_cursor_end();
                true
            },
        }
    }
}

} // verus!
