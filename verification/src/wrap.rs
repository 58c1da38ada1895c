//! Text wrapping: where a string breaks when shown at a given width.
use vstd::prelude::*;
use vstd::string::StrSliceExecFns;

verus! {

/// Defines wrapping points for a string wrapped to a particular width: the
/// character positions each new line starts at.
#[derive(Debug, PartialEq, Eq)]
pub struct StringWrap {
    points: Vec<usize>,
}

/// Text padding for a column: left or right, to a width.
#[derive(Debug, Clone, Copy, PartialEq, Eq)]
pub enum PadText {
    Left(usize),
    Right(usize),
}

impl PadText {
    /// The width the text is padded to, whichever side it is padded on.
    pub fn width(&self) -> (r: usize)
        ensures
            r == (match self {
                PadText::Left(w) => w,
                PadText::Right(w) => w,
            }),
    {
        match self {
            PadText::Left(w) => *w,
            PadText::Right(w) => *w,
        }
    }
}

/// The line and column a character position falls on, given the wrap points:
/// the line of the last point strictly before the position, and the offset
/// from that point.
pub open spec fn idx_pos_spec(points: Seq<int>, idx: int) -> (int, int)
    decreases points.len(),
{
    if points.len() == 0 {
        (idx, 0)
    } else if points.last() < idx {
        (idx - points.last(), points.len() - 1)
    } else {
        idx_pos_spec(points.drop_last(), idx)
    }
}

impl StringWrap {
    /// The wrap points: where each line after the first starts.
    pub closed spec fn points_seq(&self) -> Seq<int> {
        Seq::new(self.points@.len(), |i: int| self.points@[i] as int)
    }

    /// Wrap points always start at zero and strictly increase.
    pub open spec fn wf(&self) -> bool {
        &&& self.points_seq().len() >= 1
        &&& self.points_seq()[0] == 0
        &&& forall|i: int, j: int|
            0 <= i < j < self.points_seq().len() ==> self.points_seq()[i] < self.points_seq()[j]
    }

    /// All wrap points lie inside the text the wrapping was built for.
    pub open spec fn fits(&self, text_len: int) -> bool {
        forall|i: int| 0 <= i < self.points_seq().len() ==> 0 <= #[trigger] self.points_seq()[i]
            <= text_len
    }

    /// Wraps `text` to the given width: a new line starts after the last
    /// space that keeps the line inside the width, or mid-word when a word
    /// alone overflows it.
    pub fn new(text: &str, width: usize) -> (r: StringWrap)
        ensures
            r.wf(),
            r.fits(text@.len() as int),
    {
        let n = text.unicode_len();
        let mut points: Vec<usize> = Vec::new();
        points.push(0);
        let mut last_spc: Option<usize> = None;
        let mut last_split: usize = 0;
        let mut i: usize = 0;
        while i < n
            invariant
                n == text@.len(),
                i <= n,
                points@.len() >= 1,
                points@[0] == 0,
                forall|a: int, b: int| 0 <= a < b < points@.len() ==> points@[a] < points@[b],
                forall|a: int| 0 <= a < points@.len() ==> #[trigger] points@[a] <= i,
                points@.last() == last_split,
                last_split <= i,
                match last_spc {
                    Some(p) => p < i && p < n,
                    None => true,
                },
            decreases n - i,
        {
            let x = i - last_split;
            if x > width {
                match last_spc {
                    Some(p) => {
                        if p + 1 > last_split {
                            points.push(p + 1);
                            last_split = p + 1;
                        } else if i > last_split {
                            points.push(i);
                            last_split = i;
                        }
                    },
                    None => {
                        if i > last_split {
                            points.push(i);
                            last_split = i;
                        }
                    },
                }
            }
            if text.get_char(i) == ' ' {
                last_spc = Some(i);
            }
            i = i + 1;
        }
        let r = StringWrap { points };
        proof {
            assert forall|a: int, b: int|
                0 <= a < b < r.points_seq().len() implies r.points_seq()[a]
                    < r.points_seq()[b] by {
                assert(r.points_seq()[a] == r.points@[a] as int);
            }
            assert(r.points_seq()[0] == 0);
            assert forall|a: int|
                0 <= a < r.points_seq().len() implies 0 <= (#[trigger] r.points_seq()[a])
                    <= text@.len() as int by {
                assert(r.points@[a] <= n);
            }
        }
        r
    }

    /// The x and y offset of the given character position in the wrapped
    /// text.
    pub fn idx_pos(&self, idx: usize) -> (r: (isize, isize))
        requires
            self.wf(),
            idx <= 0x7fffffff,
            self.points_seq().len() <= 0x7fffffff,
            forall|i: int| 0 <= i < self.points_seq().len() ==> #[trigger] self.points_seq()[i]
                <= 0x7fffffff,
        ensures
            (r.0 as int, r.1 as int) == idx_pos_spec(self.points_seq(), idx as int),
    {
        let ghost ps = self.points_seq();
        let mut point: usize = 0;
        let mut line: usize = 0;
        let mut i: usize = 0;
        while i < self.points.len()
            invariant
                self.wf(),
                ps == self.points_seq(),
                idx <= 0x7fffffff,
                ps.len() <= 0x7fffffff,
                i <= ps.len(),
                point <= idx,
                line <= i,
                idx_pos_spec(ps.take(i as int), idx as int) == (idx - point, line as int),
            decreases self.points.len() - i,
        {
            let p = self.points[i];
            proof {
                assert(ps[i as int] == self.points@[i as int] as int);
                assert(ps.take(i + 1).drop_last() =~= ps.take(i as int));
                assert(ps.take(i + 1).last() == ps[i as int]);
            }
            if p < idx {
                point = p;
                line = i;
            } else {
                proof {
                    assert forall|j: int| i <= j < ps.len() implies ps[j] >= idx as int by {
                        if j > i {
                            assert(ps[i as int] < ps[j]);
                        }
                    }
                    lemma_idx_pos_prefix(ps, idx as int, i as int);
                }
                return ((idx - point) as isize, line as isize);
            }
            i = i + 1;
        }
        proof {
            assert(ps.take(ps.len() as int) =~= ps);
        }
        ((idx - point) as isize, line as isize)
    }

    /// Returns the number of lines the string was wrapped to.
    pub fn line_count(&self) -> (r: usize)
        ensures
            r == self.points_seq().len(),
    {
        self.points.len()
    }

    /// Splits the given string at this wrapping's wrap points and hands back
    /// an iterator over the resulting lines.
    pub fn iter_lines<'a>(&'a self, text: &'a str) -> (r: IterLines<'a>)
        requires
            self.wf(),
            self.fits(text@.len() as int),
            self.points_seq().len() < 0x7fffffff,
        ensures
            r.wrap_wf(),
            r.at_start(),
            r.points_of() == self.points_seq(),
            r.text_of() == text@,
            r.line_index() == 0,
    {
        IterLines { text, wrap: self, point: 0 }
    }

    /// The line at a position: the text between one wrap point and the next.
    pub fn line_at(&self, text: &str, k: usize) -> (r: String)
        requires
            self.wf(),
            self.fits(text@.len() as int),
            self.points_seq().len() < 0x7fffffff,
            k < self.points_seq().len(),
        ensures
            r@ == line_of(self.points_seq(), text@, k as int),
    {
        let start: usize = self.points[k];
        let end: usize = if k + 1 < self.points.len() {
            self.points[k + 1]
        } else {
            text.unicode_len()
        };
        proof {
            let q: int = k as int;
            if k + 1 < self.points_seq().len() {
                assert(self.points_seq()[q] < self.points_seq()[q + 1]);
            } else {
                assert(self.points_seq()[q] <= text@.len() as int);
            }
        }
        text.substring_char(start, end).to_owned()
    }
}

/// Positions at or past `idx` never affect where `idx` falls.
proof fn lemma_idx_pos_prefix(points: Seq<int>, idx: int, i: int)
    requires
        0 <= i <= points.len(),
        forall|j: int| i <= j < points.len() ==> points[j] >= idx,
    ensures
        idx_pos_spec(points, idx) == idx_pos_spec(points.take(i), idx),
    decreases points.len() - i,
{
    if i < points.len() {
        assert(points.last() >= idx);
        assert(idx_pos_spec(points, idx) == idx_pos_spec(points.drop_last(), idx));
        assert(points.drop_last() =~= points.take(points.len() - 1));
        assert(idx_pos_spec(points.drop_last(), idx) == idx_pos_spec(
            points.take(points.len() - 1),
            idx,
        ));
        assert forall|j: int|
            i <= j < points.take(points.len() - 1).len() implies #[trigger] points.take(
            points.len() - 1,
        )[j] >= idx by {
            assert(points.take(points.len() - 1)[j] == points[j]);
        }
        lemma_idx_pos_prefix(points.take(points.len() - 1), idx, i);
        assert(points.take(points.len() - 1).take(i) =~= points.take(i));
    } else {
        assert(points.take(i) =~= points);
    }
}

/// The `k`-th wrapped line: the text between wrap point `k` and wrap point
/// `k + 1` (or the end of the text for the last line). For sane wrap points
/// (starting at 0, increasing, inside the text) the lines cover the whole
/// text in order, so wrapping loses and duplicates nothing.
pub open spec fn line_of(points: Seq<int>, text: Seq<char>, k: int) -> Seq<char> {
    let start = points[k];
    let end = if k + 1 < points.len() {
        points[k + 1]
    } else {
        text.len() as int
    };
    text.subrange(start, end)
}

/// Iterates over the lines of a wrapped string.
#[derive(Debug)]
pub struct IterLines<'a> {
    text: &'a str,
    wrap: &'a StringWrap,
    point: usize,
}

impl<'a> IterLines<'a> {
    pub closed spec fn wrap_wf(&self) -> bool {
        &&& self.wrap.wf()
        &&& self.wrap.fits(self.text@.len() as int)
        &&& self.point <= self.wrap.points_seq().len()
        &&& self.wrap.points_seq().len() < 0x7fffffff
    }

    pub closed spec fn at_start(&self) -> bool {
        self.point == 0
    }

    /// The wrap points the lines are cut at.
    pub closed spec fn points_of(&self) -> Seq<int> {
        self.wrap.points_seq()
    }

    /// The text the lines are cut from.
    pub closed spec fn text_of(&self) -> Seq<char> {
        self.text@
    }

    /// The position of the next line to yield.
    pub closed spec fn line_index(&self) -> int {
        self.point as int
    }

    /// The remaining number of lines.
    pub open spec fn remaining(&self) -> int {
        self.points_of().len() - self.line_index()
    }

    /// The next line: exactly the text between the current wrap point and
    /// the next one (or the end of the text).
    pub fn next(&mut self) -> (r: Option<String>)
        requires
            old(self).wrap_wf(),
        ensures
            final(self).wrap_wf(),
            final(self).points_of() == old(self).points_of(),
            final(self).text_of() == old(self).text_of(),
            old(self).remaining() > 0 ==> {
                &&& final(self).line_index() == old(self).line_index() + 1
                &&& match r {
                    Some(piece) => piece@ == line_of(
                        old(self).points_of(),
                        old(self).text_of(),
                        old(self).line_index(),
                    ),
                    None => false,
                }
            },
            old(self).remaining() <= 0 ==> r is None && final(self).line_index() == old(
                self,
            ).line_index(),
    {
        if self.point < self.wrap.points.len() {
            let start: usize = self.wrap.points[self.point];
            let end: usize = if self.point + 1 < self.wrap.points.len() {
                self.wrap.points[self.point + 1]
            } else {
                self.text.unicode_len()
            };
            proof {
                let q: int = self.point as int;
                if self.point + 1 < self.wrap.points_seq().len() {
                    assert(self.wrap.points_seq()[q] < self.wrap.points_seq()[q + 1]);
                } else {
                    assert(self.wrap.points_seq()[q] <= self.text@.len() as int);
                }
            }
            let piece: String = self.text.substring_char(start, end).to_owned();
            self.point = self.point + 1;
            Some(piece)
        } else {
            None
        }
    }
}

} // verus!
