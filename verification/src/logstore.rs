//! The day-bucketed log store model: which day file the next backward page
//! comes from, how a day's text parses into lines, and where a day's file
//! lives. Reading and writing the files themselves is left to the caller;
//! everything it needs to do so is computed here.
use vstd::prelude::*;
use vstd::string::StrSliceExecFns;
use vstd::string::StringExecFns;
use crate::line::{BufferLine, BufferLineV};
use crate::logfmt::{p_line, parse_line, u64_to_dec};
use crate::strutil::{split_from, split_char, push_char};

verus! {

/// A calendar day.
#[derive(Debug, Clone, Copy, PartialEq, Eq)]
pub struct Day {
    pub year: i64,
    /// 1 through 12.
    pub month: i64,
    /// 1 through the month's length.
    pub day: i64,
}

impl Day {
    /// A well-formed calendar day, in a year range that keeps all the
    /// arithmetic on days far away from any machine limit.
    pub open spec fn wf(self) -> bool {
        &&& 1 <= self.month <= 12
        &&& 1 <= self.day <= 31
        &&& -1000000 <= self.year <= 1000000
    }

    /// A total order on days: later days have larger keys.
    pub open spec fn key(self) -> int {
        self.year * 372 + (self.month - 1) * 31 + (self.day - 1)
    }

    /// Whether `year` is a leap year; years before the common era follow the
    /// same pattern mirrored at zero.
    pub open spec fn is_leap_spec(year: i64) -> bool {
        let y = if year >= 0 {
            year as int
        } else {
            -(year as int)
        };
        y % 4 == 0 && (y % 100 != 0 || y % 400 == 0)
    }

    pub fn is_leap(year: i64) -> (r: bool)
        requires
            year > i64::MIN,
        ensures
            r == Day::is_leap_spec(year),
    {
        let y: i64 = if year >= 0 {
            year
        } else {
            -year
        };
        y % 4 == 0 && (y % 100 != 0 || y % 400 == 0)
    }

    /// How many days the given month of the given year has.
    pub open spec fn days_in_month_spec(year: i64, month: i64) -> i64 {
        if month == 2 {
            if Day::is_leap_spec(year) {
                29
            } else {
                28
            }
        } else if month == 4 || month == 6 || month == 9 || month == 11 {
            30
        } else {
            31
        }
    }

    pub fn days_in_month(year: i64, month: i64) -> (r: i64)
        requires
            year > i64::MIN,
        ensures
            r == Day::days_in_month_spec(year, month),
    {
        if month == 2 {
            if Day::is_leap(year) {
                29
            } else {
                28
            }
        } else if month == 4 || month == 6 || month == 9 || month == 11 {
            30
        } else {
            31
        }
    }

    /// Builds a day from raw calendar parts, clamping each part into its
    /// well-formed range.
    pub fn from_parts(year: i64, month: i64, day: i64) -> (r: Day)
        ensures
            r.wf(),
            (1 <= month <= 12 && 1 <= day <= 31 && -1000000 <= year <= 1000000) ==> r == (Day {
                year,
                month,
                day,
            }),
    {
        let y: i64 = if year < -1000000 {
            -1000000
        } else if year > 1000000 {
            1000000
        } else {
            year
        };
        let m: i64 = if month < 1 {
            1
        } else if month > 12 {
            12
        } else {
            month
        };
        let d: i64 = if day < 1 {
            1
        } else if day > 31 {
            31
        } else {
            day
        };
        Day { year: y, month: m, day: d }
    }

    /// The earliest day the model reaches; backward paging stops here.
    pub open spec fn min_day() -> Day {
        Day { year: -1000000i64, month: 1, day: 1 }
    }

    /// The previous calendar day; the earliest day of the model is its own
    /// predecessor.
    pub open spec fn prev_spec(self) -> Day {
        if self == Day::min_day() {
            self
        } else if self.day > 1 {
            Day { year: self.year, month: self.month, day: (self.day - 1) as i64 }
        } else if self.month > 1 {
            Day {
                year: self.year,
                month: (self.month - 1) as i64,
                day: Day::days_in_month_spec(self.year, (self.month - 1) as i64),
            }
        } else {
            Day { year: (self.year - 1) as i64, month: 12, day: 31 }
        }
    }

    /// Steps back one calendar day. The key strictly decreases until the
    /// model's earliest day, so no day is ever visited twice when paging
    /// backward.
    pub fn prev(self) -> (r: Day)
        requires
            self.wf(),
        ensures
            r == self.prev_spec(),
            r.wf(),
            self != Day::min_day() ==> r.key() < self.key(),
    {
        if self.year == -1000000 && self.month == 1 && self.day == 1 {
            self
        } else if self.day > 1 {
            Day { year: self.year, month: self.month, day: self.day - 1 }
        } else if self.month > 1 {
            Day {
                year: self.year,
                month: self.month - 1,
                day: Day::days_in_month(self.year, self.month - 1),
            }
        } else {
            Day { year: self.year - 1, month: 12, day: 31 }
        }
    }
}

/// The decimal text of a day part, with a sign for negative years.
pub open spec fn enc_day_num(n: int) -> Seq<char> {
    crate::logfmt::enc_i64(n)
}

fn day_num_to_dec(n: i64) -> (r: String)
    ensures
        r@ == enc_day_num(n as int),
{
    let mut out = String::new();
    if n < 0 {
        push_char(&mut out, '-');
        let m: u64 = if n == i64::MIN {
            0x8000000000000000u64
        } else {
            (-n) as u64
        };
        let digits = u64_to_dec(m);
        out.append(digits.as_str());
        proof {
            assert(out@ =~= enc_day_num(n as int));
        }
    } else {
        let digits = u64_to_dec(n as u64);
        out.append(digits.as_str());
        proof {
            assert(out@ =~= enc_day_num(n as int));
        }
    }
    out
}

/// The relative path of a day's log file under a buffer's log directory:
/// `dir/year/month/day`.
pub open spec fn day_path_spec(dir: Seq<char>, d: Day) -> Seq<char> {
    dir + seq!['/'] + enc_day_num(d.year as int) + seq!['/'] + enc_day_num(d.month as int) + seq![
        '/',
    ] + enc_day_num(d.day as int)
}

/// Records parsed from already-split day text, in file order, with corrupt
/// records skipped.
pub open spec fn parse_records(parts: Seq<Seq<char>>) -> Seq<BufferLineV>
    decreases parts.len(),
{
    if parts.len() == 0 {
        Seq::empty()
    } else {
        match p_line(parts[0]) {
            Some(l) => seq![l] + parse_records(parts.drop_first()),
            None => parse_records(parts.drop_first()),
        }
    }
}

proof fn lemma_parse_records_snoc(parts: Seq<Seq<char>>, x: Seq<char>)
    ensures
        parse_records(parts.push(x)) == (match p_line(x) {
            Some(l) => parse_records(parts) + seq![l],
            None => parse_records(parts),
        }),
    decreases parts.len(),
{
    if parts.len() == 0 {
        assert(parts.push(x)[0] == x);
        assert(parts.push(x).drop_first() =~= Seq::<Seq<char>>::empty());
        assert(parse_records(parts) == Seq::<BufferLineV>::empty());
        match p_line(x) {
            Some(l) => {
                assert(parse_records(parts.push(x)) == seq![l] + parse_records(
                    parts.push(x).drop_first(),
                ));
                assert(parse_records(parts.push(x).drop_first()) == Seq::<BufferLineV>::empty());
                assert(seq![l] + Seq::<BufferLineV>::empty() =~= Seq::<
                    BufferLineV,
                >::empty() + seq![l]);
                assert(parse_records(parts.push(x)) =~= parse_records(parts) + seq![l]);
            },
            None => {
                assert(parse_records(parts.push(x)) == parse_records(parts.push(x).drop_first()));
                assert(parse_records(parts.push(x).drop_first()) == Seq::<BufferLineV>::empty());
            },
        }
    } else {
        lemma_parse_records_snoc(parts.drop_first(), x);
        assert(parts.push(x)[0] == parts[0]);
        assert(parts.push(x).drop_first() =~= parts.drop_first().push(x));
        assert(parse_records(parts.push(x)) == (match p_line(parts[0]) {
            Some(h) => seq![h] + parse_records(parts.drop_first().push(x)),
            None => parse_records(parts.drop_first().push(x)),
        }));
        match (p_line(parts[0]), p_line(x)) {
            (Some(h), Some(l)) => {
                assert(seq![h] + (parse_records(parts.drop_first()) + seq![l]) =~= (seq![h]
                    + parse_records(parts.drop_first())) + seq![l]);
                assert(parse_records(parts.push(x)) =~= parse_records(parts) + seq![l]);
            },
            (Some(h), None) => {
                assert(parse_records(parts.push(x)) =~= parse_records(parts));
            },
            (None, Some(l)) => {
                assert(parse_records(parts.push(x)) =~= parse_records(parts) + seq![l]);
            },
            (None, None) => {
                assert(parse_records(parts.push(x)) =~= parse_records(parts));
            },
        }
    }
}

/// What one day's file text yields: each line parsed as a record, corrupt
/// lines skipped, and the result reversed so the newest line comes first.
pub open spec fn parse_day_spec(text: Seq<char>) -> Seq<BufferLineV> {
    parse_records(split_from(text, 0, '\n')).reverse()
}

/// Parses one day's file text into lines, newest first; corrupt or blank
/// records are skipped rather than failing the read.
pub fn parse_day_text(text: &str) -> (r: Vec<BufferLine>)
    ensures
        r.deep_view() == parse_day_spec(text@),
{
    let parts = split_char(text, '\n');
    let ghost parts_dv = parts.deep_view();
    let mut kept: Vec<BufferLine> = Vec::new();
    let mut i: usize = 0;
    while i < parts.len()
        invariant
            i <= parts.len(),
            parts_dv == parts.deep_view(),
            kept.deep_view() == parse_records(parts_dv.take(i as int)),
        decreases parts.len() - i,
    {
        let ghost prev = kept.deep_view();
        match parse_line(parts[i].as_str()) {
            Some(l) => {
                kept.push(l);
                proof {
                    lemma_parse_records_snoc(parts_dv.take(i as int), parts_dv[i as int]);
                    assert(parts_dv.take(i as int).push(parts_dv[i as int]) =~= parts_dv.take(
                        i + 1,
                    ));
                    assert(kept.deep_view() =~= prev + seq![l@]);
                    assert(kept.deep_view() =~= parse_records(parts_dv.take(i + 1)));
                }
            },
            None => {
                proof {
                    lemma_parse_records_snoc(parts_dv.take(i as int), parts_dv[i as int]);
                    assert(parts_dv.take(i as int).push(parts_dv[i as int]) =~= parts_dv.take(
                        i + 1,
                    ));
                }
            },
        }
        i = i + 1;
    }
    proof {
        assert(parts_dv.take(parts.len() as int) =~= parts_dv);
    }
    let mut out: Vec<BufferLine> = Vec::new();
    let mut j: usize = kept.len();
    while j > 0
        invariant
            j <= kept.len(),
            out.deep_view() == kept.deep_view().subrange(j as int, kept.len() as int).reverse(),
        decreases j,
    {
        let ghost prev = out.deep_view();
        j = j - 1;
        out.push(kept[j].clone());
        proof {
            let kd = kept.deep_view();
            assert(out.deep_view() =~= prev.push(kd[j as int]));
            assert(out.deep_view() =~= kd.subrange(j as int, kd.len() as int).reverse());
        }
    }
    proof {
        assert(kept.deep_view().subrange(0, kept.deep_view().len() as int) =~= kept.deep_view());
    }
    out
}

/// A handle on one buffer's on-disk logs: the directory they live under and
/// the next day to read when paging backward.
#[derive(Debug, Clone, PartialEq, Eq)]
pub struct BufferLog {
    dir: String,
    next_read_day: Day,
}

impl BufferLog {
    /// The directory this buffer's logs live under.
    pub closed spec fn dir_spec(&self) -> Seq<char> {
        self.dir@
    }

    /// The day the next backward page will be read from.
    pub closed spec fn cursor(&self) -> Day {
        self.next_read_day
    }

    pub open spec fn wf(&self) -> bool {
        self.cursor().wf()
    }

    /// A fresh log handle: paging starts from today and walks backward.
    pub fn new(dir: String, today: Day) -> (r: BufferLog)
        requires
            today.wf(),
        ensures
            r.wf(),
            r.dir_spec() == dir@,
            r.cursor() == today,
    {
        BufferLog { dir, next_read_day: today }
    }

    /// The relative path of the file the next backward page comes from.
    pub fn next_file(&self) -> (r: String)
        ensures
            r@ == day_path_spec(self.dir_spec(), self.cursor()),
    {
        self.file_for_day(&self.next_read_day)
    }

    /// The relative path of the file for the given day.
    pub fn file_for_day(&self, day: &Day) -> (r: String)
        ensures
            r@ == day_path_spec(self.dir_spec(), *day),
    {
        let mut out = self.dir.clone();
        push_char(&mut out, '/');
        let y = day_num_to_dec(day.year);
        out.append(y.as_str());
        push_char(&mut out, '/');
        let m = day_num_to_dec(day.month);
        out.append(m.as_str());
        push_char(&mut out, '/');
        let d = day_num_to_dec(day.day);
        out.append(d.as_str());
        proof {
            assert(out@ =~= day_path_spec(self.dir_spec(), *day));
        }
        out
    }

    /// Takes one backward page: parses the text of the cursor day's file (or
    /// nothing, when the file does not exist) and moves the cursor one day
    /// further back. The cursor's key strictly decreases, so no day's file is
    /// ever read twice.
    pub fn fetch_lines(&mut self, text: Option<&str>) -> (r: Vec<BufferLine>)
        requires
            old(self).wf(),
        ensures
            r.deep_view() == (match text {
                Some(t) => parse_day_spec(t@),
                None => Seq::<BufferLineV>::empty(),
            }),
            final(self).cursor() == old(self).cursor().prev_spec(),
            old(self).cursor() != Day::min_day() ==> final(self).cursor().key() < old(self).cursor().key(),
            final(self).dir_spec() == old(self).dir_spec(),
            final(self).wf(),
    {
        let lines = match text {
            Some(t) => parse_day_text(t),
            None => {
                let empty: Vec<BufferLine> = Vec::new();
                proof {
                    assert(empty.deep_view() =~= Seq::<BufferLineV>::empty());
                }
                empty
            },
        };
        self.next_read_day = self.next_read_day.prev();
        lines
    }
}

/// A newline-free sequence splits into just itself.
proof fn lemma_split_single(s: Seq<char>)
    requires
        crate::logfmt::no_newline(s),
    ensures
        split_from(s, 0, '\n') == seq![s],
{
    lemma_no_sep_find(s, 0);
    assert(s.subrange(0, s.len() as int) =~= s);
}

proof fn lemma_no_sep_find(s: Seq<char>, from: int)
    requires
        crate::logfmt::no_newline(s),
        0 <= from <= s.len(),
    ensures
        crate::strutil::find_char_spec(s, from, '\n') is None,
    decreases s.len() - from,
{
    if from < s.len() {
        assert(s[from] != '\n');
        lemma_no_sep_find(s, from + 1);
    }
}

/// One encoded record written as one line of a day file comes back as
/// exactly that line: the record format, the newline framing, and the
/// newest-first ordering lose nothing.
pub proof fn lemma_day_roundtrip(l: crate::line::BufferLineV)
    ensures
        parse_day_spec(crate::logfmt::enc_line(l)) == seq![l],
{
    let rec = crate::logfmt::enc_line(l);
    crate::logfmt::lemma_enc_line_no_newline(l);
    lemma_split_single(rec);
    crate::logfmt::lemma_line_roundtrip(l);
    assert(parse_records(seq![rec]) =~= seq![l]) by {
        assert(seq![rec][0] == rec);
        assert(seq![rec].drop_first() =~= Seq::<Seq<char>>::empty());
        assert(parse_records(seq![rec].drop_first()) == Seq::<BufferLineV>::empty());
        assert(seq![l] + Seq::<BufferLineV>::empty() =~= seq![l]);
    }
    assert(seq![l].reverse() =~= seq![l]);
}

} // verus!
