//! Verified helpers for working with strings at the character level.
use vstd::prelude::*;
use vstd::string::StrSliceExecFns;
use vstd::string::StringExecFns;

verus! {

/// ASCII uppercase conversion for one character: `'a'..='z'` map to
/// `'A'..='Z'`, every other character is unchanged.
pub open spec fn upper_char_spec(c: char) -> char {
    match c {
        'a' => 'A',
        'b' => 'B',
        'c' => 'C',
        'd' => 'D',
        'e' => 'E',
        'f' => 'F',
        'g' => 'G',
        'h' => 'H',
        'i' => 'I',
        'j' => 'J',
        'k' => 'K',
        'l' => 'L',
        'm' => 'M',
        'n' => 'N',
        'o' => 'O',
        'p' => 'P',
        'q' => 'Q',
        'r' => 'R',
        's' => 'S',
        't' => 'T',
        'u' => 'U',
        'v' => 'V',
        'w' => 'W',
        'x' => 'X',
        'y' => 'Y',
        'z' => 'Z',
        _ => c,
    }
}

/// ASCII uppercase conversion of a whole character sequence.
pub open spec fn upper_seq(s: Seq<char>) -> Seq<char> {
    s.map(|_i: int, c: char| upper_char_spec(c))
}

pub fn upper_char(c: char) -> (r: char)
    ensures
        r == upper_char_spec(c),
{
    match c {
        'a' => 'A',
        'b' => 'B',
        'c' => 'C',
        'd' => 'D',
        'e' => 'E',
        'f' => 'F',
        'g' => 'G',
        'h' => 'H',
        'i' => 'I',
        'j' => 'J',
        'k' => 'K',
        'l' => 'L',
        'm' => 'M',
        'n' => 'N',
        'o' => 'O',
        'p' => 'P',
        'q' => 'Q',
        'r' => 'R',
        's' => 'S',
        't' => 'T',
        'u' => 'U',
        'v' => 'V',
        'w' => 'W',
        'x' => 'X',
        'y' => 'Y',
        'z' => 'Z',
        _ => c,
    }
}

/// Relies on `String::push`: appends one character to the end of the string.
#[verifier::external_body]
pub fn push_char(s: &mut String, c: char)
    ensures
        final(s)@ == old(s)@.push(c),
{
    s.push(c)
}

/// ASCII-uppercases a string, character by character.
pub fn str_to_upper(s: &str) -> (r: String)
    ensures
        r@ == upper_seq(s@),
{
    let n = s.unicode_len();
    let mut out = String::new();
    let mut i: usize = 0;
    while i < n
        invariant
            n == s@.len(),
            i <= n,
            out@ == upper_seq(s@).take(i as int),
        decreases n - i,
    {
        let c = s.get_char(i);
        push_char(&mut out, upper_char(c));
        proof {
            assert(upper_seq(s@).take(i + 1) =~= upper_seq(s@).take(i as int).push(
                upper_char_spec(s@[i as int]),
            ));
        }
        i = i + 1;
    }
    proof {
        assert(upper_seq(s@).take(n as int) =~= upper_seq(s@));
    }
    out
}

/// Character-by-character equality test for string slices.
pub fn str_eq_str(a: &str, b: &str) -> (r: bool)
    ensures
        r == (a@ == b@),
{
    let na = a.unicode_len();
    let nb = b.unicode_len();
    if na != nb {
        proof {
            assert(a@ != b@) by {
                if a@ == b@ {
                    assert(a@.len() == b@.len());
                }
            }
        }
        return false;
    }
    let mut i: usize = 0;
    while i < na
        invariant
            na == a@.len(),
            na == b@.len(),
            i <= na,
            forall|j: int| 0 <= j < i ==> a@[j] == b@[j],
        decreases na - i,
    {
        if a.get_char(i) != b.get_char(i) {
            return false;
        }
        i = i + 1;
    }
    proof {
        assert(a@ =~= b@);
    }
    true
}

/// First occurrence of `c` in `s` at or after position `from`.
pub open spec fn find_char_spec(s: Seq<char>, from: int, c: char) -> Option<int>
    decreases s.len() - from,
{
    if from < 0 || from >= s.len() {
        None
    } else if s[from] == c {
        Some(from)
    } else {
        find_char_spec(s, from + 1, c)
    }
}

/// A found index always lies between `from` and the end of the sequence.
pub proof fn lemma_find_char_range(s: Seq<char>, from: int, c: char)
    ensures
        match find_char_spec(s, from, c) {
            Some(i) => from <= i < s.len(),
            None => true,
        },
    decreases s.len() - from,
{
    if 0 <= from < s.len() && s[from] != c {
        lemma_find_char_range(s, from + 1, c);
    }
}

pub proof fn lemma_find_char_props(s: Seq<char>, from: int, c: char)
    requires
        0 <= from <= s.len(),
    ensures
        match find_char_spec(s, from, c) {
            Some(i) => from <= i < s.len() && s[i] == c && forall|j: int|
                from <= j < i ==> s[j] != c,
            None => forall|j: int| from <= j < s.len() ==> s[j] != c,
        },
    decreases s.len() - from,
{
    if from < s.len() && s[from] != c {
        lemma_find_char_props(s, from + 1, c);
    }
}

pub fn find_char_from(s: &str, from: usize, c: char) -> (r: Option<usize>)
    requires
        from <= s@.len(),
    ensures
        match r {
            Some(i) => find_char_spec(s@, from as int, c) == Some(i as int),
            None => find_char_spec(s@, from as int, c) is None,
        },
{
    let n = s.unicode_len();
    let mut i: usize = from;
    while i < n
        invariant
            n == s@.len(),
            from <= i <= n,
            find_char_spec(s@, from as int, c) == find_char_spec(s@, i as int, c),
        decreases n - i,
    {
        if s.get_char(i) == c {
            return Some(i);
        }
        i = i + 1;
    }
    None
}

/// `needle` occurs somewhere in `haystack`.
pub open spec fn contains_spec(haystack: Seq<char>, needle: Seq<char>) -> bool {
    exists|i: int|
        0 <= i <= haystack.len() - needle.len() && #[trigger] haystack.subrange(
            i,
            i + needle.len() as int,
        ) == needle
}

/// Substring search, character by character.
pub fn contains_str(haystack: &str, needle: &str) -> (r: bool)
    ensures
        r == contains_spec(haystack@, needle@),
{
    let n = haystack.unicode_len();
    let m = needle.unicode_len();
    if m > n {
        return false;
    }
    if m == 0 {
        proof {
            assert(haystack@.subrange(0, 0 + needle@.len() as int) =~= needle@);
        }
        return true;
    }
    let mut i: usize = 0;
    while i <= n - m
        invariant
            n == haystack@.len(),
            m == needle@.len(),
            1 <= m <= n,
            i <= n - m + 1,
            forall|t: int|
                0 <= t < i ==> #[trigger] haystack@.subrange(t, t + needle@.len() as int)
                    != needle@,
        decreases n - m - i + 1,
    {
        let piece = haystack.substring_char(i, i + m);
        if str_eq_str(piece, needle) {
            return true;
        }
        i = i + 1;
    }
    false
}

/// Splits `s` into the pieces between occurrences of `sep`, starting at
/// position `from`. Always yields at least one piece.
pub open spec fn split_from(s: Seq<char>, from: int, sep: char) -> Seq<Seq<char>>
    decreases s.len() - from,
    via split_from_decreases
{
    match find_char_spec(s, from, sep) {
        None => seq![s.subrange(from, s.len() as int)],
        Some(i) => seq![s.subrange(from, i)] + split_from(s, i + 1, sep),
    }
}

#[via_fn]
proof fn split_from_decreases(s: Seq<char>, from: int, sep: char) {
    crate::strutil::lemma_find_char_range(s, from, sep);
}

/// Joins pieces with `sep` between them.
pub open spec fn join_spec(parts: Seq<Seq<char>>, sep: char) -> Seq<char>
    decreases parts.len(),
{
    if parts.len() == 0 {
        Seq::empty()
    } else if parts.len() == 1 {
        parts[0]
    } else {
        parts[0] + seq![sep] + join_spec(parts.drop_first(), sep)
    }
}

/// Splits a string on a separator, exactly as the spec-level `split_from`
/// does.
pub fn split_char(s: &str, sep: char) -> (r: Vec<String>)
    ensures
        r.deep_view() == split_from(s@, 0, sep),
        r.len() >= 1,
{
    let n = s.unicode_len();
    let mut out: Vec<String> = Vec::new();
    let mut cur: usize = 0;
    loop
        invariant
            n == s@.len(),
            cur <= n,
            out.deep_view() + split_from(s@, cur as int, sep) == split_from(s@, 0, sep),
        decreases n - cur,
    {
        let ghost prev_dv = out.deep_view();
        match find_char_from(s, cur, sep) {
            Some(i) => {
                proof {
                    lemma_find_char_props(s@, cur as int, sep);
                }
                let piece = s.substring_char(cur, i).to_owned();
                out.push(piece);
                proof {
                    assert(out.deep_view() =~= prev_dv.push(s@.subrange(cur as int, i as int)));
                    assert(out.deep_view() + split_from(s@, i + 1, sep) =~= split_from(s@, 0, sep));
                }
                cur = i + 1;
            },
            None => {
                let piece = s.substring_char(cur, n).to_owned();
                out.push(piece);
                proof {
                    assert(out.deep_view() =~= prev_dv.push(s@.subrange(cur as int, n as int)));
                    assert(out.deep_view() =~= split_from(s@, 0, sep));
                }
                return out;
            },
        }
    }
}

/// Joins the elements of `v` from position `from` on with `sep` between
/// them.
pub fn join_with(v: &Vec<String>, from: usize, sep: char) -> (r: String)
    requires
        from <= v.len(),
    ensures
        r@ == join_spec(v.deep_view().skip(from as int), sep),
    decreases v.len() - from,
{
    if from >= v.len() {
        proof {
            assert(v.deep_view().skip(from as int) =~= Seq::<Seq<char>>::empty());
        }
        String::new()
    } else if from == v.len() - 1 {
        proof {
            assert(v.deep_view().skip(from as int) =~= seq![v@[from as int]@]);
        }
        v[from].clone()
    } else {
        let mut out = v[from].clone();
        push_char(&mut out, sep);
        let rest = join_with(v, from + 1, sep);
        out.append(rest.as_str());
        proof {
            assert(v.deep_view().skip(from as int).drop_first() =~= v.deep_view().skip(
                from as int + 1,
            ));
            assert(out@ =~= join_spec(v.deep_view().skip(from as int), sep));
        }
        out
    }
}

} // verus!
