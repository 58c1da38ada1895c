//! The on-disk text format for buffer lines: one record per line, in the
//! shape of a JSON object. Encoding and parsing are exact inverses, which is
//! proved here; corrupt records parse to `None` and are skipped by the log
//! reader.
use vstd::prelude::*;
use vstd::string::StrSliceExecFns;
use crate::strutil::push_char;

verus! {

// ---------------------------------------------------------------------------
// Decimal digits
// ---------------------------------------------------------------------------
pub open spec fn is_digit(c: char) -> bool {
    c == '0' || c == '1' || c == '2' || c == '3' || c == '4' || c == '5' || c == '6' || c == '7'
        || c == '8' || c == '9'
}

pub open spec fn digit_val(c: char) -> nat {
    match c {
        '0' => 0,
        '1' => 1,
        '2' => 2,
        '3' => 3,
        '4' => 4,
        '5' => 5,
        '6' => 6,
        '7' => 7,
        '8' => 8,
        '9' => 9,
        _ => 0,
    }
}

pub open spec fn digit_char(d: nat) -> char {
    if d == 0 {
        '0'
    } else if d == 1 {
        '1'
    } else if d == 2 {
        '2'
    } else if d == 3 {
        '3'
    } else if d == 4 {
        '4'
    } else if d == 5 {
        '5'
    } else if d == 6 {
        '6'
    } else if d == 7 {
        '7'
    } else if d == 8 {
        '8'
    } else {
        '9'
    }
}

/// The decimal digits of `n`, most significant first.
pub open spec fn dec_digits(n: nat) -> Seq<char>
    decreases n,
{
    if n < 10 {
        seq![digit_char(n)]
    } else {
        dec_digits(n / 10).push(digit_char(n % 10))
    }
}

/// The value of a digit sequence read as a decimal number.
pub open spec fn dec_val(s: Seq<char>) -> nat
    decreases s.len(),
{
    if s.len() == 0 {
        0
    } else {
        dec_val(s.drop_last()) * 10 + digit_val(s.last())
    }
}

pub open spec fn all_digits(s: Seq<char>) -> bool {
    forall|i: int| 0 <= i < s.len() ==> is_digit(#[trigger] s[i])
}

pub proof fn lemma_dec_digits_all_digits(n: nat)
    ensures
        all_digits(dec_digits(n)),
        dec_digits(n).len() >= 1,
    decreases n,
{
    if n >= 10 {
        lemma_dec_digits_all_digits(n / 10);
        assert forall|i: int| 0 <= i < dec_digits(n).len() implies is_digit(
            #[trigger] dec_digits(n)[i],
        ) by {
            if i < dec_digits(n).len() - 1 {
                assert(dec_digits(n)[i] == dec_digits(n / 10)[i]);
            }
        }
    }
}

/// Reading the digits of `n` back gives `n`.
pub proof fn lemma_dec_val_of_digits(n: nat)
    ensures
        dec_val(dec_digits(n)) == n,
    decreases n,
{
    if n < 10 {
        assert(dec_digits(n) == seq![digit_char(n)]);
        assert(dec_digits(n).drop_last() =~= Seq::<char>::empty());
        assert(dec_digits(n).last() == digit_char(n));
        assert(digit_val(digit_char(n)) == n);
        assert(dec_val(Seq::<char>::empty()) == 0);
    } else {
        lemma_dec_val_of_digits(n / 10);
        assert(dec_digits(n) == dec_digits(n / 10).push(digit_char(n % 10)));
        assert(dec_digits(n).drop_last() =~= dec_digits(n / 10));
        assert(dec_digits(n).last() == digit_char(n % 10));
        assert(digit_val(digit_char(n % 10)) == n % 10);
        assert(dec_val(dec_digits(n)) == dec_val(dec_digits(n / 10)) * 10 + digit_val(
            digit_char(n % 10),
        ));
        vstd::arithmetic::div_mod::lemma_fundamental_div_mod(n as int, 10);
    }
}

/// The first position at or after `i` that does not hold a digit.
pub open spec fn scan_digits(s: Seq<char>, i: int) -> int
    decreases s.len() - i,
{
    if i < 0 || i >= s.len() {
        i
    } else if is_digit(s[i]) {
        scan_digits(s, i + 1)
    } else {
        i
    }
}

pub proof fn lemma_scan_digits(s: Seq<char>, i: int)
    requires
        0 <= i <= s.len(),
    ensures
        i <= scan_digits(s, i) <= s.len(),
        all_digits(s.subrange(i, scan_digits(s, i))),
        scan_digits(s, i) < s.len() ==> !is_digit(s[scan_digits(s, i)]),
    decreases s.len() - i,
{
    if i < s.len() && is_digit(s[i]) {
        lemma_scan_digits(s, i + 1);
        let j = scan_digits(s, i);
        assert forall|k: int| 0 <= k < j - i implies is_digit(#[trigger] s.subrange(i, j)[k]) by {
            if k > 0 {
                assert(s.subrange(i + 1, j)[k - 1] == s.subrange(i, j)[k]);
            }
        }
    }
}

/// Scanning a stretch that is all digits, followed by a non-digit (or the
/// end), stops exactly at its end.
pub proof fn lemma_scan_digits_exact(s: Seq<char>, i: int, j: int)
    requires
        0 <= i <= j <= s.len(),
        all_digits(s.subrange(i, j)),
        j == s.len() || !is_digit(s[j]),
    ensures
        scan_digits(s, i) == j,
    decreases j - i,
{
    if i < j {
        assert(is_digit(s[i])) by {
            assert(s.subrange(i, j)[0] == s[i]);
        }
        assert(all_digits(s.subrange(i + 1, j))) by {
            assert forall|k: int| 0 <= k < j - i - 1 implies is_digit(
                #[trigger] s.subrange(i + 1, j)[k],
            ) by {
                assert(s.subrange(i, j)[k + 1] == s.subrange(i + 1, j)[k]);
            }
        }
        lemma_scan_digits_exact(s, i + 1, j);
    }
}

/// Parses an unsigned decimal number at position `i`: the digit stretch from
/// `i` on, read as a number, when there is at least one digit and the value
/// fits in a `u64`.
pub open spec fn p_u64(s: Seq<char>, i: int) -> Option<(u64, int)> {
    let j = scan_digits(s, i);
    if j == i {
        None
    } else if dec_val(s.subrange(i, j)) <= u64::MAX {
        Some((dec_val(s.subrange(i, j)) as u64, j))
    } else {
        None
    }
}

/// Parsing the digits of `n`, with no digit following them, gives back `n`.
pub proof fn lemma_p_u64_of_digits(s: Seq<char>, i: int, n: u64)
    requires
        0 <= i,
        i + dec_digits(n as nat).len() <= s.len(),
        s.subrange(i, i + dec_digits(n as nat).len() as int) == dec_digits(n as nat),
        i + dec_digits(n as nat).len() == s.len() || !is_digit(
            s[i + dec_digits(n as nat).len() as int],
        ),
    ensures
        p_u64(s, i) == Some((n, i + dec_digits(n as nat).len() as int)),
{
    let d = dec_digits(n as nat);
    let j = i + d.len() as int;
    lemma_dec_digits_all_digits(n as nat);
    lemma_scan_digits_exact(s, i, j);
    lemma_dec_val_of_digits(n as nat);
}

// ---------------------------------------------------------------------------
// Escaped, quoted strings
// ---------------------------------------------------------------------------
/// The escape sequence one character is written as inside quotes.
pub open spec fn escape_char(c: char) -> Seq<char> {
    if c == '"' {
        seq!['\\', '"']
    } else if c == '\\' {
        seq!['\\', '\\']
    } else if c == '\n' {
        seq!['\\', 'n']
    } else if c == '\r' {
        seq!['\\', 'r']
    } else if c == '\t' {
        seq!['\\', 't']
    } else {
        seq![c]
    }
}

/// What an escape code after a backslash stands for.
pub open spec fn unescape_char(c: char) -> Option<char> {
    if c == '"' {
        Some('"')
    } else if c == '\\' {
        Some('\\')
    } else if c == 'n' {
        Some('\n')
    } else if c == 'r' {
        Some('\r')
    } else if c == 't' {
        Some('\t')
    } else {
        None
    }
}

/// A whole character sequence, escaped.
pub open spec fn escape_seq(s: Seq<char>) -> Seq<char>
    decreases s.len(),
{
    if s.len() == 0 {
        Seq::empty()
    } else {
        escape_char(s[0]) + escape_seq(s.drop_first())
    }
}

/// A string as it stands in a record: quoted and escaped.
pub open spec fn enc_qs(v: Seq<char>) -> Seq<char> {
    seq!['"'] + escape_seq(v) + seq!['"']
}

/// Parses the remainder of a quoted string (after the opening quote):
/// everything up to the closing quote, with escapes decoded.
pub open spec fn p_qchars(s: Seq<char>, i: int) -> Option<(Seq<char>, int)>
    decreases s.len() - i,
{
    if i < 0 || i >= s.len() {
        None
    } else if s[i] == '"' {
        Some((Seq::empty(), i + 1))
    } else if s[i] == '\\' {
        if i + 1 >= s.len() {
            None
        } else {
            match unescape_char(s[i + 1]) {
                Some(c) => match p_qchars(s, i + 2) {
                    Some((v, j)) => Some((seq![c] + v, j)),
                    None => None,
                },
                None => None,
            }
        }
    } else {
        match p_qchars(s, i + 1) {
            Some((v, j)) => Some((seq![s[i]] + v, j)),
            None => None,
        }
    }
}

/// Parses a quoted string at position `i` (including the opening quote).
pub open spec fn p_qs(s: Seq<char>, i: int) -> Option<(Seq<char>, int)> {
    if 0 <= i < s.len() && s[i] == '"' {
        p_qchars(s, i + 1)
    } else {
        None
    }
}

/// Parsing an escaped stretch followed by a closing quote gives back the
/// original characters.
pub proof fn lemma_p_qchars_of_escape(s: Seq<char>, i: int, v: Seq<char>)
    requires
        0 <= i,
        i + escape_seq(v).len() + 1 <= s.len(),
        s.subrange(i, i + escape_seq(v).len() as int) == escape_seq(v),
        s[i + escape_seq(v).len() as int] == '"',
    ensures
        p_qchars(s, i) == Some((v, i + escape_seq(v).len() + 1)),
    decreases v.len(),
{
    let e = escape_seq(v);
    if v.len() == 0 {
        assert(s[i] == '"');
    } else {
        let e0 = escape_char(v[0]);
        let rest = escape_seq(v.drop_first());
        assert(e == e0 + rest);
        assert forall|k: int| 0 <= k < e0.len() implies s[i + k] == e0[k] by {
            assert(s.subrange(i, i + e.len() as int)[k] == (e0 + rest)[k]);
        }
        assert(s.subrange(i + e0.len() as int, i + e.len() as int) =~= rest) by {
            assert forall|k: int| 0 <= k < rest.len() implies s.subrange(
                i + e0.len() as int,
                i + e.len() as int,
            )[k] == rest[k] by {
                assert(s.subrange(i, i + e.len() as int)[e0.len() + k] == (e0 + rest)[e0.len() + k]);
            }
        }
        lemma_p_qchars_of_escape(s, i + e0.len() as int, v.drop_first());
        if v[0] == '"' || v[0] == '\\' || v[0] == '\n' || v[0] == '\r' || v[0] == '\t' {
            assert(s[i + 0] == e0[0]);
            assert(s[i + 1] == e0[1]);
            assert(s[i] == '\\');
            assert(unescape_char(s[i + 1]) == Some(v[0]));
            assert(seq![v[0]] + v.drop_first() =~= v);
        } else {
            assert(e0[0] == v[0]);
            assert(s[i + 0] == e0[0]);
            assert(s[i] != '"' && s[i] != '\\');
            assert(seq![v[0]] + v.drop_first() =~= v);
        }
    }
}

/// Parsing a quoted, escaped string gives back the original characters.
pub proof fn lemma_p_qs_of_enc(s: Seq<char>, i: int, v: Seq<char>)
    requires
        0 <= i,
        i + enc_qs(v).len() <= s.len(),
        s.subrange(i, i + enc_qs(v).len() as int) == enc_qs(v),
    ensures
        p_qs(s, i) == Some((v, i + enc_qs(v).len() as int)),
{
    let q = enc_qs(v);
    let e = escape_seq(v);
    assert forall|k: int| 0 <= k < q.len() implies s[i + k] == q[k] by {
        assert(s.subrange(i, i + q.len() as int)[k] == q[k]);
    }
    assert(s[i + 0] == q[0]);
    assert(q[0] == '"');
    assert(s.subrange(i + 1, i + 1 + e.len() as int) =~= e) by {
        assert forall|k: int| 0 <= k < e.len() implies s.subrange(i + 1, i + 1 + e.len() as int)[k]
            == e[k] by {
            assert(s[i + 1 + k] == q[1 + k]);
            assert(q[1 + k] == e[k]);
        }
    }
    assert(s[i + 1 + e.len() as int] == '"') by {
        assert(q[1 + e.len() as int] == '"');
    }
    lemma_p_qchars_of_escape(s, i + 1, v);
}

// ---------------------------------------------------------------------------
// Literal pieces
// ---------------------------------------------------------------------------
/// Expects the literal `lit` at position `i` and steps past it.
pub open spec fn p_lit(s: Seq<char>, i: int, lit: Seq<char>) -> Option<int> {
    if 0 <= i && i + lit.len() <= s.len() && s.subrange(i, i + lit.len() as int) == lit {
        Some(i + lit.len() as int)
    } else {
        None
    }
}

/// A literal fails to match wherever one in-bounds character differs.
pub proof fn lemma_p_lit_mismatch(s: Seq<char>, i: int, lit: Seq<char>, k: int)
    requires
        0 <= k < lit.len(),
        0 <= i,
        i + lit.len() <= s.len() ==> s[i + k] != lit[k],
    ensures
        p_lit(s, i, lit) is None,
{
    if i + lit.len() <= s.len() {
        assert(s.subrange(i, i + lit.len() as int)[k] == s[i + k]);
    }
}

/// A piece of an encoding embedded in a larger sequence is found at its
/// offsets unchanged.
pub proof fn lemma_subrange_part(s: Seq<char>, i: int, whole: Seq<char>, a: int, b: int)
    requires
        0 <= i,
        i + whole.len() <= s.len(),
        s.subrange(i, i + whole.len() as int) == whole,
        0 <= a <= b <= whole.len(),
    ensures
        s.subrange(i + a, i + b) == whole.subrange(a, b),
{
    assert forall|k: int| 0 <= k < b - a implies s.subrange(i + a, i + b)[k] == whole.subrange(
        a,
        b,
    )[k] by {
        assert(s.subrange(i, i + whole.len() as int)[a + k] == whole[a + k]);
    }
    assert(s.subrange(i + a, i + b) =~= whole.subrange(a, b));
}

// ---------------------------------------------------------------------------
// Signed numbers
// ---------------------------------------------------------------------------
/// A signed decimal number as it stands in a record.
pub open spec fn enc_i64(n: int) -> Seq<char> {
    if n < 0 {
        seq!['-'] + dec_digits((-n) as nat)
    } else {
        dec_digits(n as nat)
    }
}

/// Parses a signed decimal number at position `i`.
pub open spec fn p_i64(s: Seq<char>, i: int) -> Option<(i64, int)> {
    if 0 <= i < s.len() && s[i] == '-' {
        match p_u64(s, i + 1) {
            Some((v, j)) => if v <= 0x8000000000000000u64 {
                Some(((-(v as int)) as i64, j))
            } else {
                None
            },
            None => None,
        }
    } else {
        match p_u64(s, i) {
            Some((v, j)) => if v <= i64::MAX as u64 {
                Some((v as i64, j))
            } else {
                None
            },
            None => None,
        }
    }
}

/// Parsing an encoded signed number, with no digit following it, gives it
/// back.
pub proof fn lemma_p_i64_of_enc(s: Seq<char>, i: int, n: i64)
    requires
        0 <= i,
        i + enc_i64(n as int).len() <= s.len(),
        s.subrange(i, i + enc_i64(n as int).len() as int) == enc_i64(n as int),
        i + enc_i64(n as int).len() == s.len() || !is_digit(s[i + enc_i64(n as int).len() as int]),
    ensures
        p_i64(s, i) == Some((n, i + enc_i64(n as int).len() as int)),
{
    let e = enc_i64(n as int);
    if n < 0 {
        let m = ((-(n as int)) as u64);
        let d = dec_digits(m as nat);
        assert(e == seq!['-'] + d);
        assert(s[i + 0] == e[0]);
        assert(e[0] == '-');
        lemma_subrange_part(s, i, e, 1, e.len() as int);
        assert(e.subrange(1, e.len() as int) =~= d);
        lemma_p_u64_of_digits(s, i + 1, m);
        assert(p_u64(s, i + 1) == Some((m, i + e.len() as int)));
        assert(m <= 0x8000000000000000u64);
        assert((-(m as int)) as i64 == n);
    } else {
        let d = dec_digits(n as nat);
        lemma_dec_digits_all_digits(n as nat);
        assert(s[i + 0] == e[0]);
        assert(d[0] == e[0]);
        assert(is_digit(d[0]));
        assert(s[i] != '-');
        lemma_p_u64_of_digits(s, i, n as u64);
    }
}

// ---------------------------------------------------------------------------
// The record format
// ---------------------------------------------------------------------------
pub open spec fn lit_id() -> Seq<char> {
    "{\"id\":"@
}

pub open spec fn lit_time() -> Seq<char> {
    ",\"time\":"@
}

pub open spec fn lit_data() -> Seq<char> {
    ",\"data\":"@
}

pub open spec fn lit_rbrace() -> Seq<char> {
    "}"@
}

pub open spec fn lit_null() -> Seq<char> {
    "null"@
}

pub open spec fn lit_nick_open() -> Seq<char> {
    "{\"nick\":"@
}

pub open spec fn lit_ident() -> Seq<char> {
    ",\"ident\":"@
}

pub open spec fn lit_host() -> Seq<char> {
    ",\"host\":"@
}

pub open spec fn lit_k_priv() -> Seq<char> {
    "\"PrivMsg\""@
}

pub open spec fn lit_k_notice() -> Seq<char> {
    "\"Notice\""@
}

pub open spec fn lit_k_action() -> Seq<char> {
    "\"Action\""@
}

pub open spec fn lit_k_status() -> Seq<char> {
    "\"Status\""@
}

pub open spec fn lit_msg_open() -> Seq<char> {
    "{\"type\":\"Message\",\"kind\":"@
}

pub open spec fn lit_from() -> Seq<char> {
    ",\"from\":"@
}

pub open spec fn lit_msg_field() -> Seq<char> {
    ",\"msg\":"@
}

pub open spec fn lit_topic_open() -> Seq<char> {
    "{\"type\":\"Topic\",\"by\":"@
}

pub open spec fn lit_topic_field() -> Seq<char> {
    ",\"topic\":"@
}

pub open spec fn lit_join_open() -> Seq<char> {
    "{\"type\":\"Join\",\"user\":"@
}

pub open spec fn lit_part_open() -> Seq<char> {
    "{\"type\":\"Part\",\"user\":"@
}

pub open spec fn lit_reason() -> Seq<char> {
    ",\"reason\":"@
}

pub open spec fn lit_kick_open() -> Seq<char> {
    "{\"type\":\"Kick\",\"by\":"@
}

pub open spec fn lit_user_field() -> Seq<char> {
    ",\"user\":"@
}

pub open spec fn lit_quit_open() -> Seq<char> {
    "{\"type\":\"Quit\",\"user\":"@
}

pub open spec fn lit_nick_variant_open() -> Seq<char> {
    "{\"type\":\"Nick\",\"user\":"@
}

pub open spec fn lit_new() -> Seq<char> {
    ",\"new\":"@
}

/// An optional string as it stands in a record.
pub open spec fn enc_opt(o: Option<Seq<char>>) -> Seq<char> {
    match o {
        None => lit_null(),
        Some(v) => enc_qs(v),
    }
}

/// Parses `null` or a quoted string.
pub open spec fn p_opt(s: Seq<char>, i: int) -> Option<(Option<Seq<char>>, int)> {
    match p_lit(s, i, lit_null()) {
        Some(j) => Some((None, j)),
        None => match p_qs(s, i) {
            Some((v, j)) => Some((Some(v), j)),
            None => None,
        },
    }
}

/// A line kind as it stands in a record: a quoted name, or the bare numeric
/// code for a server response.
pub open spec fn enc_kind(k: crate::line::MsgKind) -> Seq<char> {
    match k {
        crate::line::MsgKind::PrivMsg => lit_k_priv(),
        crate::line::MsgKind::Notice => lit_k_notice(),
        crate::line::MsgKind::Action => lit_k_action(),
        crate::line::MsgKind::Status => lit_k_status(),
        crate::line::MsgKind::Response(c) => dec_digits(c as nat),
    }
}

pub open spec fn p_kind(s: Seq<char>, i: int) -> Option<(crate::line::MsgKind, int)> {
    match p_lit(s, i, lit_k_priv()) {
        Some(j) => Some((crate::line::MsgKind::PrivMsg, j)),
        None => match p_lit(s, i, lit_k_notice()) {
            Some(j) => Some((crate::line::MsgKind::Notice, j)),
            None => match p_lit(s, i, lit_k_action()) {
                Some(j) => Some((crate::line::MsgKind::Action, j)),
                None => match p_lit(s, i, lit_k_status()) {
                    Some(j) => Some((crate::line::MsgKind::Status, j)),
                    None => match p_u64(s, i) {
                        Some((v, j)) => if v <= u16::MAX as u64 {
                            Some((crate::line::MsgKind::Response(v as u16), j))
                        } else {
                            None
                        },
                        None => None,
                    },
                },
            },
        },
    }
}

/// A user as it stands in a record.
pub open spec fn enc_user(u: crate::line::UserV) -> Seq<char> {
    lit_nick_open() + enc_qs(u.nick) + lit_ident() + enc_qs(u.ident) + lit_host() + enc_qs(u.host)
        + lit_rbrace()
}

pub open spec fn p_user(s: Seq<char>, i: int) -> Option<(crate::line::UserV, int)> {
    match p_lit(s, i, lit_nick_open()) {
        Some(i1) => match p_qs(s, i1) {
            Some((nick, i2)) => match p_lit(s, i2, lit_ident()) {
                Some(i3) => match p_qs(s, i3) {
                    Some((ident, i4)) => match p_lit(s, i4, lit_host()) {
                        Some(i5) => match p_qs(s, i5) {
                            Some((host, i6)) => match p_lit(s, i6, lit_rbrace()) {
                                Some(i7) => Some(
                                    (crate::line::UserV { nick, ident, host }, i7),
                                ),
                                None => None,
                            },
                            None => None,
                        },
                        None => None,
                    },
                    None => None,
                },
                None => None,
            },
            None => None,
        },
        None => None,
    }
}

/// A line payload as it stands in a record.
pub open spec fn enc_data(d: crate::line::LineDataV) -> Seq<char> {
    match d {
        crate::line::LineDataV::Message { kind, from, msg } => lit_msg_open() + enc_kind(kind)
            + lit_from() + enc_qs(from) + lit_msg_field() + enc_qs(msg) + lit_rbrace(),
        crate::line::LineDataV::Topic { by, topic } => lit_topic_open() + enc_opt(by)
            + lit_topic_field() + enc_qs(topic) + lit_rbrace(),
        crate::line::LineDataV::Join { user } => lit_join_open() + enc_user(user) + lit_rbrace(),
        crate::line::LineDataV::Part { user, reason } => lit_part_open() + enc_user(user)
            + lit_reason() + enc_qs(reason) + lit_rbrace(),
        crate::line::LineDataV::Kick { by, user, reason } => lit_kick_open() + enc_user(by)
            + lit_user_field() + enc_qs(user) + lit_reason() + enc_qs(reason) + lit_rbrace(),
        crate::line::LineDataV::Quit { user, msg } => lit_quit_open() + enc_user(user)
            + lit_msg_field() + enc_opt(msg) + lit_rbrace(),
        crate::line::LineDataV::Nick { user, new } => lit_nick_variant_open() + enc_user(user)
            + lit_new() + enc_qs(new) + lit_rbrace(),
    }
}

pub open spec fn p_data(s: Seq<char>, i: int) -> Option<(crate::line::LineDataV, int)> {
    match p_lit(s, i, lit_msg_open()) {
        Some(i1) => match p_kind(s, i1) {
            Some((kind, i2)) => match p_lit(s, i2, lit_from()) {
                Some(i3) => match p_qs(s, i3) {
                    Some((from, i4)) => match p_lit(s, i4, lit_msg_field()) {
                        Some(i5) => match p_qs(s, i5) {
                            Some((msg, i6)) => match p_lit(s, i6, lit_rbrace()) {
                                Some(i7) => Some(
                                    (crate::line::LineDataV::Message { kind, from, msg }, i7),
                                ),
                                None => None,
                            },
                            None => None,
                        },
                        None => None,
                    },
                    None => None,
                },
                None => None,
            },
            None => None,
        },
        None => match p_lit(s, i, lit_topic_open()) {
            Some(i1) => match p_opt(s, i1) {
                Some((by, i2)) => match p_lit(s, i2, lit_topic_field()) {
                    Some(i3) => match p_qs(s, i3) {
                        Some((topic, i4)) => match p_lit(s, i4, lit_rbrace()) {
                            Some(i5) => Some((crate::line::LineDataV::Topic { by, topic }, i5)),
                            None => None,
                        },
                        None => None,
                    },
                    None => None,
                },
                None => None,
            },
            None => match p_lit(s, i, lit_join_open()) {
                Some(i1) => match p_user(s, i1) {
                    Some((user, i2)) => match p_lit(s, i2, lit_rbrace()) {
                        Some(i3) => Some((crate::line::LineDataV::Join { user }, i3)),
                        None => None,
                    },
                    None => None,
                },
                None => match p_lit(s, i, lit_part_open()) {
                    Some(i1) => match p_user(s, i1) {
                        Some((user, i2)) => match p_lit(s, i2, lit_reason()) {
                            Some(i3) => match p_qs(s, i3) {
                                Some((reason, i4)) => match p_lit(s, i4, lit_rbrace()) {
                                    Some(i5) => Some(
                                        (crate::line::LineDataV::Part { user, reason }, i5),
                                    ),
                                    None => None,
                                },
                                None => None,
                            },
                            None => None,
                        },
                        None => None,
                    },
                    None => match p_lit(s, i, lit_kick_open()) {
                        Some(i1) => match p_user(s, i1) {
                            Some((by, i2)) => match p_lit(s, i2, lit_user_field()) {
                                Some(i3) => match p_qs(s, i3) {
                                    Some((user, i4)) => match p_lit(s, i4, lit_reason()) {
                                        Some(i5) => match p_qs(s, i5) {
                                            Some((reason, i6)) => match p_lit(
                                                s,
                                                i6,
                                                lit_rbrace(),
                                            ) {
                                                Some(i7) => Some(
                                                    (
                                                        crate::line::LineDataV::Kick {
                                                            by,
                                                            user,
                                                            reason,
                                                        },
                                                        i7,
                                                    ),
                                                ),
                                                None => None,
                                            },
                                            None => None,
                                        },
                                        None => None,
                                    },
                                    None => None,
                                },
                                None => None,
                            },
                            None => None,
                        },
                        None => match p_lit(s, i, lit_quit_open()) {
                            Some(i1) => match p_user(s, i1) {
                                Some((user, i2)) => match p_lit(s, i2, lit_msg_field()) {
                                    Some(i3) => match p_opt(s, i3) {
                                        Some((msg, i4)) => match p_lit(s, i4, lit_rbrace()) {
                                            Some(i5) => Some(
                                                (crate::line::LineDataV::Quit { user, msg }, i5),
                                            ),
                                            None => None,
                                        },
                                        None => None,
                                    },
                                    None => None,
                                },
                                None => None,
                            },
                            None => match p_lit(s, i, lit_nick_variant_open()) {
                                Some(i1) => match p_user(s, i1) {
                                    Some((user, i2)) => match p_lit(s, i2, lit_new()) {
                                        Some(i3) => match p_qs(s, i3) {
                                            Some((new, i4)) => match p_lit(s, i4, lit_rbrace()) {
                                                Some(i5) => Some(
                                                    (
                                                        crate::line::LineDataV::Nick { user, new },
                                                        i5,
                                                    ),
                                                ),
                                                None => None,
                                            },
                                            None => None,
                                        },
                                        None => None,
                                    },
                                    None => None,
                                },
                                None => None,
                            },
                        },
                    },
                },
            },
        },
    }
}

/// A whole buffer line as it stands in a record.
pub open spec fn enc_line(l: crate::line::BufferLineV) -> Seq<char> {
    lit_id() + dec_digits(l.id as nat) + lit_time() + enc_i64(l.time as int) + lit_data()
        + enc_data(l.data) + lit_rbrace()
}

/// Parses one whole record; trailing characters make the record invalid.
pub open spec fn p_line(s: Seq<char>) -> Option<crate::line::BufferLineV> {
    match p_lit(s, 0, lit_id()) {
        Some(i1) => match p_u64(s, i1) {
            Some((id, i2)) => match p_lit(s, i2, lit_time()) {
                Some(i3) => match p_i64(s, i3) {
                    Some((time, i4)) => match p_lit(s, i4, lit_data()) {
                        Some(i5) => match p_data(s, i5) {
                            Some((data, i6)) => match p_lit(s, i6, lit_rbrace()) {
                                Some(i7) => if i7 == s.len() {
                                    Some(crate::line::BufferLineV { id, time, data })
                                } else {
                                    None
                                },
                                None => None,
                            },
                            None => None,
                        },
                        None => None,
                    },
                    None => None,
                },
                None => None,
            },
            None => None,
        },
        None => None,
    }
}

// ---------------------------------------------------------------------------
// Round trip: parsing an encoded record gives back what was encoded
// ---------------------------------------------------------------------------
pub proof fn lemma_p_opt_of_enc(s: Seq<char>, i: int, o: Option<Seq<char>>)
    requires
        0 <= i,
        i + enc_opt(o).len() <= s.len(),
        s.subrange(i, i + enc_opt(o).len() as int) == enc_opt(o),
    ensures
        p_opt(s, i) == Some((o, i + enc_opt(o).len() as int)),
{
    let e = enc_opt(o);
    match o {
        None => {
        },
        Some(v) => {
            reveal_strlit("null");
            assert(s[i + 0] == e[0]);
            assert(e[0] == '"');
            assert(lit_null()[0] == 'n');
            lemma_p_lit_mismatch(s, i, lit_null(), 0);
            lemma_p_qs_of_enc(s, i, v);
        },
    }
}

pub proof fn lemma_p_kind_of_enc(s: Seq<char>, i: int, k: crate::line::MsgKind)
    requires
        0 <= i,
        i + enc_kind(k).len() <= s.len(),
        s.subrange(i, i + enc_kind(k).len() as int) == enc_kind(k),
        i + enc_kind(k).len() == s.len() || !is_digit(s[i + enc_kind(k).len() as int]),
    ensures
        p_kind(s, i) == Some((k, i + enc_kind(k).len() as int)),
{
    let e = enc_kind(k);
    reveal_strlit("\"PrivMsg\"");
    reveal_strlit("\"Notice\"");
    reveal_strlit("\"Action\"");
    reveal_strlit("\"Status\"");
    match k {
        crate::line::MsgKind::PrivMsg => {
        },
        crate::line::MsgKind::Notice => {
            assert(s[i + 1] == e[1]);
            lemma_p_lit_mismatch(s, i, lit_k_priv(), 1);
        },
        crate::line::MsgKind::Action => {
            assert(s[i + 1] == e[1]);
            lemma_p_lit_mismatch(s, i, lit_k_priv(), 1);
            lemma_p_lit_mismatch(s, i, lit_k_notice(), 1);
        },
        crate::line::MsgKind::Status => {
            assert(s[i + 1] == e[1]);
            lemma_p_lit_mismatch(s, i, lit_k_priv(), 1);
            lemma_p_lit_mismatch(s, i, lit_k_notice(), 1);
            lemma_p_lit_mismatch(s, i, lit_k_action(), 1);
        },
        crate::line::MsgKind::Response(c) => {
            lemma_dec_digits_all_digits(c as nat);
            assert(s[i + 0] == e[0]);
            assert(is_digit(e[0]));
            lemma_p_lit_mismatch(s, i, lit_k_priv(), 0);
            lemma_p_lit_mismatch(s, i, lit_k_notice(), 0);
            lemma_p_lit_mismatch(s, i, lit_k_action(), 0);
            lemma_p_lit_mismatch(s, i, lit_k_status(), 0);
            lemma_p_u64_of_digits(s, i, c as u64);
        },
    }
}

pub proof fn lemma_p_user_of_enc(s: Seq<char>, i: int, u: crate::line::UserV)
    requires
        0 <= i,
        i + enc_user(u).len() <= s.len(),
        s.subrange(i, i + enc_user(u).len() as int) == enc_user(u),
    ensures
        p_user(s, i) == Some((u, i + enc_user(u).len() as int)),
{
    let e = enc_user(u);
    let p0 = lit_nick_open();
    let q1 = enc_qs(u.nick);
    let p1 = lit_ident();
    let q2 = enc_qs(u.ident);
    let p2 = lit_host();
    let q3 = enc_qs(u.host);
    let p3 = lit_rbrace();
    let a1 = p0.len() as int;
    let a2 = a1 + q1.len() as int;
    let a3 = a2 + p1.len() as int;
    let a4 = a3 + q2.len() as int;
    let a5 = a4 + p2.len() as int;
    let a6 = a5 + q3.len() as int;
    let a7 = a6 + p3.len() as int;
    assert(e.subrange(0, a1) =~= p0);
    lemma_subrange_part(s, i, e, 0, a1);
    assert(e.subrange(a1, a2) =~= q1);
    lemma_subrange_part(s, i, e, a1, a2);
    lemma_p_qs_of_enc(s, i + a1, u.nick);
    assert(e.subrange(a2, a3) =~= p1);
    lemma_subrange_part(s, i, e, a2, a3);
    assert(e.subrange(a3, a4) =~= q2);
    lemma_subrange_part(s, i, e, a3, a4);
    lemma_p_qs_of_enc(s, i + a3, u.ident);
    assert(e.subrange(a4, a5) =~= p2);
    lemma_subrange_part(s, i, e, a4, a5);
    assert(e.subrange(a5, a6) =~= q3);
    lemma_subrange_part(s, i, e, a5, a6);
    lemma_p_qs_of_enc(s, i + a5, u.host);
    assert(e.subrange(a6, a7) =~= p3);
    lemma_subrange_part(s, i, e, a6, a7);
}

#[verifier::rlimit(100)]
#[verifier::spinoff_prover]
proof fn lemma_p_data_message(s: Seq<char>, i: int, kind: crate::line::MsgKind, from: Seq<char>, msg: Seq<char>)
    requires
        0 <= i,
        i + enc_data(crate::line::LineDataV::Message { kind, from, msg }).len() <= s.len(),
        s.subrange(i, i + enc_data(crate::line::LineDataV::Message { kind, from, msg }).len() as int) == enc_data(crate::line::LineDataV::Message { kind, from, msg }),
    ensures
        p_data(s, i) == Some((crate::line::LineDataV::Message { kind, from, msg }, i + enc_data(crate::line::LineDataV::Message { kind, from, msg }).len() as int)),
{
    let d = crate::line::LineDataV::Message { kind, from, msg };
    let e = enc_data(d);
    reveal_strlit("{\"type\":\"Message\",\"kind\":");
    assert(s[i + 9] == e[9]);
            let p0 = lit_msg_open();
            let k1 = enc_kind(kind);
            let p1 = lit_from();
            let q1 = enc_qs(from);
            let p2 = lit_msg_field();
            let q2 = enc_qs(msg);
            let p3 = lit_rbrace();
            let a1 = p0.len() as int;
            let a2 = a1 + k1.len() as int;
            let a3 = a2 + p1.len() as int;
            let a4 = a3 + q1.len() as int;
            let a5 = a4 + p2.len() as int;
            let a6 = a5 + q2.len() as int;
            let a7 = a6 + p3.len() as int;
            assert(e.subrange(0, a1) =~= p0);
            lemma_subrange_part(s, i, e, 0, a1);
            assert(e.subrange(a1, a2) =~= k1);
            lemma_subrange_part(s, i, e, a1, a2);
            assert(s[i + a2] == e[a2]);
            reveal_strlit(",\"from\":");
            assert(e[a2] == ',');
            lemma_p_kind_of_enc(s, i + a1, kind);
            assert(e.subrange(a2, a3) =~= p1);
            lemma_subrange_part(s, i, e, a2, a3);
            assert(e.subrange(a3, a4) =~= q1);
            lemma_subrange_part(s, i, e, a3, a4);
            lemma_p_qs_of_enc(s, i + a3, from);
            assert(e.subrange(a4, a5) =~= p2);
            lemma_subrange_part(s, i, e, a4, a5);
            assert(e.subrange(a5, a6) =~= q2);
            lemma_subrange_part(s, i, e, a5, a6);
            lemma_p_qs_of_enc(s, i + a5, msg);
            assert(e.subrange(a6, a7) =~= p3);
            lemma_subrange_part(s, i, e, a6, a7);
}

#[verifier::rlimit(100)]
#[verifier::spinoff_prover]
proof fn lemma_p_data_topic(s: Seq<char>, i: int, by: Option<Seq<char>>, topic: Seq<char>)
    requires
        0 <= i,
        i + enc_data(crate::line::LineDataV::Topic { by, topic }).len() <= s.len(),
        s.subrange(i, i + enc_data(crate::line::LineDataV::Topic { by, topic }).len() as int) == enc_data(crate::line::LineDataV::Topic { by, topic }),
    ensures
        p_data(s, i) == Some((crate::line::LineDataV::Topic { by, topic }, i + enc_data(crate::line::LineDataV::Topic { by, topic }).len() as int)),
{
    let d = crate::line::LineDataV::Topic { by, topic };
    let e = enc_data(d);
    reveal_strlit("{\"type\":\"Message\",\"kind\":");
    reveal_strlit("{\"type\":\"Topic\",\"by\":");
    assert(s[i + 9] == e[9]);
            lemma_p_lit_mismatch(s, i, lit_msg_open(), 9);
            let p0 = lit_topic_open();
            let o1 = enc_opt(by);
            let p1 = lit_topic_field();
            let q1 = enc_qs(topic);
            let p3 = lit_rbrace();
            let a1 = p0.len() as int;
            let a2 = a1 + o1.len() as int;
            let a3 = a2 + p1.len() as int;
            let a4 = a3 + q1.len() as int;
            let a5 = a4 + p3.len() as int;
            assert(e.subrange(0, a1) =~= p0);
            lemma_subrange_part(s, i, e, 0, a1);
            assert(e.subrange(a1, a2) =~= o1);
            lemma_subrange_part(s, i, e, a1, a2);
            lemma_p_opt_of_enc(s, i + a1, by);
            assert(e.subrange(a2, a3) =~= p1);
            lemma_subrange_part(s, i, e, a2, a3);
            assert(e.subrange(a3, a4) =~= q1);
            lemma_subrange_part(s, i, e, a3, a4);
            lemma_p_qs_of_enc(s, i + a3, topic);
            assert(e.subrange(a4, a5) =~= p3);
            lemma_subrange_part(s, i, e, a4, a5);
}

#[verifier::rlimit(100)]
#[verifier::spinoff_prover]
proof fn lemma_p_data_join(s: Seq<char>, i: int, user: crate::line::UserV)
    requires
        0 <= i,
        i + enc_data(crate::line::LineDataV::Join { user }).len() <= s.len(),
        s.subrange(i, i + enc_data(crate::line::LineDataV::Join { user }).len() as int) == enc_data(crate::line::LineDataV::Join { user }),
    ensures
        p_data(s, i) == Some((crate::line::LineDataV::Join { user }, i + enc_data(crate::line::LineDataV::Join { user }).len() as int)),
{
    let d = crate::line::LineDataV::Join { user };
    let e = enc_data(d);
    reveal_strlit("{\"type\":\"Message\",\"kind\":");
    reveal_strlit("{\"type\":\"Topic\",\"by\":");
    reveal_strlit("{\"type\":\"Join\",\"user\":");
    assert(s[i + 9] == e[9]);
            lemma_p_lit_mismatch(s, i, lit_msg_open(), 9);
            lemma_p_lit_mismatch(s, i, lit_topic_open(), 9);
            let p0 = lit_join_open();
            let u1 = enc_user(user);
            let p3 = lit_rbrace();
            let a1 = p0.len() as int;
            let a2 = a1 + u1.len() as int;
            let a3 = a2 + p3.len() as int;
            assert(e.subrange(0, a1) =~= p0);
            lemma_subrange_part(s, i, e, 0, a1);
            assert(e.subrange(a1, a2) =~= u1);
            lemma_subrange_part(s, i, e, a1, a2);
            lemma_p_user_of_enc(s, i + a1, user);
            assert(e.subrange(a2, a3) =~= p3);
            lemma_subrange_part(s, i, e, a2, a3);
}

#[verifier::rlimit(100)]
#[verifier::spinoff_prover]
proof fn lemma_p_data_part(s: Seq<char>, i: int, user: crate::line::UserV, reason: Seq<char>)
    requires
        0 <= i,
        i + enc_data(crate::line::LineDataV::Part { user, reason }).len() <= s.len(),
        s.subrange(i, i + enc_data(crate::line::LineDataV::Part { user, reason }).len() as int) == enc_data(crate::line::LineDataV::Part { user, reason }),
    ensures
        p_data(s, i) == Some((crate::line::LineDataV::Part { user, reason }, i + enc_data(crate::line::LineDataV::Part { user, reason }).len() as int)),
{
    let d = crate::line::LineDataV::Part { user, reason };
    let e = enc_data(d);
    reveal_strlit("{\"type\":\"Message\",\"kind\":");
    reveal_strlit("{\"type\":\"Topic\",\"by\":");
    reveal_strlit("{\"type\":\"Join\",\"user\":");
    reveal_strlit("{\"type\":\"Part\",\"user\":");
    assert(s[i + 9] == e[9]);
            lemma_p_lit_mismatch(s, i, lit_msg_open(), 9);
            lemma_p_lit_mismatch(s, i, lit_topic_open(), 9);
            lemma_p_lit_mismatch(s, i, lit_join_open(), 9);
            let p0 = lit_part_open();
            let u1 = enc_user(user);
            let p1 = lit_reason();
            let q1 = enc_qs(reason);
            let p3 = lit_rbrace();
            let a1 = p0.len() as int;
            let a2 = a1 + u1.len() as int;
            let a3 = a2 + p1.len() as int;
            let a4 = a3 + q1.len() as int;
            let a5 = a4 + p3.len() as int;
            assert(e.subrange(0, a1) =~= p0);
            lemma_subrange_part(s, i, e, 0, a1);
            assert(e.subrange(a1, a2) =~= u1);
            lemma_subrange_part(s, i, e, a1, a2);
            lemma_p_user_of_enc(s, i + a1, user);
            assert(e.subrange(a2, a3) =~= p1);
            lemma_subrange_part(s, i, e, a2, a3);
            assert(e.subrange(a3, a4) =~= q1);
            lemma_subrange_part(s, i, e, a3, a4);
            lemma_p_qs_of_enc(s, i + a3, reason);
            assert(e.subrange(a4, a5) =~= p3);
            lemma_subrange_part(s, i, e, a4, a5);
}

#[verifier::rlimit(100)]
#[verifier::spinoff_prover]
proof fn lemma_p_data_kick(s: Seq<char>, i: int, by: crate::line::UserV, user: Seq<char>, reason: Seq<char>)
    requires
        0 <= i,
        i + enc_data(crate::line::LineDataV::Kick { by, user, reason }).len() <= s.len(),
        s.subrange(i, i + enc_data(crate::line::LineDataV::Kick { by, user, reason }).len() as int) == enc_data(crate::line::LineDataV::Kick { by, user, reason }),
    ensures
        p_data(s, i) == Some((crate::line::LineDataV::Kick { by, user, reason }, i + enc_data(crate::line::LineDataV::Kick { by, user, reason }).len() as int)),
{
    let d = crate::line::LineDataV::Kick { by, user, reason };
    let e = enc_data(d);
    reveal_strlit("{\"type\":\"Message\",\"kind\":");
    reveal_strlit("{\"type\":\"Topic\",\"by\":");
    reveal_strlit("{\"type\":\"Join\",\"user\":");
    reveal_strlit("{\"type\":\"Part\",\"user\":");
    reveal_strlit("{\"type\":\"Kick\",\"by\":");
    assert(s[i + 9] == e[9]);
            lemma_p_lit_mismatch(s, i, lit_msg_open(), 9);
            lemma_p_lit_mismatch(s, i, lit_topic_open(), 9);
            lemma_p_lit_mismatch(s, i, lit_join_open(), 9);
            lemma_p_lit_mismatch(s, i, lit_part_open(), 9);
            let p0 = lit_kick_open();
            let u1 = enc_user(by);
            let p1 = lit_user_field();
            let q1 = enc_qs(user);
            let p2 = lit_reason();
            let q2 = enc_qs(reason);
            let p3 = lit_rbrace();
            let a1 = p0.len() as int;
            let a2 = a1 + u1.len() as int;
            let a3 = a2 + p1.len() as int;
            let a4 = a3 + q1.len() as int;
            let a5 = a4 + p2.len() as int;
            let a6 = a5 + q2.len() as int;
            let a7 = a6 + p3.len() as int;
            assert(e.subrange(0, a1) =~= p0);
            lemma_subrange_part(s, i, e, 0, a1);
            assert(e.subrange(a1, a2) =~= u1);
            lemma_subrange_part(s, i, e, a1, a2);
            lemma_p_user_of_enc(s, i + a1, by);
            assert(e.subrange(a2, a3) =~= p1);
            lemma_subrange_part(s, i, e, a2, a3);
            assert(e.subrange(a3, a4) =~= q1);
            lemma_subrange_part(s, i, e, a3, a4);
            lemma_p_qs_of_enc(s, i + a3, user);
            assert(e.subrange(a4, a5) =~= p2);
            lemma_subrange_part(s, i, e, a4, a5);
            assert(e.subrange(a5, a6) =~= q2);
            lemma_subrange_part(s, i, e, a5, a6);
            lemma_p_qs_of_enc(s, i + a5, reason);
            assert(e.subrange(a6, a7) =~= p3);
            lemma_subrange_part(s, i, e, a6, a7);
}

#[verifier::rlimit(100)]
#[verifier::spinoff_prover]
proof fn lemma_p_data_quit(s: Seq<char>, i: int, user: crate::line::UserV, msg: Option<Seq<char>>)
    requires
        0 <= i,
        i + enc_data(crate::line::LineDataV::Quit { user, msg }).len() <= s.len(),
        s.subrange(i, i + enc_data(crate::line::LineDataV::Quit { user, msg }).len() as int) == enc_data(crate::line::LineDataV::Quit { user, msg }),
    ensures
        p_data(s, i) == Some((crate::line::LineDataV::Quit { user, msg }, i + enc_data(crate::line::LineDataV::Quit { user, msg }).len() as int)),
{
    let d = crate::line::LineDataV::Quit { user, msg };
    let e = enc_data(d);
    reveal_strlit("{\"type\":\"Message\",\"kind\":");
    reveal_strlit("{\"type\":\"Topic\",\"by\":");
    reveal_strlit("{\"type\":\"Join\",\"user\":");
    reveal_strlit("{\"type\":\"Part\",\"user\":");
    reveal_strlit("{\"type\":\"Kick\",\"by\":");
    reveal_strlit("{\"type\":\"Quit\",\"user\":");
    assert(s[i + 9] == e[9]);
            lemma_p_lit_mismatch(s, i, lit_msg_open(), 9);
            lemma_p_lit_mismatch(s, i, lit_topic_open(), 9);
            lemma_p_lit_mismatch(s, i, lit_join_open(), 9);
            lemma_p_lit_mismatch(s, i, lit_part_open(), 9);
            lemma_p_lit_mismatch(s, i, lit_kick_open(), 9);
            let p0 = lit_quit_open();
            let u1 = enc_user(user);
            let p1 = lit_msg_field();
            let o1 = enc_opt(msg);
            let p3 = lit_rbrace();
            let a1 = p0.len() as int;
            let a2 = a1 + u1.len() as int;
            let a3 = a2 + p1.len() as int;
            let a4 = a3 + o1.len() as int;
            let a5 = a4 + p3.len() as int;
            assert(e.subrange(0, a1) =~= p0);
            lemma_subrange_part(s, i, e, 0, a1);
            assert(e.subrange(a1, a2) =~= u1);
            lemma_subrange_part(s, i, e, a1, a2);
            lemma_p_user_of_enc(s, i + a1, user);
            assert(e.subrange(a2, a3) =~= p1);
            lemma_subrange_part(s, i, e, a2, a3);
            assert(e.subrange(a3, a4) =~= o1);
            lemma_subrange_part(s, i, e, a3, a4);
            lemma_p_opt_of_enc(s, i + a3, msg);
            assert(e.subrange(a4, a5) =~= p3);
            lemma_subrange_part(s, i, e, a4, a5);
}

#[verifier::rlimit(100)]
#[verifier::spinoff_prover]
proof fn lemma_p_data_nick(s: Seq<char>, i: int, user: crate::line::UserV, new: Seq<char>)
    requires
        0 <= i,
        i + enc_data(crate::line::LineDataV::Nick { user, new }).len() <= s.len(),
        s.subrange(i, i + enc_data(crate::line::LineDataV::Nick { user, new }).len() as int) == enc_data(crate::line::LineDataV::Nick { user, new }),
    ensures
        p_data(s, i) == Some((crate::line::LineDataV::Nick { user, new }, i + enc_data(crate::line::LineDataV::Nick { user, new }).len() as int)),
{
    let d = crate::line::LineDataV::Nick { user, new };
    let e = enc_data(d);
    reveal_strlit("{\"type\":\"Message\",\"kind\":");
    reveal_strlit("{\"type\":\"Topic\",\"by\":");
    reveal_strlit("{\"type\":\"Join\",\"user\":");
    reveal_strlit("{\"type\":\"Part\",\"user\":");
    reveal_strlit("{\"type\":\"Kick\",\"by\":");
    reveal_strlit("{\"type\":\"Quit\",\"user\":");
    reveal_strlit("{\"type\":\"Nick\",\"user\":");
    assert(s[i + 9] == e[9]);
            lemma_p_lit_mismatch(s, i, lit_msg_open(), 9);
            lemma_p_lit_mismatch(s, i, lit_topic_open(), 9);
            lemma_p_lit_mismatch(s, i, lit_join_open(), 9);
            lemma_p_lit_mismatch(s, i, lit_part_open(), 9);
            lemma_p_lit_mismatch(s, i, lit_kick_open(), 9);
            lemma_p_lit_mismatch(s, i, lit_quit_open(), 9);
            let p0 = lit_nick_variant_open();
            let u1 = enc_user(user);
            let p1 = lit_new();
            let q1 = enc_qs(new);
            let p3 = lit_rbrace();
            let a1 = p0.len() as int;
            let a2 = a1 + u1.len() as int;
            let a3 = a2 + p1.len() as int;
            let a4 = a3 + q1.len() as int;
            let a5 = a4 + p3.len() as int;
            assert(e.subrange(0, a1) =~= p0);
            lemma_subrange_part(s, i, e, 0, a1);
            assert(e.subrange(a1, a2) =~= u1);
            lemma_subrange_part(s, i, e, a1, a2);
            lemma_p_user_of_enc(s, i + a1, user);
            assert(e.subrange(a2, a3) =~= p1);
            lemma_subrange_part(s, i, e, a2, a3);
            assert(e.subrange(a3, a4) =~= q1);
            lemma_subrange_part(s, i, e, a3, a4);
            lemma_p_qs_of_enc(s, i + a3, new);
            assert(e.subrange(a4, a5) =~= p3);
            lemma_subrange_part(s, i, e, a4, a5);
}

pub proof fn lemma_p_data_of_enc(s: Seq<char>, i: int, d: crate::line::LineDataV)
    requires
        0 <= i,
        i + enc_data(d).len() <= s.len(),
        s.subrange(i, i + enc_data(d).len() as int) == enc_data(d),
    ensures
        p_data(s, i) == Some((d, i + enc_data(d).len() as int)),
{
    match d {
        crate::line::LineDataV::Message { kind, from, msg } => lemma_p_data_message(
            s,
            i,
            kind,
            from,
            msg,
        ),
        crate::line::LineDataV::Topic { by, topic } => lemma_p_data_topic(s, i, by, topic),
        crate::line::LineDataV::Join { user } => lemma_p_data_join(s, i, user),
        crate::line::LineDataV::Part { user, reason } => lemma_p_data_part(s, i, user, reason),
        crate::line::LineDataV::Kick { by, user, reason } => lemma_p_data_kick(
            s,
            i,
            by,
            user,
            reason,
        ),
        crate::line::LineDataV::Quit { user, msg } => lemma_p_data_quit(s, i, user, msg),
        crate::line::LineDataV::Nick { user, new } => lemma_p_data_nick(s, i, user, new),
    }
}

/// Parsing an encoded buffer line gives back exactly the line that was
/// encoded: the record format loses nothing.
#[verifier::rlimit(100)]
#[verifier::spinoff_prover]
pub proof fn lemma_line_roundtrip(l: crate::line::BufferLineV)
    ensures
        p_line(enc_line(l)) == Some(l),
{
    let s = enc_line(l);
    let p0 = lit_id();
    let n1 = dec_digits(l.id as nat);
    let p1 = lit_time();
    let n2 = enc_i64(l.time as int);
    let p2 = lit_data();
    let d1 = enc_data(l.data);
    let p3 = lit_rbrace();
    let a1 = p0.len() as int;
    let a2 = a1 + n1.len() as int;
    let a3 = a2 + p1.len() as int;
    let a4 = a3 + n2.len() as int;
    let a5 = a4 + p2.len() as int;
    let a6 = a5 + d1.len() as int;
    let a7 = a6 + p3.len() as int;
    assert(s.subrange(0, s.len() as int) =~= s);
    lemma_dec_digits_all_digits(l.id as nat);
    assert(s.subrange(0, a1) =~= p0);
    assert(s.subrange(a1, a2) =~= n1);
    reveal_strlit(",\"time\":");
    reveal_strlit(",\"data\":");
    reveal_strlit("}");
    assert(s[a2] == p1[0]);
    assert(!is_digit(s[a2]));
    lemma_p_u64_of_digits(s, a1, l.id);
    assert(s.subrange(a2, a3) =~= p1);
    assert(s.subrange(a3, a4) =~= n2);
    assert(s[a4] == p2[0]);
    assert(!is_digit(s[a4]));
    lemma_p_i64_of_enc(s, a3, l.time);
    assert(s.subrange(a4, a5) =~= p2);
    assert(s.subrange(a5, a6) =~= d1);
    lemma_p_data_of_enc(s, a5, l.data);
    assert(s.subrange(a6, a7) =~= p3);
}

// ---------------------------------------------------------------------------
// Executable encoding
// ---------------------------------------------------------------------------
fn digit_to_char(d: u64) -> (r: char)
    requires
        d < 10,
    ensures
        r == digit_char(d as nat),
{
    if d == 0 {
        '0'
    } else if d == 1 {
        '1'
    } else if d == 2 {
        '2'
    } else if d == 3 {
        '3'
    } else if d == 4 {
        '4'
    } else if d == 5 {
        '5'
    } else if d == 6 {
        '6'
    } else if d == 7 {
        '7'
    } else if d == 8 {
        '8'
    } else {
        '9'
    }
}

/// The decimal digits of `n` as a string.
pub fn u64_to_dec(n: u64) -> (r: String)
    ensures
        r@ == dec_digits(n as nat),
    decreases n,
{
    if n < 10 {
        let mut s = String::new();
        push_char(&mut s, digit_to_char(n));
        proof {
            assert(s@ =~= dec_digits(n as nat));
        }
        s
    } else {
        let mut s = u64_to_dec(n / 10);
        push_char(&mut s, digit_to_char(n % 10));
        proof {
            assert(s@ =~= dec_digits(n as nat));
        }
        s
    }
}

fn w_u64(out: &mut String, n: u64)
    ensures
        final(out)@ == old(out)@ + dec_digits(n as nat),
{
    let s = u64_to_dec(n);
    out.append(s.as_str());
}

fn w_i64(out: &mut String, n: i64)
    ensures
        final(out)@ == old(out)@ + enc_i64(n as int),
{
    let ghost pre = out@;
    if n < 0 {
        push_char(out, '-');
        let m: u64 = if n == i64::MIN {
            0x8000000000000000u64
        } else {
            (-n) as u64
        };
        proof {
            assert(m as nat == (-(n as int)) as nat);
        }
        w_u64(out, m);
        proof {
            assert(out@ =~= pre + enc_i64(n as int));
        }
    } else {
        w_u64(out, n as u64);
    }
}

proof fn lemma_escape_snoc(a: Seq<char>, c: char)
    ensures
        escape_seq(a.push(c)) == escape_seq(a) + escape_char(c),
    decreases a.len(),
{
    if a.len() == 0 {
        assert(a.push(c)[0] == c);
        assert(a.push(c).drop_first() =~= Seq::<char>::empty());
        assert(escape_seq(a) == Seq::<char>::empty());
        assert(escape_seq(a.push(c)) == escape_char(c) + escape_seq(Seq::<char>::empty()));
        assert(escape_char(c) + Seq::<char>::empty() =~= escape_char(c));
        assert(Seq::<char>::empty() + escape_char(c) =~= escape_char(c));
    } else {
        lemma_escape_snoc(a.drop_first(), c);
        assert(a.push(c).drop_first() =~= a.drop_first().push(c));
        assert(a.push(c)[0] == a[0]);
        assert(escape_seq(a.push(c)) == escape_char(a[0]) + escape_seq(a.drop_first().push(c)));
        assert(escape_char(a[0]) + (escape_seq(a.drop_first()) + escape_char(c)) =~= (escape_char(
            a[0],
        ) + escape_seq(a.drop_first())) + escape_char(c));
    }
}

fn w_qs(out: &mut String, v: &str)
    ensures
        final(out)@ == old(out)@ + enc_qs(v@),
{
    let ghost pre = out@;
    push_char(out, '"');
    let n = v.unicode_len();
    let mut k: usize = 0;
    while k < n
        invariant
            n == v@.len(),
            k <= n,
            out@ == pre + seq!['"'] + escape_seq(v@.take(k as int)),
        decreases n - k,
    {
        let c = v.get_char(k);
        if c == '"' {
            push_char(out, '\\');
            push_char(out, '"');
        } else if c == '\\' {
            push_char(out, '\\');
            push_char(out, '\\');
        } else if c == '\n' {
            push_char(out, '\\');
            push_char(out, 'n');
        } else if c == '\r' {
            push_char(out, '\\');
            push_char(out, 'r');
        } else if c == '\t' {
            push_char(out, '\\');
            push_char(out, 't');
        } else {
            push_char(out, c);
        }
        proof {
            lemma_escape_snoc(v@.take(k as int), c);
            assert(v@.take(k as int).push(c) =~= v@.take(k + 1));
            assert(out@ =~= pre + seq!['"'] + escape_seq(v@.take(k + 1)));
        }
        k = k + 1;
    }
    push_char(out, '"');
    proof {
        assert(v@.take(n as int) =~= v@);
        assert(out@ =~= pre + enc_qs(v@));
    }
}

fn w_opt(out: &mut String, o: &Option<String>)
    ensures
        final(out)@ == old(out)@ + enc_opt(crate::line::opt_str_view(o)),
{
    match o {
        None => {
            out.append("null");
            proof {
                assert("null"@ == lit_null());
            }
        },
        Some(v) => {
            w_qs(out, v.as_str());
        },
    }
}

fn w_kind(out: &mut String, k: crate::line::MsgKind)
    ensures
        final(out)@ == old(out)@ + enc_kind(k),
{
    match k {
        crate::line::MsgKind::PrivMsg => out.append("\"PrivMsg\""),
        crate::line::MsgKind::Notice => out.append("\"Notice\""),
        crate::line::MsgKind::Action => out.append("\"Action\""),
        crate::line::MsgKind::Status => out.append("\"Status\""),
        crate::line::MsgKind::Response(c) => w_u64(out, c as u64),
    }
}

fn w_user(out: &mut String, u: &crate::line::User)
    ensures
        final(out)@ == old(out)@ + enc_user(u@),
{
    let ghost pre = out@;
    out.append("{\"nick\":");
    w_qs(out, u.nick.as_str());
    out.append(",\"ident\":");
    w_qs(out, u.ident.as_str());
    out.append(",\"host\":");
    w_qs(out, u.host.as_str());
    out.append("}");
    proof {
        assert(out@ =~= pre + enc_user(u@));
    }
}

#[verifier::rlimit(100)]
#[verifier::spinoff_prover]
fn w_data(out: &mut String, d: &crate::line::LineData)
    ensures
        final(out)@ == old(out)@ + enc_data(d@),
{
    let ghost pre = out@;
    match d {
        crate::line::LineData::Message { kind, from, msg } => {
            out.append("{\"type\":\"Message\",\"kind\":");
            w_kind(out, *kind);
            out.append(",\"from\":");
            w_qs(out, from.as_str());
            out.append(",\"msg\":");
            w_qs(out, msg.as_str());
            out.append("}");
            proof {
                assert(out@ =~= pre + enc_data(d@));
            }
        },
        crate::line::LineData::Topic { by, topic } => {
            out.append("{\"type\":\"Topic\",\"by\":");
            w_opt(out, by);
            out.append(",\"topic\":");
            w_qs(out, topic.as_str());
            out.append("}");
            proof {
                assert(out@ =~= pre + enc_data(d@));
            }
        },
        crate::line::LineData::Join { user } => {
            out.append("{\"type\":\"Join\",\"user\":");
            w_user(out, user);
            out.append("}");
            proof {
                assert(out@ =~= pre + enc_data(d@));
            }
        },
        crate::line::LineData::Part { user, reason } => {
            out.append("{\"type\":\"Part\",\"user\":");
            w_user(out, user);
            out.append(",\"reason\":");
            w_qs(out, reason.as_str());
            out.append("}");
            proof {
                assert(out@ =~= pre + enc_data(d@));
            }
        },
        crate::line::LineData::Kick { by, user, reason } => {
            out.append("{\"type\":\"Kick\",\"by\":");
            w_user(out, by);
            out.append(",\"user\":");
            w_qs(out, user.as_str());
            out.append(",\"reason\":");
            w_qs(out, reason.as_str());
            out.append("}");
            proof {
                assert(out@ =~= pre + enc_data(d@));
            }
        },
        crate::line::LineData::Quit { user, msg } => {
            out.append("{\"type\":\"Quit\",\"user\":");
            w_user(out, user);
            out.append(",\"msg\":");
            w_opt(out, msg);
            out.append("}");
            proof {
                assert(out@ =~= pre + enc_data(d@));
            }
        },
        crate::line::LineData::Nick { user, new } => {
            out.append("{\"type\":\"Nick\",\"user\":");
            w_user(out, user);
            out.append(",\"new\":");
            w_qs(out, new.as_str());
            out.append("}");
            proof {
                assert(out@ =~= pre + enc_data(d@));
            }
        },
    }
}

/// Writes one buffer line as a record.
pub fn encode_line(l: &crate::line::BufferLine) -> (r: String)
    ensures
        r@ == enc_line(l@),
{
    let mut out = String::new();
    out.append("{\"id\":");
    w_u64(&mut out, l.id);
    out.append(",\"time\":");
    w_i64(&mut out, l.time);
    out.append(",\"data\":");
    w_data(&mut out, &l.data);
    out.append("}");
    proof {
        assert(out@ =~= enc_line(l@));
    }
    out
}

// ---------------------------------------------------------------------------
// Executable parsing
// ---------------------------------------------------------------------------
fn x_lit(s: &str, i: usize, lit: &str) -> (r: Option<usize>)
    requires
        i <= s@.len(),
    ensures
        match r {
            Some(j) => p_lit(s@, i as int, lit@) == Some(j as int) && i <= j <= s@.len(),
            None => p_lit(s@, i as int, lit@) is None,
        },
{
    let n = s.unicode_len();
    let m = lit.unicode_len();
    if m > n - i {
        return None;
    }
    let mut k: usize = 0;
    while k < m
        invariant
            n == s@.len(),
            m == lit@.len(),
            i + m <= n,
            k <= m,
            forall|t: int| 0 <= t < k ==> s@[i + t] == lit@[t],
        decreases m - k,
    {
        if s.get_char(i + k) != lit.get_char(k) {
            proof {
                assert(s@.subrange(i as int, i + m) != lit@) by {
                    if s@.subrange(i as int, i + m) == lit@ {
                        assert(s@.subrange(i as int, i + m)[k as int] == lit@[k as int]);
                    }
                }
            }
            return None;
        }
        k = k + 1;
    }
    proof {
        assert(s@.subrange(i as int, i + m) =~= lit@);
    }
    Some(i + m)
}

fn exec_digit_val(c: char) -> (r: Option<u64>)
    ensures
        match r {
            Some(d) => is_digit(c) && d == digit_val(c) && d < 10,
            None => !is_digit(c),
        },
{
    match c {
        '0' => Some(0),
        '1' => Some(1),
        '2' => Some(2),
        '3' => Some(3),
        '4' => Some(4),
        '5' => Some(5),
        '6' => Some(6),
        '7' => Some(7),
        '8' => Some(8),
        '9' => Some(9),
        _ => None,
    }
}

#[verifier::rlimit(50)]
fn x_u64(s: &str, i: usize) -> (r: Option<(u64, usize)>)
    requires
        i <= s@.len(),
    ensures
        match r {
            Some((v, j)) => p_u64(s@, i as int) == Some((v, j as int)) && i <= j <= s@.len(),
            None => p_u64(s@, i as int) is None,
        },
{
    let n = s.unicode_len();
    let mut j: usize = i;
    let mut acc: u64 = 0;
    let mut over: bool = false;
    loop
        invariant
            n == s@.len(),
            i <= j <= n,
            all_digits(s@.subrange(i as int, j as int)),
            scan_digits(s@, i as int) == scan_digits(s@, j as int),
            !over ==> acc == dec_val(s@.subrange(i as int, j as int)),
            over ==> dec_val(s@.subrange(i as int, j as int)) > u64::MAX,
        decreases n - j,
    {
        let ghost prevrun = s@.subrange(i as int, j as int);
        if j >= n {
            proof {
                lemma_scan_digits_exact(s@, j as int, j as int);
            }
            if j == i {
                return None;
            } else if over {
                return None;
            } else {
                return Some((acc, j));
            }
        }
        let c = s.get_char(j);
        match exec_digit_val(c) {
            None => {
                proof {
                    lemma_scan_digits_exact(s@, j as int, j as int);
                }
                if j == i {
                    return None;
                } else if over {
                    return None;
                } else {
                    return Some((acc, j));
                }
            },
            Some(d) => {
                proof {
                    assert(s@.subrange(i as int, j + 1).drop_last() =~= prevrun);
                    assert(s@.subrange(i as int, j + 1).last() == s@[j as int]);
                    assert(all_digits(s@.subrange(i as int, j + 1)));
                    vstd::arithmetic::div_mod::lemma_fundamental_div_mod(
                        (u64::MAX - d) as int,
                        10,
                    );
                }
                if over {
                    proof {
                        assert(dec_val(s@.subrange(i as int, j + 1)) > u64::MAX);
                    }
                } else if acc > (u64::MAX - d) / 10 {
                    over = true;
                    proof {
                        assert(dec_val(s@.subrange(i as int, j + 1)) == acc * 10 + d);
                        assert(acc * 10 + d > u64::MAX);
                    }
                } else {
                    proof {
                        assert(acc * 10 + d <= u64::MAX);
                    }
                    acc = acc * 10 + d;
                }
                j = j + 1;
            },
        }
    }
}

fn x_i64(s: &str, i: usize) -> (r: Option<(i64, usize)>)
    requires
        i <= s@.len(),
    ensures
        match r {
            Some((v, j)) => p_i64(s@, i as int) == Some((v, j as int)) && i <= j <= s@.len(),
            None => p_i64(s@, i as int) is None,
        },
{
    let n = s.unicode_len();
    if i < n && s.get_char(i) == '-' {
        match x_u64(s, i + 1) {
            Some((v, j)) => {
                if v <= 0x8000000000000000u64 {
                    let r: i64 = if v == 0x8000000000000000u64 {
                        i64::MIN
                    } else {
                        -(v as i64)
                    };
                    proof {
                        assert(r as int == -(v as int));
                    }
                    Some((r, j))
                } else {
                    None
                }
            },
            None => None,
        }
    } else {
        match x_u64(s, i) {
            Some((v, j)) => {
                if v <= i64::MAX as u64 {
                    Some((v as i64, j))
                } else {
                    None
                }
            },
            None => None,
        }
    }
}

proof fn lemma_p_qchars_bounds(s: Seq<char>, i: int)
    ensures
        match p_qchars(s, i) {
            Some((v, j)) => i < j <= s.len(),
            None => true,
        },
    decreases s.len() - i,
{
    if 0 <= i < s.len() {
        if s[i] == '"' {
        } else if s[i] == '\\' {
            if i + 1 < s.len() {
                lemma_p_qchars_bounds(s, i + 2);
            }
        } else {
            lemma_p_qchars_bounds(s, i + 1);
        }
    }
}

fn x_qs(s: &str, i: usize) -> (r: Option<(String, usize)>)
    requires
        i <= s@.len(),
    ensures
        match r {
            Some((v, j)) => p_qs(s@, i as int) == Some((v@, j as int)) && i <= j <= s@.len(),
            None => p_qs(s@, i as int) is None,
        },
{
    let n = s.unicode_len();
    if i >= n || s.get_char(i) != '"' {
        return None;
    }
    let mut out = String::new();
    let mut cur: usize = i + 1;
    proof {
        lemma_p_qchars_bounds(s@, i + 1);
        if p_qchars(s@, i + 1) is Some {
            let (v0, j0) = p_qchars(s@, i + 1)->Some_0;
            assert(out@ + v0 =~= v0);
        }
    }
    loop
        invariant
            n == s@.len(),
            i < n,
            s@[i as int] == '"',
            i + 1 <= cur <= n,
            match p_qchars(s@, cur as int) {
                Some((v, j)) => p_qchars(s@, i + 1) == Some((out@ + v, j)) && i + 1 <= j
                    <= s@.len(),
                None => p_qchars(s@, i + 1) is None,
            },
        decreases n - cur,
    {
        if cur >= n {
            return None;
        }
        let c = s.get_char(cur);
        if c == '"' {
            proof {
                assert(p_qchars(s@, cur as int) == Some((Seq::<char>::empty(), cur + 1)));
                assert(out@ + Seq::<char>::empty() =~= out@);
            }
            return Some((out, cur + 1));
        } else if c == '\\' {
            if cur + 1 >= n {
                return None;
            }
            let e = s.get_char(cur + 1);
            let ghost prev = out@;
            if e == '"' {
                push_char(&mut out, '"');
            } else if e == '\\' {
                push_char(&mut out, '\\');
            } else if e == 'n' {
                push_char(&mut out, '\n');
            } else if e == 'r' {
                push_char(&mut out, '\r');
            } else if e == 't' {
                push_char(&mut out, '\t');
            } else {
                return None;
            }
            proof {
                let dc = unescape_char(s@[cur + 1])->Some_0;
                assert(out@ == prev.push(dc));
                if p_qchars(s@, cur + 2) is Some {
                    let (v2, j2) = p_qchars(s@, cur + 2)->Some_0;
                    assert(p_qchars(s@, cur as int) == Some((seq![dc] + v2, j2)));
                    assert(prev + (seq![dc] + v2) =~= out@ + v2);
                }
            }
            cur = cur + 2;
        } else {
            let ghost prev = out@;
            push_char(&mut out, c);
            proof {
                if p_qchars(s@, cur + 1) is Some {
                    let (v2, j2) = p_qchars(s@, cur + 1)->Some_0;
                    assert(p_qchars(s@, cur as int) == Some((seq![s@[cur as int]] + v2, j2)));
                    assert(prev + (seq![s@[cur as int]] + v2) =~= out@ + v2);
                }
            }
            cur = cur + 1;
        }
    }
}

fn x_opt(s: &str, i: usize) -> (r: Option<(Option<String>, usize)>)
    requires
        i <= s@.len(),
    ensures
        match r {
            Some((v, j)) => p_opt(s@, i as int) == Some((crate::line::opt_str_view(&v), j as int))
                && i <= j <= s@.len(),
            None => p_opt(s@, i as int) is None,
        },
{
    match x_lit(s, i, "null") {
        Some(j) => Some((None, j)),
        None => match x_qs(s, i) {
            Some((v, j)) => Some((Some(v), j)),
            None => None,
        },
    }
}

fn x_kind(s: &str, i: usize) -> (r: Option<(crate::line::MsgKind, usize)>)
    requires
        i <= s@.len(),
    ensures
        match r {
            Some((k, j)) => p_kind(s@, i as int) == Some((k, j as int)) && i <= j <= s@.len(),
            None => p_kind(s@, i as int) is None,
        },
{
    if let Some(j) = x_lit(s, i, "\"PrivMsg\"") {
        return Some((crate::line::MsgKind::PrivMsg, j));
    }
    if let Some(j) = x_lit(s, i, "\"Notice\"") {
        return Some((crate::line::MsgKind::Notice, j));
    }
    if let Some(j) = x_lit(s, i, "\"Action\"") {
        return Some((crate::line::MsgKind::Action, j));
    }
    if let Some(j) = x_lit(s, i, "\"Status\"") {
        return Some((crate::line::MsgKind::Status, j));
    }
    match x_u64(s, i) {
        Some((v, j)) => {
            if v <= u16::MAX as u64 {
                Some((crate::line::MsgKind::Response(v as u16), j))
            } else {
                None
            }
        },
        None => None,
    }
}

fn x_user(s: &str, i: usize) -> (r: Option<(crate::line::User, usize)>)
    requires
        i <= s@.len(),
    ensures
        match r {
            Some((u, j)) => p_user(s@, i as int) == Some((u@, j as int)) && i <= j <= s@.len(),
            None => p_user(s@, i as int) is None,
        },
{
    let i1 = match x_lit(s, i, "{\"nick\":") {
        Some(j) => j,
        None => {
            return None;
        },
    };
    let (nick, i2) = match x_qs(s, i1) {
        Some(p) => p,
        None => {
            return None;
        },
    };
    let i3 = match x_lit(s, i2, ",\"ident\":") {
        Some(j) => j,
        None => {
            return None;
        },
    };
    let (ident, i4) = match x_qs(s, i3) {
        Some(p) => p,
        None => {
            return None;
        },
    };
    let i5 = match x_lit(s, i4, ",\"host\":") {
        Some(j) => j,
        None => {
            return None;
        },
    };
    let (host, i6) = match x_qs(s, i5) {
        Some(p) => p,
        None => {
            return None;
        },
    };
    let i7 = match x_lit(s, i6, "}") {
        Some(j) => j,
        None => {
            return None;
        },
    };
    Some((crate::line::User { nick, ident, host }, i7))
}

#[verifier::rlimit(100)]
#[verifier::spinoff_prover]
fn x_data(s: &str, i: usize) -> (r: Option<(crate::line::LineData, usize)>)
    requires
        i <= s@.len(),
    ensures
        match r {
            Some((d, j)) => p_data(s@, i as int) == Some((d@, j as int)) && i <= j <= s@.len(),
            None => p_data(s@, i as int) is None,
        },
{
    if let Some(i1) = x_lit(s, i, "{\"type\":\"Message\",\"kind\":") {
        let (kind, i2) = match x_kind(s, i1) {
            Some(p) => p,
            None => {
                return None;
            },
        };
        let i3 = match x_lit(s, i2, ",\"from\":") {
            Some(j) => j,
            None => {
                return None;
            },
        };
        let (from, i4) = match x_qs(s, i3) {
            Some(p) => p,
            None => {
                return None;
            },
        };
        let i5 = match x_lit(s, i4, ",\"msg\":") {
            Some(j) => j,
            None => {
                return None;
            },
        };
        let (msg, i6) = match x_qs(s, i5) {
            Some(p) => p,
            None => {
                return None;
            },
        };
        let i7 = match x_lit(s, i6, "}") {
            Some(j) => j,
            None => {
                return None;
            },
        };
        return Some((crate::line::LineData::Message { kind, from, msg }, i7));
    }
    if let Some(i1) = x_lit(s, i, "{\"type\":\"Topic\",\"by\":") {
        let (by, i2) = match x_opt(s, i1) {
            Some(p) => p,
            None => {
                return None;
            },
        };
        let i3 = match x_lit(s, i2, ",\"topic\":") {
            Some(j) => j,
            None => {
                return None;
            },
        };
        let (topic, i4) = match x_qs(s, i3) {
            Some(p) => p,
            None => {
                return None;
            },
        };
        let i5 = match x_lit(s, i4, "}") {
            Some(j) => j,
            None => {
                return None;
            },
        };
        return Some((crate::line::LineData::Topic { by, topic }, i5));
    }
    if let Some(i1) = x_lit(s, i, "{\"type\":\"Join\",\"user\":") {
        let (user, i2) = match x_user(s, i1) {
            Some(p) => p,
            None => {
                return None;
            },
        };
        let i3 = match x_lit(s, i2, "}") {
            Some(j) => j,
            None => {
                return None;
            },
        };
        return Some((crate::line::LineData::Join { user }, i3));
    }
    if let Some(i1) = x_lit(s, i, "{\"type\":\"Part\",\"user\":") {
        let (user, i2) = match x_user(s, i1) {
            Some(p) => p,
            None => {
                return None;
            },
        };
        let i3 = match x_lit(s, i2, ",\"reason\":") {
            Some(j) => j,
            None => {
                return None;
            },
        };
        let (reason, i4) = match x_qs(s, i3) {
            Some(p) => p,
            None => {
                return None;
            },
        };
        let i5 = match x_lit(s, i4, "}") {
            Some(j) => j,
            None => {
                return None;
            },
        };
        return Some((crate::line::LineData::Part { user, reason }, i5));
    }
    if let Some(i1) = x_lit(s, i, "{\"type\":\"Kick\",\"by\":") {
        let (by, i2) = match x_user(s, i1) {
            Some(p) => p,
            None => {
                return None;
            },
        };
        let i3 = match x_lit(s, i2, ",\"user\":") {
            Some(j) => j,
            None => {
                return None;
            },
        };
        let (user, i4) = match x_qs(s, i3) {
            Some(p) => p,
            None => {
                return None;
            },
        };
        let i5 = match x_lit(s, i4, ",\"reason\":") {
            Some(j) => j,
            None => {
                return None;
            },
        };
        let (reason, i6) = match x_qs(s, i5) {
            Some(p) => p,
            None => {
                return None;
            },
        };
        let i7 = match x_lit(s, i6, "}") {
            Some(j) => j,
            None => {
                return None;
            },
        };
        return Some((crate::line::LineData::Kick { by, user, reason }, i7));
    }
    if let Some(i1) = x_lit(s, i, "{\"type\":\"Quit\",\"user\":") {
        let (user, i2) = match x_user(s, i1) {
            Some(p) => p,
            None => {
                return None;
            },
        };
        let i3 = match x_lit(s, i2, ",\"msg\":") {
            Some(j) => j,
            None => {
                return None;
            },
        };
        let (msg, i4) = match x_opt(s, i3) {
            Some(p) => p,
            None => {
                return None;
            },
        };
        let i5 = match x_lit(s, i4, "}") {
            Some(j) => j,
            None => {
                return None;
            },
        };
        return Some((crate::line::LineData::Quit { user, msg }, i5));
    }
    if let Some(i1) = x_lit(s, i, "{\"type\":\"Nick\",\"user\":") {
        let (user, i2) = match x_user(s, i1) {
            Some(p) => p,
            None => {
                return None;
            },
        };
        let i3 = match x_lit(s, i2, ",\"new\":") {
            Some(j) => j,
            None => {
                return None;
            },
        };
        let (new, i4) = match x_qs(s, i3) {
            Some(p) => p,
            None => {
                return None;
            },
        };
        let i5 = match x_lit(s, i4, "}") {
            Some(j) => j,
            None => {
                return None;
            },
        };
        return Some((crate::line::LineData::Nick { user, new }, i5));
    }
    None
}

/// Parses one record; `None` exactly on records the format does not produce.
pub fn parse_line(s: &str) -> (r: Option<crate::line::BufferLine>)
    ensures
        match r {
            Some(l) => p_line(s@) == Some(l@),
            None => p_line(s@) is None,
        },
{
    let n = s.unicode_len();
    let i1 = match x_lit(s, 0, "{\"id\":") {
        Some(j) => j,
        None => {
            return None;
        },
    };
    let (id, i2) = match x_u64(s, i1) {
        Some(p) => p,
        None => {
            return None;
        },
    };
    let i3 = match x_lit(s, i2, ",\"time\":") {
        Some(j) => j,
        None => {
            return None;
        },
    };
    let (time, i4) = match x_i64(s, i3) {
        Some(p) => p,
        None => {
            return None;
        },
    };
    let i5 = match x_lit(s, i4, ",\"data\":") {
        Some(j) => j,
        None => {
            return None;
        },
    };
    let (data, i6) = match x_data(s, i5) {
        Some(p) => p,
        None => {
            return None;
        },
    };
    let i7 = match x_lit(s, i6, "}") {
        Some(j) => j,
        None => {
            return None;
        },
    };
    if i7 != n {
        return None;
    }
    Some(crate::line::BufferLine { id, time, data })
}

// ---------------------------------------------------------------------------
// Records never hold a raw newline, so one record per line frames cleanly
// ---------------------------------------------------------------------------
/// No raw newline anywhere in the sequence.
pub open spec fn no_newline(s: Seq<char>) -> bool {
    forall|i: int| 0 <= i < s.len() ==> s[i] != '\n'
}

proof fn lemma_no_newline_concat(a: Seq<char>, b: Seq<char>)
    requires
        no_newline(a),
        no_newline(b),
    ensures
        no_newline(a + b),
{
    assert forall|i: int| 0 <= i < (a + b).len() implies (a + b)[i] != '\n' by {
        if i < a.len() {
            assert((a + b)[i] == a[i]);
        } else {
            assert((a + b)[i] == b[i - a.len()]);
        }
    }
}

proof fn lemma_no_newline_lits()
    ensures
        no_newline(lit_id()),
        no_newline(lit_time()),
        no_newline(lit_data()),
        no_newline(lit_rbrace()),
        no_newline(lit_null()),
        no_newline(lit_nick_open()),
        no_newline(lit_ident()),
        no_newline(lit_host()),
        no_newline(lit_k_priv()),
        no_newline(lit_k_notice()),
        no_newline(lit_k_action()),
        no_newline(lit_k_status()),
        no_newline(lit_msg_open()),
        no_newline(lit_from()),
        no_newline(lit_msg_field()),
        no_newline(lit_topic_open()),
        no_newline(lit_topic_field()),
        no_newline(lit_join_open()),
        no_newline(lit_part_open()),
        no_newline(lit_reason()),
        no_newline(lit_kick_open()),
        no_newline(lit_user_field()),
        no_newline(lit_quit_open()),
        no_newline(lit_nick_variant_open()),
        no_newline(lit_new()),
{
    reveal_strlit("{\"id\":");
    reveal_strlit(",\"time\":");
    reveal_strlit(",\"data\":");
    reveal_strlit("}");
    reveal_strlit("null");
    reveal_strlit("{\"nick\":");
    reveal_strlit(",\"ident\":");
    reveal_strlit(",\"host\":");
    reveal_strlit("\"PrivMsg\"");
    reveal_strlit("\"Notice\"");
    reveal_strlit("\"Action\"");
    reveal_strlit("\"Status\"");
    reveal_strlit("{\"type\":\"Message\",\"kind\":");
    reveal_strlit(",\"from\":");
    reveal_strlit(",\"msg\":");
    reveal_strlit("{\"type\":\"Topic\",\"by\":");
    reveal_strlit(",\"topic\":");
    reveal_strlit("{\"type\":\"Join\",\"user\":");
    reveal_strlit("{\"type\":\"Part\",\"user\":");
    reveal_strlit(",\"reason\":");
    reveal_strlit("{\"type\":\"Kick\",\"by\":");
    reveal_strlit(",\"user\":");
    reveal_strlit("{\"type\":\"Quit\",\"user\":");
    reveal_strlit("{\"type\":\"Nick\",\"user\":");
    reveal_strlit(",\"new\":");
}

proof fn lemma_no_newline_digits(n: nat)
    ensures
        no_newline(dec_digits(n)),
    decreases n,
{
    lemma_dec_digits_all_digits(n);
    assert forall|i: int| 0 <= i < dec_digits(n).len() implies dec_digits(n)[i] != '\n' by {
        assert(is_digit(dec_digits(n)[i]));
    }
}

proof fn lemma_no_newline_i64(n: int)
    ensures
        no_newline(enc_i64(n)),
{
    if n < 0 {
        lemma_no_newline_digits((-n) as nat);
        assert forall|i: int| 0 <= i < enc_i64(n).len() implies enc_i64(n)[i] != '\n' by {
            if i > 0 {
                assert(enc_i64(n)[i] == dec_digits((-n) as nat)[i - 1]);
            }
        }
    } else {
        lemma_no_newline_digits(n as nat);
    }
}

/// The escaping encoder never emits a raw newline: a newline in the text
/// becomes a backslash escape.
proof fn lemma_no_newline_escape(v: Seq<char>)
    ensures
        no_newline(escape_seq(v)),
    decreases v.len(),
{
    if v.len() > 0 {
        lemma_no_newline_escape(v.drop_first());
        assert(no_newline(escape_char(v[0])));
        lemma_no_newline_concat(escape_char(v[0]), escape_seq(v.drop_first()));
    }
}

proof fn lemma_no_newline_qs(v: Seq<char>)
    ensures
        no_newline(enc_qs(v)),
{
    lemma_no_newline_escape(v);
    assert(no_newline(seq!['"']));
    lemma_no_newline_concat(seq!['"'], escape_seq(v));
    lemma_no_newline_concat(seq!['"'] + escape_seq(v), seq!['"']);
}

proof fn lemma_no_newline_opt(o: Option<Seq<char>>)
    ensures
        no_newline(enc_opt(o)),
{
    lemma_no_newline_lits();
    match o {
        None => {
        },
        Some(v) => {
            lemma_no_newline_qs(v);
        },
    }
}

proof fn lemma_no_newline_kind(k: crate::line::MsgKind)
    ensures
        no_newline(enc_kind(k)),
{
    lemma_no_newline_lits();
    match k {
        crate::line::MsgKind::Response(c) => {
            lemma_no_newline_digits(c as nat);
        },
        _ => {
        },
    }
}

proof fn lemma_no_newline_user(u: crate::line::UserV)
    ensures
        no_newline(enc_user(u)),
{
    lemma_no_newline_lits();
    lemma_no_newline_qs(u.nick);
    lemma_no_newline_qs(u.ident);
    lemma_no_newline_qs(u.host);
    lemma_no_newline_concat(lit_nick_open(), enc_qs(u.nick));
    lemma_no_newline_concat(lit_nick_open() + enc_qs(u.nick), lit_ident());
    lemma_no_newline_concat(lit_nick_open() + enc_qs(u.nick) + lit_ident(), enc_qs(u.ident));
    lemma_no_newline_concat(
        lit_nick_open() + enc_qs(u.nick) + lit_ident() + enc_qs(u.ident),
        lit_host(),
    );
    lemma_no_newline_concat(
        lit_nick_open() + enc_qs(u.nick) + lit_ident() + enc_qs(u.ident) + lit_host(),
        enc_qs(u.host),
    );
    lemma_no_newline_concat(
        lit_nick_open() + enc_qs(u.nick) + lit_ident() + enc_qs(u.ident) + lit_host() + enc_qs(
            u.host,
        ),
        lit_rbrace(),
    );
}

proof fn lemma_no_newline_data(d: crate::line::LineDataV)
    ensures
        no_newline(enc_data(d)),
{
    lemma_no_newline_lits();
    match d {
        crate::line::LineDataV::Message { kind, from, msg } => {
            lemma_no_newline_kind(kind);
            lemma_no_newline_qs(from);
            lemma_no_newline_qs(msg);
            lemma_no_newline_concat(lit_msg_open(), enc_kind(kind));
            lemma_no_newline_concat(lit_msg_open() + enc_kind(kind), lit_from());
            lemma_no_newline_concat(lit_msg_open() + enc_kind(kind) + lit_from(), enc_qs(from));
            lemma_no_newline_concat(lit_msg_open() + enc_kind(kind) + lit_from() + enc_qs(from), lit_msg_field());
            lemma_no_newline_concat(lit_msg_open() + enc_kind(kind) + lit_from() + enc_qs(from) + lit_msg_field(), enc_qs(msg));
            lemma_no_newline_concat(lit_msg_open() + enc_kind(kind) + lit_from() + enc_qs(from) + lit_msg_field() + enc_qs(msg), lit_rbrace());
        },
        crate::line::LineDataV::Topic { by, topic } => {
            lemma_no_newline_opt(by);
            lemma_no_newline_qs(topic);
            lemma_no_newline_concat(lit_topic_open(), enc_opt(by));
            lemma_no_newline_concat(lit_topic_open() + enc_opt(by), lit_topic_field());
            lemma_no_newline_concat(lit_topic_open() + enc_opt(by) + lit_topic_field(), enc_qs(topic));
            lemma_no_newline_concat(lit_topic_open() + enc_opt(by) + lit_topic_field() + enc_qs(topic), lit_rbrace());
        },
        crate::line::LineDataV::Join { user } => {
            lemma_no_newline_user(user);
            lemma_no_newline_concat(lit_join_open(), enc_user(user));
            lemma_no_newline_concat(lit_join_open() + enc_user(user), lit_rbrace());
        },
        crate::line::LineDataV::Part { user, reason } => {
            lemma_no_newline_user(user);
            lemma_no_newline_qs(reason);
            lemma_no_newline_concat(lit_part_open(), enc_user(user));
            lemma_no_newline_concat(lit_part_open() + enc_user(user), lit_reason());
            lemma_no_newline_concat(lit_part_open() + enc_user(user) + lit_reason(), enc_qs(reason));
            lemma_no_newline_concat(lit_part_open() + enc_user(user) + lit_reason() + enc_qs(reason), lit_rbrace());
        },
        crate::line::LineDataV::Kick { by, user, reason } => {
            lemma_no_newline_user(by);
            lemma_no_newline_qs(user);
            lemma_no_newline_qs(reason);
            lemma_no_newline_concat(lit_kick_open(), enc_user(by));
            lemma_no_newline_concat(lit_kick_open() + enc_user(by), lit_user_field());
            lemma_no_newline_concat(lit_kick_open() + enc_user(by) + lit_user_field(), enc_qs(user));
            lemma_no_newline_concat(lit_kick_open() + enc_user(by) + lit_user_field() + enc_qs(user), lit_reason());
            lemma_no_newline_concat(lit_kick_open() + enc_user(by) + lit_user_field() + enc_qs(user) + lit_reason(), enc_qs(reason));
            lemma_no_newline_concat(lit_kick_open() + enc_user(by) + lit_user_field() + enc_qs(user) + lit_reason() + enc_qs(reason), lit_rbrace());
        },
        crate::line::LineDataV::Quit { user, msg } => {
            lemma_no_newline_user(user);
            lemma_no_newline_opt(msg);
            lemma_no_newline_concat(lit_quit_open(), enc_user(user));
            lemma_no_newline_concat(lit_quit_open() + enc_user(user), lit_msg_field());
            lemma_no_newline_concat(lit_quit_open() + enc_user(user) + lit_msg_field(), enc_opt(msg));
            lemma_no_newline_concat(lit_quit_open() + enc_user(user) + lit_msg_field() + enc_opt(msg), lit_rbrace());
        },
        crate::line::LineDataV::Nick { user, new } => {
            lemma_no_newline_user(user);
            lemma_no_newline_qs(new);
            lemma_no_newline_concat(lit_nick_variant_open(), enc_user(user));
            lemma_no_newline_concat(lit_nick_variant_open() + enc_user(user), lit_new());
            lemma_no_newline_concat(lit_nick_variant_open() + enc_user(user) + lit_new(), enc_qs(new));
            lemma_no_newline_concat(lit_nick_variant_open() + enc_user(user) + lit_new() + enc_qs(new), lit_rbrace());
        },
    }
}

/// An encoded record holds no raw newline, so records joined with newlines
/// split back into exactly the same records.
pub proof fn lemma_enc_line_no_newline(l: crate::line::BufferLineV)
    ensures
        no_newline(enc_line(l)),
{
    lemma_no_newline_lits();
    lemma_no_newline_digits(l.id as nat);
    lemma_no_newline_i64(l.time as int);
    lemma_no_newline_data(l.data);
    lemma_no_newline_concat(lit_id(), dec_digits(l.id as nat));
    lemma_no_newline_concat(lit_id() + dec_digits(l.id as nat), lit_time());
    lemma_no_newline_concat(lit_id() + dec_digits(l.id as nat) + lit_time(), enc_i64(l.time as int));
    lemma_no_newline_concat(lit_id() + dec_digits(l.id as nat) + lit_time() + enc_i64(l.time as int), lit_data());
    lemma_no_newline_concat(lit_id() + dec_digits(l.id as nat) + lit_time() + enc_i64(l.time as int) + lit_data(), enc_data(l.data));
    lemma_no_newline_concat(lit_id() + dec_digits(l.id as nat) + lit_time() + enc_i64(l.time as int) + lit_data() + enc_data(l.data), lit_rbrace());
}

} // verus!
