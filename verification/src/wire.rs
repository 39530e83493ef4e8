//! The wire format, as mathematics.
//!
//! An envelope travels as UTF-8 text in a self-describing shape: objects
//! with named fields in the documented order, the purpose selected by an
//! explicit discriminator, and timestamps as RFC 3339 instants. This
//! module defines the canonical encoding of every value (`enc_*`) and
//! the specification parser (`sp_*`) that the executable encoder and
//! decoder are proved against. The parser is tolerant where producers
//! differ: whitespace may stand between any two tokens, strings may use
//! the JSON escape set, an instant may carry fractional seconds or a
//! numeric offset (normalized to UTC), and a missing `trace_id` field
//! reads as its absence. It accepts every canonical encoding; the proof
//! of that round trip stands in the laws module.

use vstd::prelude::*;
use crate::envelope::{EnvelopeView, GroupContextView, NotificationChannel, PurposeView, UserView};
use crate::instant::{Instant, spec_days_in_month, wf_instant};

verus! {

// ----- encoding -----

/// How one character is written inside a canonical quoted string.
pub open spec fn esc_char(c: char) -> Seq<char> {
    if c == '"' || c == '\\' {
        seq!['\\', c]
    } else {
        seq![c]
    }
}

/// A character sequence with its quotes-and-backslashes escaped.
pub open spec fn esc(s: Seq<char>) -> Seq<char>
    decreases s.len(),
{
    if s.len() == 0 {
        Seq::empty()
    } else {
        esc_char(s[0]) + esc(s.skip(1))
    }
}

/// A quoted string.
pub open spec fn enc_str(s: Seq<char>) -> Seq<char> {
    seq!['"'] + esc(s) + seq!['"']
}

/// A quoted field name followed by its colon.
pub open spec fn enc_key(k: Seq<char>) -> Seq<char> {
    enc_str(k) + ":"@
}

/// The character for one decimal digit.
pub open spec fn dchar(d: int) -> char {
    if d == 0 {
        '0'
    } else if d == 1 {
        '1'
    } else if d == 2 {
        '2'
    } else if d == 3 {
        '3'
    } else if d == 4 {
        '4'
    } else if d == 5 {
        '5'
    } else if d == 6 {
        '6'
    } else if d == 7 {
        '7'
    } else if d == 8 {
        '8'
    } else {
        '9'
    }
}

/// The date half of a quoted instant: `"YYYY-MM-DD`.
pub open spec fn enc_instant_date(t: Instant) -> Seq<char> {
    seq![
        '"',
        dchar(t.year as int / 1000),
        dchar((t.year as int / 100) % 10),
        dchar((t.year as int / 10) % 10),
        dchar(t.year as int % 10),
        '-',
        dchar(t.month as int / 10),
        dchar(t.month as int % 10),
        '-',
        dchar(t.day as int / 10),
        dchar(t.day as int % 10),
    ]
}

/// The time half of a quoted instant: `THH:MM:SSZ"`.
pub open spec fn enc_instant_time(t: Instant) -> Seq<char> {
    seq![
        'T',
        dchar(t.hour as int / 10),
        dchar(t.hour as int % 10),
        ':',
        dchar(t.minute as int / 10),
        dchar(t.minute as int % 10),
        ':',
        dchar(t.second as int / 10),
        dchar(t.second as int % 10),
        'Z',
        '"',
    ]
}

/// A quoted fixed-width ISO-8601 UTC instant: `"YYYY-MM-DDTHH:MM:SSZ"`.
pub open spec fn enc_instant(t: Instant) -> Seq<char> {
    enc_instant_date(t) + enc_instant_time(t)
}

pub open spec fn enc_user(u: UserView) -> Seq<char> {
    "{"@ + enc_key("name"@) + enc_str(u.name) + ","@ + enc_key("email"@) + enc_str(u.email)
        + ","@ + enc_key("phone_number"@) + enc_str(u.phone_number) + ","@ + enc_key(
        "apn_token"@,
    ) + enc_str(u.apn_token) + "}"@
}

pub open spec fn enc_channel(c: NotificationChannel) -> Seq<char> {
    match c {
        NotificationChannel::Email => enc_str("Email"@),
        NotificationChannel::PushNotification => enc_str("APN"@),
    }
}

pub open spec fn enc_users_rest(l: Seq<UserView>) -> Seq<char>
    decreases l.len(),
{
    if l.len() == 0 {
        "]"@
    } else {
        ","@ + enc_user(l[0]) + enc_users_rest(l.skip(1))
    }
}

pub open spec fn enc_users(l: Seq<UserView>) -> Seq<char> {
    if l.len() == 0 {
        "["@ + "]"@
    } else {
        "["@ + enc_user(l[0]) + enc_users_rest(l.skip(1))
    }
}

pub open spec fn enc_channels_rest(l: Seq<NotificationChannel>) -> Seq<char>
    decreases l.len(),
{
    if l.len() == 0 {
        "]"@
    } else {
        ","@ + enc_channel(l[0]) + enc_channels_rest(l.skip(1))
    }
}

pub open spec fn enc_channels(l: Seq<NotificationChannel>) -> Seq<char> {
    if l.len() == 0 {
        "["@ + "]"@
    } else {
        "["@ + enc_channel(l[0]) + enc_channels_rest(l.skip(1))
    }
}

pub open spec fn enc_gctx(g: GroupContextView) -> Seq<char> {
    "{"@ + enc_key("match_id"@) + enc_str(g.match_id) + ","@ + enc_key("group"@) + enc_users(
        g.group,
    ) + ","@ + enc_key("datetime_start"@) + enc_instant(g.datetime_start) + ","@ + enc_key(
        "datetime_end"@,
    ) + enc_instant(g.datetime_end) + "}"@
}

/// The `AuthToken` data object.
pub open spec fn enc_auth_data(token: Seq<char>, eov: Instant) -> Seq<char> {
    "{"@ + enc_key("token"@) + enc_str(token) + ","@ + enc_key("eov"@) + enc_instant(eov) + "}"@
}

pub open spec fn enc_payload(p: PurposeView) -> Seq<char> {
    match p {
        PurposeView::Matched { data } => "{"@ + enc_key("type"@) + enc_str("Matched"@) + ","@
            + enc_key("data"@) + enc_gctx(data) + "}"@,
        PurposeView::Canceled { data, reason } => "{"@ + enc_key("type"@) + enc_str("Canceled"@)
            + ","@ + enc_key("data"@) + enc_gctx(data) + ","@ + enc_key("reason"@) + enc_str(
            reason,
        ) + "}"@,
        PurposeView::AuthToken { token, eov } => "{"@ + enc_key("type"@) + enc_str("AuthToken"@)
            + ","@ + enc_key("data"@) + enc_auth_data(token, eov) + "}"@,
    }
}

pub open spec fn enc_trace(t: Option<Seq<char>>) -> Seq<char> {
    match t {
        Some(s) => enc_str(s),
        None => "null"@,
    }
}

pub open spec fn enc_envelope(v: EnvelopeView) -> Seq<char> {
    "{"@ + enc_key("target_user"@) + enc_user(v.target_user) + ","@ + enc_key("channels"@)
        + enc_channels(v.channels) + ","@ + enc_key("payload"@) + enc_payload(v.payload) + ","@
        + enc_key("trace_id"@) + enc_trace(v.trace_id) + "}"@
}

// ----- the specification parser -----

/// The whitespace that may stand between tokens.
pub open spec fn is_ws(c: char) -> bool {
    c == ' ' || c == '\t' || c == '\n' || c == '\r'
}

/// The first position at or after `i` that holds no whitespace.
pub open spec fn sp_ws(s: Seq<char>, i: int) -> int
    decreases s.len() - i,
{
    if 0 <= i && i < s.len() && is_ws(s[i]) {
        sp_ws(s, i + 1)
    } else {
        i
    }
}

/// The first position at or after `i` that holds no decimal digit.
pub open spec fn sp_digits(s: Seq<char>, i: int) -> int
    decreases s.len() - i,
{
    if 0 <= i && i < s.len() && digit_val(s[i]) >= 0 {
        sp_digits(s, i + 1)
    } else {
        i
    }
}

/// Expect a fixed literal at position `i` exactly; on success, the
/// position after it.
pub open spec fn sp_lit(s: Seq<char>, i: int, lit: Seq<char>) -> Option<int> {
    if 0 <= i && i + lit.len() <= s.len() && s.subrange(i, i + lit.len()) == lit {
        Some(i + lit.len())
    } else {
        None
    }
}

/// Expect a token: the literal, any whitespace before it skipped.
pub open spec fn sp_tok(s: Seq<char>, i: int, lit: Seq<char>) -> Option<int> {
    sp_lit(s, sp_ws(s, i), lit)
}

/// What one short escape after a backslash unescapes to.
pub open spec fn unesc_char(c: char) -> char {
    if c == 'b' {
        '\u{0008}'
    } else if c == 'f' {
        '\u{000C}'
    } else if c == 'n' {
        '\n'
    } else if c == 'r' {
        '\r'
    } else if c == 't' {
        '\t'
    } else {
        c
    }
}

/// The escapes a quoted string may use.
pub open spec fn is_escape(c: char) -> bool {
    c == '"' || c == '\\' || c == '/' || c == 'b' || c == 'f' || c == 'n' || c == 'r' || c == 't'
}

/// The inside of a quoted string, from just after the opening quote up to
/// and including the closing quote.
pub open spec fn sp_str_body(s: Seq<char>, i: int) -> Option<(Seq<char>, int)>
    decreases s.len() - i,
{
    if i < 0 || i >= s.len() {
        None
    } else if s[i] == '"' {
        Some((Seq::empty(), i + 1))
    } else if s[i] == '\\' {
        if i + 1 < s.len() && is_escape(s[i + 1]) {
            match sp_str_body(s, i + 2) {
                Some((v, j)) => Some((seq![unesc_char(s[i + 1])] + v, j)),
                None => None,
            }
        } else {
            None
        }
    } else {
        match sp_str_body(s, i + 1) {
            Some((v, j)) => Some((seq![s[i]] + v, j)),
            None => None,
        }
    }
}

/// A quoted string, at position `i` exactly.
pub open spec fn sp_str(s: Seq<char>, i: int) -> Option<(Seq<char>, int)> {
    if 0 <= i && i < s.len() && s[i] == '"' {
        sp_str_body(s, i + 1)
    } else {
        None
    }
}

/// A quoted string token.
pub open spec fn sp_str_ws(s: Seq<char>, i: int) -> Option<(Seq<char>, int)> {
    sp_str(s, sp_ws(s, i))
}

/// A field name token followed by its colon token; on success, the
/// position after the colon.
pub open spec fn sp_key(s: Seq<char>, i: int, key: Seq<char>) -> Option<int> {
    match sp_str_ws(s, i) {
        Some((k, j)) => if k == key {
            sp_tok(s, j, ":"@)
        } else {
            None
        },
        None => None,
    }
}

/// The value of one decimal digit character, or a negative number.
pub open spec fn digit_val(c: char) -> int {
    if c == '0' {
        0
    } else if c == '1' {
        1
    } else if c == '2' {
        2
    } else if c == '3' {
        3
    } else if c == '4' {
        4
    } else if c == '5' {
        5
    } else if c == '6' {
        6
    } else if c == '7' {
        7
    } else if c == '8' {
        8
    } else if c == '9' {
        9
    } else {
        -1
    }
}

pub open spec fn digits2_at(s: Seq<char>, i: int) -> bool {
    digit_val(s[i]) >= 0 && digit_val(s[i + 1]) >= 0
}

pub open spec fn digits4_at(s: Seq<char>, i: int) -> bool {
    digits2_at(s, i) && digits2_at(s, i + 2)
}

pub open spec fn d2v(s: Seq<char>, i: int) -> int {
    10 * digit_val(s[i]) + digit_val(s[i + 1])
}

pub open spec fn d4v(s: Seq<char>, i: int) -> int {
    1000 * digit_val(s[i]) + 100 * digit_val(s[i + 1]) + 10 * digit_val(s[i + 2]) + digit_val(
        s[i + 3],
    )
}

/// The day before a well-formed date, at the same time of day.
pub open spec fn prev_day(t: Instant) -> Option<Instant> {
    if t.day > 1 {
        Some(Instant { day: (t.day - 1) as u8, ..t })
    } else if t.month > 1 {
        Some(
            Instant {
                month: (t.month - 1) as u8,
                day: spec_days_in_month(t.year as int, t.month as int - 1) as u8,
                ..t
            },
        )
    } else if t.year > 0 {
        Some(Instant { year: (t.year - 1) as u16, month: 12, day: 31, ..t })
    } else {
        None
    }
}

/// The day after a well-formed date, at the same time of day.
pub open spec fn next_day(t: Instant) -> Option<Instant> {
    if (t.day as int) < spec_days_in_month(t.year as int, t.month as int) {
        Some(Instant { day: (t.day + 1) as u8, ..t })
    } else if t.month < 12 {
        Some(Instant { month: (t.month + 1) as u8, day: 1, ..t })
    } else if t.year < 9999 {
        Some(Instant { year: (t.year + 1) as u16, month: 1, day: 1, ..t })
    } else {
        None
    }
}

/// Normalize a local instant with a numeric offset to UTC. A `+` offset
/// means the local clock runs ahead of UTC, so the offset is subtracted;
/// a date that would leave the four-digit-year era is rejected.
pub open spec fn apply_offset(t: Instant, minus: bool, oh: int, om: int) -> Option<Instant> {
    let total = t.hour as int * 60 + t.minute as int;
    let delta = oh * 60 + om;
    let lt = if minus {
        total + delta
    } else {
        total - delta
    };
    if 0 <= lt && lt < 1440 {
        Some(Instant { hour: (lt / 60) as u8, minute: (lt % 60) as u8, ..t })
    } else if lt < 0 {
        match prev_day(t) {
            Some(d) => Some(
                Instant { hour: ((lt + 1440) / 60) as u8, minute: ((lt + 1440) % 60) as u8, ..d },
            ),
            None => None,
        }
    } else {
        match next_day(t) {
            Some(d) => Some(
                Instant { hour: ((lt - 1440) / 60) as u8, minute: ((lt - 1440) % 60) as u8, ..d },
            ),
            None => None,
        }
    }
}

/// The fractional-seconds part, if present: a dot and at least one
/// digit, whose value the model's second precision discards. On
/// success, the position after it.
pub open spec fn sp_frac(s: Seq<char>, p: int) -> Option<int> {
    if 0 <= p && p < s.len() && s[p] == '.' {
        if sp_digits(s, p + 1) > p + 1 {
            Some(sp_digits(s, p + 1))
        } else {
            None
        }
    } else {
        Some(p)
    }
}

/// The offset part of an instant: `Z`, `z`, or a signed `HH:MM` pair
/// applied to the local fields. On success, the UTC instant and the
/// position after the offset.
pub open spec fn sp_offset(s: Seq<char>, q: int, local: Instant) -> Option<(Instant, int)> {
    if 0 <= q && q < s.len() && (s[q] == 'Z' || s[q] == 'z') {
        Some((local, q + 1))
    } else if 0 <= q && q + 6 <= s.len() && (s[q] == '+' || s[q] == '-') && digits2_at(s, q + 1)
        && s[q + 3] == ':' && digits2_at(s, q + 4) {
        let oh = d2v(s, q + 1);
        let om = d2v(s, q + 4);
        if oh <= 23 && om <= 59 {
            match apply_offset(local, s[q] == '-', oh, om) {
                Some(t) => Some((t, q + 6)),
                None => None,
            }
        } else {
            None
        }
    } else {
        None
    }
}

/// A quoted RFC 3339 instant at position `i` exactly: date, `T` or `t`,
/// time, optional fractional seconds, then `Z`, `z` or a numeric offset,
/// normalized to UTC; the result is a well-formed calendar instant.
pub open spec fn sp_instant(s: Seq<char>, i: int) -> Option<(Instant, int)> {
    if !(0 <= i && i + 20 <= s.len()) {
        None
    } else if !(s[i] == '"' && s[i + 5] == '-' && s[i + 8] == '-' && (s[i + 11] == 'T' || s[i
        + 11] == 't') && s[i + 14] == ':' && s[i + 17] == ':') {
        None
    } else if !(digits4_at(s, i + 1) && digits2_at(s, i + 6) && digits2_at(s, i + 9) && digits2_at(
        s,
        i + 12,
    ) && digits2_at(s, i + 15) && digits2_at(s, i + 18)) {
        None
    } else {
        let local = Instant {
            year: d4v(s, i + 1) as u16,
            month: d2v(s, i + 6) as u8,
            day: d2v(s, i + 9) as u8,
            hour: d2v(s, i + 12) as u8,
            minute: d2v(s, i + 15) as u8,
            second: d2v(s, i + 18) as u8,
        };
        if !wf_instant(local) {
            None
        } else {
            match sp_frac(s, i + 20) {
                Some(q) => match sp_offset(s, q, local) {
                    Some((t, r)) => if r < s.len() && s[r] == '"' {
                        Some((t, r + 1))
                    } else {
                        None
                    },
                    None => None,
                },
                None => None,
            }
        }
    }
}

/// A quoted instant token.
pub open spec fn sp_instant_ws(s: Seq<char>, i: int) -> Option<(Instant, int)> {
    sp_instant(s, sp_ws(s, i))
}

pub open spec fn sp_user(s: Seq<char>, i: int) -> Option<(UserView, int)> {
    match sp_tok(s, i, "{"@) {
        Some(j0) => match sp_key(s, j0, "name"@) {
            Some(j1) => match sp_str_ws(s, j1) {
                Some((name, j2)) => match sp_tok(s, j2, ","@) {
                    Some(j3) => match sp_key(s, j3, "email"@) {
                        Some(j4) => match sp_str_ws(s, j4) {
                            Some((email, j5)) => match sp_tok(s, j5, ","@) {
                                Some(j6) => match sp_key(s, j6, "phone_number"@) {
                                    Some(j7) => match sp_str_ws(s, j7) {
                                        Some((phone, j8)) => match sp_tok(s, j8, ","@) {
                                            Some(j9) => match sp_key(s, j9, "apn_token"@) {
                                                Some(j10) => match sp_str_ws(s, j10) {
                                                    Some((apn, j11)) => match sp_tok(
                                                        s,
                                                        j11,
                                                        "}"@,
                                                    ) {
                                                        Some(j12) => Some(
                                                            (
                                                                UserView {
                                                                    name,
                                                                    email,
                                                                    phone_number: phone,
                                                                    apn_token: apn,
                                                                },
                                                                j12,
                                                            ),
                                                        ),
                                                        None => None,
                                                    },
                                                    None => None,
                                                },
                                                None => None,
                                            },
                                            None => None,
                                        },
                                        None => None,
                                    },
                                    None => None,
                                },
                                None => None,
                            },
                            None => None,
                        },
                        None => None,
                    },
                    None => None,
                },
                None => None,
            },
            None => None,
        },
        None => None,
    }
}

pub open spec fn sp_channel(s: Seq<char>, i: int) -> Option<(NotificationChannel, int)> {
    match sp_str_ws(s, i) {
        Some((v, j)) => if v == "Email"@ {
            Some((NotificationChannel::Email, j))
        } else if v == "APN"@ {
            Some((NotificationChannel::PushNotification, j))
        } else {
            None
        },
        None => None,
    }
}

pub open spec fn sp_users_rest(s: Seq<char>, i: int) -> Option<(Seq<UserView>, int)>
    decreases s.len() - i,
{
    match sp_tok(s, i, "]"@) {
        Some(j) => Some((Seq::empty(), j)),
        None => match sp_tok(s, i, ","@) {
            Some(j1) => match sp_user(s, j1) {
                Some((u, j2)) => if i < j2 && j2 <= s.len() {
                    match sp_users_rest(s, j2) {
                        Some((l, j3)) => Some((seq![u] + l, j3)),
                        None => None,
                    }
                } else {
                    None
                },
                None => None,
            },
            None => None,
        },
    }
}

pub open spec fn sp_users(s: Seq<char>, i: int) -> Option<(Seq<UserView>, int)> {
    match sp_tok(s, i, "["@) {
        Some(j) => match sp_tok(s, j, "]"@) {
            Some(j2) => Some((Seq::empty(), j2)),
            None => match sp_user(s, j) {
                Some((u, j2)) => if j < j2 && j2 <= s.len() {
                    match sp_users_rest(s, j2) {
                        Some((l, j3)) => Some((seq![u] + l, j3)),
                        None => None,
                    }
                } else {
                    None
                },
                None => None,
            },
        },
        None => None,
    }
}

pub open spec fn sp_channels_rest(s: Seq<char>, i: int) -> Option<
    (Seq<NotificationChannel>, int),
>
    decreases s.len() - i,
{
    match sp_tok(s, i, "]"@) {
        Some(j) => Some((Seq::empty(), j)),
        None => match sp_tok(s, i, ","@) {
            Some(j1) => match sp_channel(s, j1) {
                Some((c, j2)) => if i < j2 && j2 <= s.len() {
                    match sp_channels_rest(s, j2) {
                        Some((l, j3)) => Some((seq![c] + l, j3)),
                        None => None,
                    }
                } else {
                    None
                },
                None => None,
            },
            None => None,
        },
    }
}

pub open spec fn sp_channels(s: Seq<char>, i: int) -> Option<(Seq<NotificationChannel>, int)> {
    match sp_tok(s, i, "["@) {
        Some(j) => match sp_tok(s, j, "]"@) {
            Some(j2) => Some((Seq::empty(), j2)),
            None => match sp_channel(s, j) {
                Some((c, j2)) => if j < j2 && j2 <= s.len() {
                    match sp_channels_rest(s, j2) {
                        Some((l, j3)) => Some((seq![c] + l, j3)),
                        None => None,
                    }
                } else {
                    None
                },
                None => None,
            },
        },
        None => None,
    }
}

pub open spec fn sp_gctx(s: Seq<char>, i: int) -> Option<(GroupContextView, int)> {
    match sp_tok(s, i, "{"@) {
        Some(j0) => match sp_key(s, j0, "match_id"@) {
            Some(j1) => match sp_str_ws(s, j1) {
                Some((mid, j2)) => match sp_tok(s, j2, ","@) {
                    Some(j3) => match sp_key(s, j3, "group"@) {
                        Some(j4) => match sp_users(s, j4) {
                            Some((grp, j5)) => match sp_tok(s, j5, ","@) {
                                Some(j6) => match sp_key(s, j6, "datetime_start"@) {
                                    Some(j7) => match sp_instant_ws(s, j7) {
                                        Some((ts, j8)) => match sp_tok(s, j8, ","@) {
                                            Some(j9) => match sp_key(s, j9, "datetime_end"@) {
                                                Some(j10) => match sp_instant_ws(s, j10) {
                                                    Some((te, j11)) => match sp_tok(
                                                        s,
                                                        j11,
                                                        "}"@,
                                                    ) {
                                                        Some(j12) => Some(
                                                            (
                                                                GroupContextView {
                                                                    match_id: mid,
                                                                    group: grp,
                                                                    datetime_start: ts,
                                                                    datetime_end: te,
                                                                },
                                                                j12,
                                                            ),
                                                        ),
                                                        None => None,
                                                    },
                                                    None => None,
                                                },
                                                None => None,
                                            },
                                            None => None,
                                        },
                                        None => None,
                                    },
                                    None => None,
                                },
                                None => None,
                            },
                            None => None,
                        },
                        None => None,
                    },
                    None => None,
                },
                None => None,
            },
            None => None,
        },
        None => None,
    }
}

/// The `AuthToken` data object: a token string and its expiry instant.
pub open spec fn sp_auth_data(s: Seq<char>, i: int) -> Option<((Seq<char>, Instant), int)> {
    match sp_tok(s, i, "{"@) {
        Some(j0) => match sp_key(s, j0, "token"@) {
            Some(j1) => match sp_str_ws(s, j1) {
                Some((tok, j2)) => match sp_tok(s, j2, ","@) {
                    Some(j3) => match sp_key(s, j3, "eov"@) {
                        Some(j4) => match sp_instant_ws(s, j4) {
                            Some((t, j5)) => match sp_tok(s, j5, "}"@) {
                                Some(j6) => Some(((tok, t), j6)),
                                None => None,
                            },
                            None => None,
                        },
                        None => None,
                    },
                    None => None,
                },
                None => None,
            },
            None => None,
        },
        None => None,
    }
}

/// A payload object: its `type` discriminator selects the variant of the
/// `data` that follows.
pub open spec fn sp_payload(s: Seq<char>, i: int) -> Option<(PurposeView, int)> {
    match sp_tok(s, i, "{"@) {
        Some(j0) => match sp_key(s, j0, "type"@) {
            Some(j1) => match sp_str_ws(s, j1) {
                Some((tag, j2)) => match sp_tok(s, j2, ","@) {
                    Some(j3) => match sp_key(s, j3, "data"@) {
                        Some(j4) => if tag == "Matched"@ {
                            match sp_gctx(s, j4) {
                                Some((g, j5)) => match sp_tok(s, j5, "}"@) {
                                    Some(j6) => Some((PurposeView::Matched { data: g }, j6)),
                                    None => None,
                                },
                                None => None,
                            }
                        } else if tag == "Canceled"@ {
                            match sp_gctx(s, j4) {
                                Some((g, j5)) => match sp_tok(s, j5, ","@) {
                                    Some(j6) => match sp_key(s, j6, "reason"@) {
                                        Some(j7) => match sp_str_ws(s, j7) {
                                            Some((r, j8)) => match sp_tok(s, j8, "}"@) {
                                                Some(j9) => Some(
                                                    (
                                                        PurposeView::Canceled {
                                                            data: g,
                                                            reason: r,
                                                        },
                                                        j9,
                                                    ),
                                                ),
                                                None => None,
                                            },
                                            None => None,
                                        },
                                        None => None,
                                    },
                                    None => None,
                                },
                                None => None,
                            }
                        } else if tag == "AuthToken"@ {
                            match sp_auth_data(s, j4) {
                                Some(((tok, t), j5)) => match sp_tok(s, j5, "}"@) {
                                    Some(j6) => Some(
                                        (PurposeView::AuthToken { token: tok, eov: t }, j6),
                                    ),
                                    None => None,
                                },
                                None => None,
                            }
                        } else {
                            None
                        },
                        None => None,
                    },
                    None => None,
                },
                None => None,
            },
            None => None,
        },
        None => None,
    }
}

/// The trace value: a string or the `null` word.
pub open spec fn sp_trace(s: Seq<char>, i: int) -> Option<(Option<Seq<char>>, int)> {
    match sp_tok(s, i, "null"@) {
        Some(j) => Some((None, j)),
        None => match sp_str_ws(s, i) {
            Some((t, j)) => Some((Some(t), j)),
            None => None,
        },
    }
}

/// A whole envelope object; the `trace_id` field may be absent, which
/// reads as no trace.
pub open spec fn sp_envelope(s: Seq<char>, i: int) -> Option<(EnvelopeView, int)> {
    match sp_tok(s, i, "{"@) {
        Some(j0) => match sp_key(s, j0, "target_user"@) {
            Some(j1) => match sp_user(s, j1) {
                Some((u, j2)) => match sp_tok(s, j2, ","@) {
                    Some(j3) => match sp_key(s, j3, "channels"@) {
                        Some(j4) => match sp_channels(s, j4) {
                            Some((cs, j5)) => match sp_tok(s, j5, ","@) {
                                Some(j6) => match sp_key(s, j6, "payload"@) {
                                    Some(j7) => match sp_payload(s, j7) {
                                        Some((p, j8)) => match sp_tok(s, j8, ","@) {
                                            Some(j9) => match sp_key(s, j9, "trace_id"@) {
                                                Some(j10) => match sp_trace(s, j10) {
                                                    Some((t, j11)) => match sp_tok(
                                                        s,
                                                        j11,
                                                        "}"@,
                                                    ) {
                                                        Some(j12) => Some(
                                                            (
                                                                EnvelopeView {
                                                                    target_user: u,
                                                                    channels: cs,
                                                                    payload: p,
                                                                    trace_id: t,
                                                                },
                                                                j12,
                                                            ),
                                                        ),
                                                        None => None,
                                                    },
                                                    None => None,
                                                },
                                                None => None,
                                            },
                                            None => match sp_tok(s, j8, "}"@) {
                                                Some(j12) => Some(
                                                    (
                                                        EnvelopeView {
                                                            target_user: u,
                                                            channels: cs,
                                                            payload: p,
                                                            trace_id: None,
                                                        },
                                                        j12,
                                                    ),
                                                ),
                                                None => None,
                                            },
                                        },
                                        None => None,
                                    },
                                    None => None,
                                },
                                None => None,
                            },
                            None => None,
                        },
                        None => None,
                    },
                    None => None,
                },
                None => None,
            },
            None => None,
        },
        None => None,
    }
}

/// What a whole message body decodes to: an envelope exactly when the
/// body is one envelope object with nothing but whitespace around it.
pub open spec fn spec_decode(s: Seq<char>) -> Option<EnvelopeView> {
    match sp_envelope(s, 0) {
        Some((v, j)) => if sp_ws(s, j) == s.len() {
            Some(v)
        } else {
            None
        },
        None => None,
    }
}

// ----- facts about escaping and whitespace -----

/// Escaping distributes over concatenation.
pub proof fn lemma_esc_append(a: Seq<char>, b: Seq<char>)
    ensures
        esc(a + b) == esc(a) + esc(b),
    decreases a.len(),
{
    if a.len() == 0 {
        assert(a + b =~= b);
        assert(esc(a) + esc(b) =~= esc(b));
    } else {
        assert((a + b)[0] == a[0]);
        assert((a + b).skip(1) =~= a.skip(1) + b);
        lemma_esc_append(a.skip(1), b);
        assert(esc_char(a[0]) + (esc(a.skip(1)) + esc(b)) =~= (esc_char(a[0]) + esc(a.skip(1)))
            + esc(b));
    }
}

/// Escaping one more character at the end.
pub proof fn lemma_esc_snoc(a: Seq<char>, c: char)
    ensures
        esc(a.push(c)) == esc(a) + esc_char(c),
{
    lemma_esc_append(a, seq![c]);
    assert(a.push(c) =~= a + seq![c]);
    assert(seq![c].skip(1) =~= Seq::<char>::empty());
    assert(esc(Seq::<char>::empty()) =~= Seq::<char>::empty());
    assert(esc(seq![c]) =~= esc_char(c) + esc(seq![c].skip(1)));
    assert(esc(seq![c]) =~= esc_char(c));
}

/// Skipping whitespace never moves left and never leaves the text.
pub proof fn lemma_ws_bounds(s: Seq<char>, i: int)
    requires
        0 <= i <= s.len(),
    ensures
        i <= sp_ws(s, i) <= s.len(),
    decreases s.len() - i,
{
    if i < s.len() && is_ws(s[i]) {
        lemma_ws_bounds(s, i + 1);
    }
}

} // verus!
