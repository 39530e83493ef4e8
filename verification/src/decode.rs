//! The executable decoder.
//!
//! Each function mirrors one production of the specification parser in
//! the wire module and is proved to return exactly what that parser
//! says, success and failure alike.

use vstd::prelude::*;
use vstd::string::StrSliceExecFns;
use crate::dispatch::ErrorKind;
use crate::envelope::{
    GroupContext, NotificationChannel, NotificationEnvelope, NotificationPurpose, User, users_view,
};
use crate::instant::{Instant, days_in_month, instant_wf, wf_instant};
use crate::text::{digit_of, push_char};
use crate::wire::{
    apply_offset, d2v, digits2_at, is_escape, next_day, prev_day, sp_auth_data, sp_channel,
    sp_channels, sp_channels_rest, sp_digits, sp_envelope, sp_frac, sp_gctx, sp_instant,
    sp_instant_ws, sp_key, sp_lit, sp_offset, sp_payload, sp_str, sp_str_body, sp_str_ws,
    sp_tok, sp_trace, sp_user, sp_users, sp_users_rest, sp_ws, spec_decode, unesc_char,
};

verus! {

/// Skip the whitespace that may stand before a token.
fn skip_ws(s: &str, n: usize, i: usize) -> (r: usize)
    requires
        n == s@.len(),
        i <= n,
    ensures
        r as int == sp_ws(s@, i as int),
        i <= r <= n,
{
    let mut k = i;
    loop
        invariant
            i <= k <= n,
            n == s@.len(),
            sp_ws(s@, i as int) == sp_ws(s@, k as int),
        decreases n - k,
    {
        if k >= n {
            return k;
        }
        let c = s.get_char(k);
        if c == ' ' || c == '\t' || c == '\n' || c == '\r' {
            k = k + 1;
        } else {
            return k;
        }
    }
}

/// Match a fixed literal at position `i` exactly.
fn expect_lit(s: &str, n: usize, i: usize, lit: &str) -> (r: Option<usize>)
    requires
        n == s@.len(),
        i <= n,
    ensures
        match r {
            Some(j) => sp_lit(s@, i as int, lit@) == Some(j as int) && i <= j <= n && j == i
                + lit@.len(),
            None => sp_lit(s@, i as int, lit@) is None,
        },
{
    let m = lit.unicode_len();
    if m > n - i {
        return None;
    }
    let mut k: usize = 0;
    while k < m
        invariant
            k <= m,
            i + m <= n,
            n == s@.len(),
            m == lit@.len(),
            s@.subrange(i as int, i as int + k as int) == lit@.subrange(0, k as int),
        decreases m - k,
    {
        let a = s.get_char(i + k);
        let b = lit.get_char(k);
        if a != b {
            proof {
                if sp_lit(s@, i as int, lit@) is Some {
                    assert(s@.subrange(i as int, i as int + m as int)[k as int] == lit@[k as int]);
                }
            }
            return None;
        }
        proof {
            assert(s@.subrange(i as int, i as int + (k + 1) as int) =~= lit@.subrange(
                0,
                (k + 1) as int,
            ));
        }
        k += 1;
    }
    proof {
        assert(s@.subrange(i as int, i as int + m as int) =~= lit@);
    }
    Some(i + m)
}

/// Match a token: the literal, whitespace before it skipped.
fn expect_tok(s: &str, n: usize, i: usize, lit: &str) -> (r: Option<usize>)
    requires
        n == s@.len(),
        i <= n,
    ensures
        match r {
            Some(j) => sp_tok(s@, i as int, lit@) == Some(j as int) && i <= j <= n,
            None => sp_tok(s@, i as int, lit@) is None,
        },
{
    let w = skip_ws(s, n, i);
    expect_lit(s, n, w, lit)
}

/// Whether two text slices hold the same characters.
fn str_eq(a: &str, b: &str) -> (r: bool)
    ensures
        r == (a@ == b@),
{
    let n = a.unicode_len();
    let m = b.unicode_len();
    if n != m {
        proof {
            if a@ == b@ {
                assert(a@.len() == b@.len());
            }
        }
        return false;
    }
    let mut k: usize = 0;
    while k < n
        invariant
            k <= n,
            n == a@.len(),
            n == b@.len(),
            a@.subrange(0, k as int) == b@.subrange(0, k as int),
        decreases n - k,
    {
        if a.get_char(k) != b.get_char(k) {
            proof {
                if a@ == b@ {
                    assert(a@[k as int] == b@[k as int]);
                }
            }
            return false;
        }
        proof {
            assert(a@.subrange(0, (k + 1) as int) =~= b@.subrange(0, (k + 1) as int));
        }
        k += 1;
    }
    proof {
        assert(a@.subrange(0, n as int) =~= a@);
        assert(b@.subrange(0, n as int) =~= b@);
    }
    true
}

/// What one short escape after a backslash stands for.
fn unesc_of(c: char) -> (r: Option<char>)
    ensures
        match r {
            Some(u) => is_escape(c) && u == unesc_char(c),
            None => !is_escape(c),
        },
{
    match c {
        '"' => Some('"'),
        '\\' => Some('\\'),
        '/' => Some('/'),
        'b' => Some('\u{0008}'),
        'f' => Some('\u{000C}'),
        'n' => Some('\n'),
        'r' => Some('\r'),
        't' => Some('\t'),
        _ => None,
    }
}

/// The inside of a quoted string, after the opening quote.
fn p_str_body(s: &str, n: usize, i: usize) -> (r: Option<(String, usize)>)
    requires
        n == s@.len(),
        i <= n,
    ensures
        match r {
            Some((v, j)) => sp_str_body(s@, i as int) == Some((v@, j as int)) && i < j <= n,
            None => sp_str_body(s@, i as int) is None,
        },
{
    let mut acc = String::new();
    let mut k = i;
    loop
        invariant
            i <= k <= n,
            n == s@.len(),
            sp_str_body(s@, i as int) == (match sp_str_body(s@, k as int) {
                Some((v, j)) => Some((acc@ + v, j)),
                None => None::<(Seq<char>, int)>,
            }),
        decreases n - k,
    {
        if k >= n {
            return None;
        }
        let c = s.get_char(k);
        if c == '"' {
            proof {
                assert(acc@ + Seq::<char>::empty() =~= acc@);
            }
            return Some((acc, k + 1));
        } else if c == '\\' {
            if k + 1 < n {
                let c2 = s.get_char(k + 1);
                match unesc_of(c2) {
                    Some(u) => {
                        let ghost acc0 = acc@;
                        push_char(&mut acc, u);
                        proof {
                            assert forall|v: Seq<char>|
                                acc0 + (seq![unesc_char(s@[k as int + 1])] + v) =~= acc@
                                    + v by {};
                        }
                        k = k + 2;
                    },
                    None => {
                        return None;
                    },
                }
            } else {
                return None;
            }
        } else {
            let ghost acc0 = acc@;
            push_char(&mut acc, c);
            proof {
                assert forall|v: Seq<char>| acc0 + (seq![s@[k as int]] + v) =~= acc@ + v by {};
            }
            k = k + 1;
        }
    }
}

/// A quoted string at position `i` exactly.
fn p_str(s: &str, n: usize, i: usize) -> (r: Option<(String, usize)>)
    requires
        n == s@.len(),
        i <= n,
    ensures
        match r {
            Some((v, j)) => sp_str(s@, i as int) == Some((v@, j as int)) && i < j <= n,
            None => sp_str(s@, i as int) is None,
        },
{
    if i < n && s.get_char(i) == '"' {
        p_str_body(s, n, i + 1)
    } else {
        None
    }
}

/// A quoted string token.
fn p_str_ws(s: &str, n: usize, i: usize) -> (r: Option<(String, usize)>)
    requires
        n == s@.len(),
        i <= n,
    ensures
        match r {
            Some((v, j)) => sp_str_ws(s@, i as int) == Some((v@, j as int)) && i < j <= n,
            None => sp_str_ws(s@, i as int) is None,
        },
{
    let w = skip_ws(s, n, i);
    p_str(s, n, w)
}

/// A field name token and its colon token.
fn p_key(s: &str, n: usize, i: usize, key: &str) -> (r: Option<usize>)
    requires
        n == s@.len(),
        i <= n,
    ensures
        match r {
            Some(j) => sp_key(s@, i as int, key@) == Some(j as int) && i <= j <= n,
            None => sp_key(s@, i as int, key@) is None,
        },
{
    let (k, j) = match p_str_ws(s, n, i) {
        Some(r) => r,
        None => {
            return None;
        },
    };
    if !str_eq(k.as_str(), key) {
        return None;
    }
    expect_tok(s, n, j, ":")
}

/// Two decimal digits at position `i` (bounds already checked).
fn p_d2(s: &str, n: usize, i: usize) -> (r: Option<u8>)
    requires
        n == s@.len(),
        i + 2 <= n,
    ensures
        match r {
            Some(v) => digits2_at(s@, i as int) && v as int == d2v(s@, i as int) && v <= 99,
            None => !digits2_at(s@, i as int),
        },
{
    let a = digit_of(s.get_char(i));
    let b = digit_of(s.get_char(i + 1));
    match (a, b) {
        (Some(x), Some(y)) => Some(10 * x + y),
        _ => None,
    }
}

/// Skip a run of decimal digits.
fn p_digits(s: &str, n: usize, i: usize) -> (r: usize)
    requires
        n == s@.len(),
        i <= n,
    ensures
        r as int == sp_digits(s@, i as int),
        i <= r <= n,
{
    let mut k = i;
    loop
        invariant
            i <= k <= n,
            n == s@.len(),
            sp_digits(s@, i as int) == sp_digits(s@, k as int),
        decreases n - k,
    {
        if k >= n {
            return k;
        }
        match digit_of(s.get_char(k)) {
            Some(_) => {
                k = k + 1;
            },
            None => {
                return k;
            },
        }
    }
}

/// The day before a well-formed date.
fn prev_day_exec(t: &Instant) -> (r: Option<Instant>)
    requires
        wf_instant(*t),
    ensures
        r == prev_day(*t),
{
    if t.day > 1 {
        Some(Instant { day: t.day - 1, ..*t })
    } else if t.month > 1 {
        Some(Instant { month: t.month - 1, day: days_in_month(t.year, t.month - 1), ..*t })
    } else if t.year > 0 {
        Some(Instant { year: t.year - 1, month: 12, day: 31, ..*t })
    } else {
        None
    }
}

/// The day after a well-formed date.
fn next_day_exec(t: &Instant) -> (r: Option<Instant>)
    requires
        wf_instant(*t),
    ensures
        r == next_day(*t),
{
    if t.day < days_in_month(t.year, t.month) {
        Some(Instant { day: t.day + 1, ..*t })
    } else if t.month < 12 {
        Some(Instant { month: t.month + 1, day: 1, ..*t })
    } else if t.year < 9999 {
        Some(Instant { year: t.year + 1, month: 1, day: 1, ..*t })
    } else {
        None
    }
}

/// Normalize a local instant with a numeric offset to UTC.
#[verifier::rlimit(100)]
#[verifier::spinoff_prover]
fn apply_offset_exec(t: &Instant, minus: bool, oh: u8, om: u8) -> (r: Option<Instant>)
    requires
        wf_instant(*t),
        oh <= 23,
        om <= 59,
    ensures
        r == apply_offset(*t, minus, oh as int, om as int),
{
    let total: i32 = t.hour as i32 * 60 + t.minute as i32;
    let delta: i32 = oh as i32 * 60 + om as i32;
    let lt: i32 = if minus {
        total + delta
    } else {
        total - delta
    };
    if 0 <= lt && lt < 1440 {
        proof {
            assert(lt / 60 <= 23 && lt % 60 <= 59);
        }
        Some(Instant { hour: (lt / 60) as u8, minute: (lt % 60) as u8, ..*t })
    } else if lt < 0 {
        let lt2 = lt + 1440;
        proof {
            assert(0 <= lt2 < 1440);
            assert(lt2 / 60 <= 23 && lt2 % 60 <= 59);
        }
        match prev_day_exec(t) {
            Some(d) => Some(Instant { hour: (lt2 / 60) as u8, minute: (lt2 % 60) as u8, ..d }),
            None => None,
        }
    } else {
        let lt2 = lt - 1440;
        proof {
            assert(0 <= lt2 < 1440);
            assert(lt2 / 60 <= 23 && lt2 % 60 <= 59);
        }
        match next_day_exec(t) {
            Some(d) => Some(Instant { hour: (lt2 / 60) as u8, minute: (lt2 % 60) as u8, ..d }),
            None => None,
        }
    }
}

/// A quoted RFC 3339 instant at position `i` exactly.
#[verifier::rlimit(100)]
#[verifier::spinoff_prover]
fn p_instant(s: &str, n: usize, i: usize) -> (r: Option<(Instant, usize)>)
    requires
        n == s@.len(),
        i <= n,
    ensures
        match r {
            Some((t, j)) => sp_instant(s@, i as int) == Some((t, j as int)) && i < j <= n,
            None => sp_instant(s@, i as int) is None,
        },
{
    if n - i < 20 {
        return None;
    }
    let c11 = s.get_char(i + 11);
    if !(s.get_char(i) == '"' && s.get_char(i + 5) == '-' && s.get_char(i + 8) == '-' && (c11
        == 'T' || c11 == 't') && s.get_char(i + 14) == ':' && s.get_char(i + 17) == ':') {
        return None;
    }
    let y0 = digit_of(s.get_char(i + 1));
    let y1 = digit_of(s.get_char(i + 2));
    let y2 = digit_of(s.get_char(i + 3));
    let y3 = digit_of(s.get_char(i + 4));
    let (a, b, c, d) = match (y0, y1, y2, y3) {
        (Some(a), Some(b), Some(c), Some(d)) => (a, b, c, d),
        _ => {
            return None;
        },
    };
    let year: u16 = 1000 * (a as u16) + 100 * (b as u16) + 10 * (c as u16) + (d as u16);
    let month = match p_d2(s, n, i + 6) {
        Some(v) => v,
        None => {
            return None;
        },
    };
    let day = match p_d2(s, n, i + 9) {
        Some(v) => v,
        None => {
            return None;
        },
    };
    let hour = match p_d2(s, n, i + 12) {
        Some(v) => v,
        None => {
            return None;
        },
    };
    let minute = match p_d2(s, n, i + 15) {
        Some(v) => v,
        None => {
            return None;
        },
    };
    let second = match p_d2(s, n, i + 18) {
        Some(v) => v,
        None => {
            return None;
        },
    };
    let local = Instant { year, month, day, hour, minute, second };
    if !instant_wf(&local) {
        return None;
    }
    // fractional seconds, discarded at the model's second precision
    let p = i + 20;
    let q: usize = if p < n && s.get_char(p) == '.' {
        let q0 = p_digits(s, n, p + 1);
        if q0 == p + 1 {
            proof {
                assert(sp_frac(s@, p as int) is None);
            }
            return None;
        }
        q0
    } else {
        p
    };
    proof {
        assert(sp_frac(s@, p as int) == Some(q as int));
    }
    // the offset, normalized to UTC
    if q >= n {
        return None;
    }
    let oc = s.get_char(q);
    let (t, rpos): (Instant, usize) = if oc == 'Z' || oc == 'z' {
        (local, q + 1)
    } else if oc == '+' || oc == '-' {
        if n - q < 6 {
            return None;
        }
        let oh = match p_d2(s, n, q + 1) {
            Some(v) => v,
            None => {
                return None;
            },
        };
        if s.get_char(q + 3) != ':' {
            return None;
        }
        let om = match p_d2(s, n, q + 4) {
            Some(v) => v,
            None => {
                return None;
            },
        };
        if !(oh <= 23 && om <= 59) {
            return None;
        }
        match apply_offset_exec(&local, oc == '-', oh, om) {
            Some(t) => (t, q + 6),
            None => {
                return None;
            },
        }
    } else {
        return None;
    };
    proof {
        assert(sp_offset(s@, q as int, local) == Some((t, rpos as int)));
    }
    if rpos < n && s.get_char(rpos) == '"' {
        Some((t, rpos + 1))
    } else {
        None
    }
}

/// A quoted instant token.
fn p_instant_ws(s: &str, n: usize, i: usize) -> (r: Option<(Instant, usize)>)
    requires
        n == s@.len(),
        i <= n,
    ensures
        match r {
            Some((t, j)) => sp_instant_ws(s@, i as int) == Some((t, j as int)) && i < j <= n,
            None => sp_instant_ws(s@, i as int) is None,
        },
{
    let w = skip_ws(s, n, i);
    p_instant(s, n, w)
}

/// One user object.
#[verifier::rlimit(100)]
#[verifier::spinoff_prover]
fn p_user(s: &str, n: usize, i: usize) -> (r: Option<(User, usize)>)
    requires
        n == s@.len(),
        i <= n,
    ensures
        match r {
            Some((u, j)) => sp_user(s@, i as int) == Some((u@, j as int)) && i < j <= n,
            None => sp_user(s@, i as int) is None,
        },
{
    let j0 = match expect_tok(s, n, i, "{") {
        Some(j) => j,
        None => {
            return None;
        },
    };
    let j1 = match p_key(s, n, j0, "name") {
        Some(j) => j,
        None => {
            return None;
        },
    };
    let (name, j2) = match p_str_ws(s, n, j1) {
        Some(r) => r,
        None => {
            return None;
        },
    };
    let j3 = match expect_tok(s, n, j2, ",") {
        Some(j) => j,
        None => {
            return None;
        },
    };
    let j4 = match p_key(s, n, j3, "email") {
        Some(j) => j,
        None => {
            return None;
        },
    };
    let (email, j5) = match p_str_ws(s, n, j4) {
        Some(r) => r,
        None => {
            return None;
        },
    };
    let j6 = match expect_tok(s, n, j5, ",") {
        Some(j) => j,
        None => {
            return None;
        },
    };
    let j7 = match p_key(s, n, j6, "phone_number") {
        Some(j) => j,
        None => {
            return None;
        },
    };
    let (phone_number, j8) = match p_str_ws(s, n, j7) {
        Some(r) => r,
        None => {
            return None;
        },
    };
    let j9 = match expect_tok(s, n, j8, ",") {
        Some(j) => j,
        None => {
            return None;
        },
    };
    let j10 = match p_key(s, n, j9, "apn_token") {
        Some(j) => j,
        None => {
            return None;
        },
    };
    let (apn_token, j11) = match p_str_ws(s, n, j10) {
        Some(r) => r,
        None => {
            return None;
        },
    };
    let j12 = match expect_tok(s, n, j11, "}") {
        Some(j) => j,
        None => {
            return None;
        },
    };
    Some((User { name, email, phone_number, apn_token }, j12))
}

/// One channel tag.
fn p_channel(s: &str, n: usize, i: usize) -> (r: Option<(NotificationChannel, usize)>)
    requires
        n == s@.len(),
        i <= n,
    ensures
        match r {
            Some((c, j)) => sp_channel(s@, i as int) == Some((c, j as int)) && i < j <= n,
            None => sp_channel(s@, i as int) is None,
        },
{
    let (v, j) = match p_str_ws(s, n, i) {
        Some(r) => r,
        None => {
            return None;
        },
    };
    if str_eq(v.as_str(), "Email") {
        Some((NotificationChannel::Email, j))
    } else if str_eq(v.as_str(), "APN") {
        Some((NotificationChannel::PushNotification, j))
    } else {
        None
    }
}

/// A list of user objects.
fn p_users(s: &str, n: usize, i: usize) -> (r: Option<(Vec<User>, usize)>)
    requires
        n == s@.len(),
        i <= n,
    ensures
        match r {
            Some((l, j)) => sp_users(s@, i as int) == Some((users_view(l@), j as int)) && i <= j
                <= n,
            None => sp_users(s@, i as int) is None,
        },
{
    let j0 = match expect_tok(s, n, i, "[") {
        Some(j) => j,
        None => {
            return None;
        },
    };
    if let Some(j1) = expect_tok(s, n, j0, "]") {
        let l: Vec<User> = Vec::new();
        proof {
            assert(users_view(l@) =~= Seq::<crate::envelope::UserView>::empty());
        }
        return Some((l, j1));
    }
    let (u0, j1) = match p_user(s, n, j0) {
        Some(r) => r,
        None => {
            return None;
        },
    };
    let mut acc: Vec<User> = Vec::new();
    acc.push(u0);
    proof {
        assert(users_view(acc@) =~= seq![u0@]);
    }
    let mut k = j1;
    loop
        invariant
            i < k <= n,
            n == s@.len(),
            sp_users(s@, i as int) == (match sp_users_rest(s@, k as int) {
                Some((l, j)) => Some((users_view(acc@) + l, j)),
                None => None::<(Seq<crate::envelope::UserView>, int)>,
            }),
        decreases n - k,
    {
        if let Some(j2) = expect_tok(s, n, k, "]") {
            proof {
                assert(users_view(acc@) + Seq::<crate::envelope::UserView>::empty() =~= users_view(
                    acc@,
                ));
            }
            return Some((acc, j2));
        }
        let j2 = match expect_tok(s, n, k, ",") {
            Some(j) => j,
            None => {
                return None;
            },
        };
        let (u, j3) = match p_user(s, n, j2) {
            Some(r) => r,
            None => {
                return None;
            },
        };
        let ghost acc0 = acc@;
        acc.push(u);
        proof {
            assert(users_view(acc@) =~= users_view(acc0) + seq![u@]);
            assert forall|l: Seq<crate::envelope::UserView>|
                users_view(acc0) + (seq![u@] + l) =~= users_view(acc@) + l by {}
        }
        k = j3;
    }
}

/// A list of channel tags.
fn p_channels(s: &str, n: usize, i: usize) -> (r: Option<(Vec<NotificationChannel>, usize)>)
    requires
        n == s@.len(),
        i <= n,
    ensures
        match r {
            Some((l, j)) => sp_channels(s@, i as int) == Some((l@, j as int)) && i <= j <= n,
            None => sp_channels(s@, i as int) is None,
        },
{
    let j0 = match expect_tok(s, n, i, "[") {
        Some(j) => j,
        None => {
            return None;
        },
    };
    if let Some(j1) = expect_tok(s, n, j0, "]") {
        let l: Vec<NotificationChannel> = Vec::new();
        return Some((l, j1));
    }
    let (c0, j1) = match p_channel(s, n, j0) {
        Some(r) => r,
        None => {
            return None;
        },
    };
    let mut acc: Vec<NotificationChannel> = Vec::new();
    acc.push(c0);
    let mut k = j1;
    loop
        invariant
            i < k <= n,
            n == s@.len(),
            sp_channels(s@, i as int) == (match sp_channels_rest(s@, k as int) {
                Some((l, j)) => Some((acc@ + l, j)),
                None => None::<(Seq<NotificationChannel>, int)>,
            }),
        decreases n - k,
    {
        if let Some(j2) = expect_tok(s, n, k, "]") {
            proof {
                assert(acc@ + Seq::<NotificationChannel>::empty() =~= acc@);
            }
            return Some((acc, j2));
        }
        let j2 = match expect_tok(s, n, k, ",") {
            Some(j) => j,
            None => {
                return None;
            },
        };
        let (c, j3) = match p_channel(s, n, j2) {
            Some(r) => r,
            None => {
                return None;
            },
        };
        let ghost acc0 = acc@;
        acc.push(c);
        proof {
            assert forall|l: Seq<NotificationChannel>| acc0 + (seq![c] + l) =~= acc@ + l by {}
        }
        k = j3;
    }
}

/// A group context object.
#[verifier::rlimit(100)]
#[verifier::spinoff_prover]
fn p_gctx(s: &str, n: usize, i: usize) -> (r: Option<(GroupContext, usize)>)
    requires
        n == s@.len(),
        i <= n,
    ensures
        match r {
            Some((g, j)) => sp_gctx(s@, i as int) == Some((g@, j as int)) && i <= j <= n,
            None => sp_gctx(s@, i as int) is None,
        },
{
    let j0 = match expect_tok(s, n, i, "{") {
        Some(j) => j,
        None => {
            return None;
        },
    };
    let j1 = match p_key(s, n, j0, "match_id") {
        Some(j) => j,
        None => {
            return None;
        },
    };
    let (match_id, j2) = match p_str_ws(s, n, j1) {
        Some(r) => r,
        None => {
            return None;
        },
    };
    let j3 = match expect_tok(s, n, j2, ",") {
        Some(j) => j,
        None => {
            return None;
        },
    };
    let j4 = match p_key(s, n, j3, "group") {
        Some(j) => j,
        None => {
            return None;
        },
    };
    let (group, j5) = match p_users(s, n, j4) {
        Some(r) => r,
        None => {
            return None;
        },
    };
    let j6 = match expect_tok(s, n, j5, ",") {
        Some(j) => j,
        None => {
            return None;
        },
    };
    let j7 = match p_key(s, n, j6, "datetime_start") {
        Some(j) => j,
        None => {
            return None;
        },
    };
    let (datetime_start, j8) = match p_instant_ws(s, n, j7) {
        Some(r) => r,
        None => {
            return None;
        },
    };
    let j9 = match expect_tok(s, n, j8, ",") {
        Some(j) => j,
        None => {
            return None;
        },
    };
    let j10 = match p_key(s, n, j9, "datetime_end") {
        Some(j) => j,
        None => {
            return None;
        },
    };
    let (datetime_end, j11) = match p_instant_ws(s, n, j10) {
        Some(r) => r,
        None => {
            return None;
        },
    };
    let j12 = match expect_tok(s, n, j11, "}") {
        Some(j) => j,
        None => {
            return None;
        },
    };
    Some((GroupContext { match_id, group, datetime_start, datetime_end }, j12))
}

/// The `AuthToken` data object.
#[verifier::rlimit(100)]
#[verifier::spinoff_prover]
fn p_auth_data(s: &str, n: usize, i: usize) -> (r: Option<((String, Instant), usize)>)
    requires
        n == s@.len(),
        i <= n,
    ensures
        match r {
            Some(((tok, t), j)) => sp_auth_data(s@, i as int) == Some(((tok@, t), j as int)) && i
                <= j <= n,
            None => sp_auth_data(s@, i as int) is None,
        },
{
    let j0 = match expect_tok(s, n, i, "{") {
        Some(j) => j,
        None => {
            return None;
        },
    };
    let j1 = match p_key(s, n, j0, "token") {
        Some(j) => j,
        None => {
            return None;
        },
    };
    let (token, j2) = match p_str_ws(s, n, j1) {
        Some(r) => r,
        None => {
            return None;
        },
    };
    let j3 = match expect_tok(s, n, j2, ",") {
        Some(j) => j,
        None => {
            return None;
        },
    };
    let j4 = match p_key(s, n, j3, "eov") {
        Some(j) => j,
        None => {
            return None;
        },
    };
    let (eov, j5) = match p_instant_ws(s, n, j4) {
        Some(r) => r,
        None => {
            return None;
        },
    };
    let j6 = match expect_tok(s, n, j5, "}") {
        Some(j) => j,
        None => {
            return None;
        },
    };
    Some(((token, eov), j6))
}

/// A payload object, selected by its discriminator.
#[verifier::rlimit(100)]
#[verifier::spinoff_prover]
fn p_payload(s: &str, n: usize, i: usize) -> (r: Option<(NotificationPurpose, usize)>)
    requires
        n == s@.len(),
        i <= n,
    ensures
        match r {
            Some((p, j)) => sp_payload(s@, i as int) == Some((p@, j as int)) && i <= j <= n,
            None => sp_payload(s@, i as int) is None,
        },
{
    let j0 = match expect_tok(s, n, i, "{") {
        Some(j) => j,
        None => {
            return None;
        },
    };
    let j1 = match p_key(s, n, j0, "type") {
        Some(j) => j,
        None => {
            return None;
        },
    };
    let (tag, j2) = match p_str_ws(s, n, j1) {
        Some(r) => r,
        None => {
            return None;
        },
    };
    let j3 = match expect_tok(s, n, j2, ",") {
        Some(j) => j,
        None => {
            return None;
        },
    };
    let j4 = match p_key(s, n, j3, "data") {
        Some(j) => j,
        None => {
            return None;
        },
    };
    if str_eq(tag.as_str(), "Matched") {
        let (data, j5) = match p_gctx(s, n, j4) {
            Some(r) => r,
            None => {
                return None;
            },
        };
        let j6 = match expect_tok(s, n, j5, "}") {
            Some(j) => j,
            None => {
                return None;
            },
        };
        Some((NotificationPurpose::Matched { data }, j6))
    } else if str_eq(tag.as_str(), "Canceled") {
        let (data, j5) = match p_gctx(s, n, j4) {
            Some(r) => r,
            None => {
                return None;
            },
        };
        let j6 = match expect_tok(s, n, j5, ",") {
            Some(j) => j,
            None => {
                return None;
            },
        };
        let j7 = match p_key(s, n, j6, "reason") {
            Some(j) => j,
            None => {
                return None;
            },
        };
        let (reason, j8) = match p_str_ws(s, n, j7) {
            Some(r) => r,
            None => {
                return None;
            },
        };
        let j9 = match expect_tok(s, n, j8, "}") {
            Some(j) => j,
            None => {
                return None;
            },
        };
        Some((NotificationPurpose::Canceled { data, reason }, j9))
    } else if str_eq(tag.as_str(), "AuthToken") {
        let ((token, eov), j5) = match p_auth_data(s, n, j4) {
            Some(r) => r,
            None => {
                return None;
            },
        };
        let j6 = match expect_tok(s, n, j5, "}") {
            Some(j) => j,
            None => {
                return None;
            },
        };
        Some((NotificationPurpose::AuthToken { token, eov }, j6))
    } else {
        None
    }
}

/// The trace value: a string or the `null` word.
fn p_trace(s: &str, n: usize, i: usize) -> (r: Option<(Option<String>, usize)>)
    requires
        n == s@.len(),
        i <= n,
    ensures
        match r {
            Some((t, j)) => sp_trace(s@, i as int) == Some(
                (
                    match t {
                        Some(v) => Some(v@),
                        None => None,
                    },
                    j as int,
                ),
            ) && i <= j <= n,
            None => sp_trace(s@, i as int) is None,
        },
{
    if let Some(j) = expect_tok(s, n, i, "null") {
        return Some((None, j));
    }
    match p_str_ws(s, n, i) {
        Some((v, j)) => Some((Some(v), j)),
        None => None,
    }
}

/// A whole envelope object.
#[verifier::rlimit(100)]
#[verifier::spinoff_prover]
fn p_envelope(s: &str, n: usize, i: usize) -> (r: Option<(NotificationEnvelope, usize)>)
    requires
        n == s@.len(),
        i <= n,
    ensures
        match r {
            Some((e, j)) => sp_envelope(s@, i as int) == Some((e@, j as int)) && i <= j <= n,
            None => sp_envelope(s@, i as int) is None,
        },
{
    let j0 = match expect_tok(s, n, i, "{") {
        Some(j) => j,
        None => {
            return None;
        },
    };
    let j1 = match p_key(s, n, j0, "target_user") {
        Some(j) => j,
        None => {
            return None;
        },
    };
    let (target_user, j2) = match p_user(s, n, j1) {
        Some(r) => r,
        None => {
            return None;
        },
    };
    let j3 = match expect_tok(s, n, j2, ",") {
        Some(j) => j,
        None => {
            return None;
        },
    };
    let j4 = match p_key(s, n, j3, "channels") {
        Some(j) => j,
        None => {
            return None;
        },
    };
    let (channels, j5) = match p_channels(s, n, j4) {
        Some(r) => r,
        None => {
            return None;
        },
    };
    let j6 = match expect_tok(s, n, j5, ",") {
        Some(j) => j,
        None => {
            return None;
        },
    };
    let j7 = match p_key(s, n, j6, "payload") {
        Some(j) => j,
        None => {
            return None;
        },
    };
    let (payload, j8) = match p_payload(s, n, j7) {
        Some(r) => r,
        None => {
            return None;
        },
    };
    match expect_tok(s, n, j8, ",") {
        Some(j9) => {
            let j10 = match p_key(s, n, j9, "trace_id") {
                Some(j) => j,
                None => {
                    return None;
                },
            };
            let (trace_id, j11) = match p_trace(s, n, j10) {
                Some(r) => r,
                None => {
                    return None;
                },
            };
            let j12 = match expect_tok(s, n, j11, "}") {
                Some(j) => j,
                None => {
                    return None;
                },
            };
            Some((NotificationEnvelope { target_user, channels, payload, trace_id }, j12))
        },
        None => {
            let j12 = match expect_tok(s, n, j8, "}") {
                Some(j) => j,
                None => {
                    return None;
                },
            };
            Some(
                (
                    NotificationEnvelope { target_user, channels, payload, trace_id: None },
                    j12,
                ),
            )
        },
    }
}

/// Decode one raw message body.
///
/// The body decodes to an envelope exactly when it is one envelope
/// object in the documented field order, with nothing but whitespace
/// around it; anything else is a malformed payload, the one error
/// decoding can produce.
pub fn decode_envelope(s: &str) -> (r: Result<NotificationEnvelope, ErrorKind>)
    ensures
        match r {
            Ok(e) => spec_decode(s@) == Some(e@),
            Err(k) => k == ErrorKind::MalformedPayload && spec_decode(s@) is None,
        },
{
    let n = s.unicode_len();
    match p_envelope(s, n, 0) {
        Some((e, j)) => {
            let j2 = skip_ws(s, n, j);
            if j2 == n {
                Ok(e)
            } else {
                Err(ErrorKind::MalformedPayload)
            }
        },
        None => Err(ErrorKind::MalformedPayload),
    }
}

} // verus!
