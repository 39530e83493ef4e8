//! The codec laws.
//!
//! The central statement ties the wire module's encoder and parser
//! together: every canonical encoding of a well-formed envelope parses
//! back to exactly that envelope, every field included. A second chain
//! shows that whatever the parser accepts carries only well-formed
//! instants, so every decoded envelope may be composed and re-encoded.
//! Both are proved production by production, leaves first.

use vstd::prelude::*;
use crate::envelope::{EnvelopeView, GroupContextView, NotificationChannel, PurposeView, UserView};
use crate::instant::{Instant, spec_days_in_month, wf_instant};
use crate::wire::{
    apply_offset, d2v, d4v, dchar, digit_val, digits2_at, digits4_at, enc_auth_data, enc_channel,
    enc_channels, enc_channels_rest, enc_envelope, enc_gctx, enc_instant, enc_key, enc_payload,
    enc_str, enc_trace, enc_user, enc_users, enc_users_rest, esc, esc_char, is_escape, is_ws,
    next_day, prev_day, sp_auth_data, sp_channel, sp_channels, sp_channels_rest, sp_envelope,
    sp_frac, sp_gctx, sp_instant, sp_instant_ws, sp_key, sp_lit, sp_offset, sp_payload, sp_str,
    sp_str_body, sp_str_ws, sp_tok, sp_trace, sp_user, sp_users, sp_users_rest, sp_ws,
    spec_decode, unesc_char,
};

verus! {

// ----- subrange bridges -----

/// A region known to be a concatenation splits into its two halves.
pub(crate) proof fn lemma_region_split(s: Seq<char>, i: int, a: Seq<char>, b: Seq<char>)
    requires
        0 <= i,
        i + a.len() + b.len() <= s.len(),
        s.subrange(i, i + a.len() + b.len()) == a + b,
    ensures
        s.subrange(i, i + a.len()) == a,
        s.subrange(i + a.len(), i + a.len() + b.len()) == b,
{
    assert forall|k: int| 0 <= k < a.len() implies s.subrange(i, i + a.len())[k] == a[k] by {
        assert(s.subrange(i, i + a.len() + b.len())[k] == s[i + k]);
        assert((a + b)[k] == a[k]);
        assert(s.subrange(i, i + a.len())[k] == s[i + k]);
    }
    assert(s.subrange(i, i + a.len()) =~= a);
    assert forall|k: int| 0 <= k < b.len() implies s.subrange(
        i + a.len(),
        i + a.len() + b.len(),
    )[k] == b[k] by {
        assert(s.subrange(i, i + a.len() + b.len())[a.len() + k] == s[i + (a.len() + k)]);
        assert((a + b)[a.len() + k] == b[k]);
        assert(s.subrange(i + a.len(), i + a.len() + b.len())[k] == s[(i + a.len()) + k]);
    }
    assert(s.subrange(i + a.len(), i + a.len() + b.len()) =~= b);
}

/// A slice of a known region is the same slice of the region's text.
pub(crate) proof fn lemma_region_subrange(s: Seq<char>, i: int, r: Seq<char>, lo: int, hi: int)
    requires
        0 <= i,
        i + r.len() <= s.len(),
        s.subrange(i, i + r.len()) == r,
        0 <= lo <= hi <= r.len(),
    ensures
        s.subrange(i + lo, i + hi) == r.subrange(lo, hi),
{
    assert forall|m: int| 0 <= m < hi - lo implies s.subrange(i + lo, i + hi)[m] == r.subrange(
        lo,
        hi,
    )[m] by {
        assert(s.subrange(i + lo, i + hi)[m] == s[(i + lo) + m]);
        lemma_region_char(s, i, r, lo + m);
        assert(r.subrange(lo, hi)[m] == r[lo + m]);
    }
    assert(s.subrange(i + lo, i + hi) =~= r.subrange(lo, hi));
}

/// One character of a known region.
pub(crate) proof fn lemma_region_char(s: Seq<char>, i: int, r: Seq<char>, k: int)
    requires
        0 <= i,
        i + r.len() <= s.len(),
        s.subrange(i, i + r.len()) == r,
        0 <= k < r.len(),
    ensures
        s[i + k] == r[k],
{
    assert(s.subrange(i, i + r.len())[k] == s[i + k]);
}

// ----- digits -----

proof fn lemma_dchar_val(d: int)
    requires
        0 <= d <= 9,
    ensures
        digit_val(dchar(d)) == d,
{
}

proof fn lemma_d2_split(v: int)
    requires
        0 <= v <= 99,
    ensures
        0 <= v / 10 <= 9,
        0 <= v % 10 <= 9,
        10 * (v / 10) + v % 10 == v,
{
}

proof fn lemma_d4_split(y: int)
    by (nonlinear_arith)
    requires
        0 <= y <= 9999,
    ensures
        0 <= y / 1000 <= 9,
        0 <= (y / 100) % 10 <= 9,
        0 <= (y / 10) % 10 <= 9,
        0 <= y % 10 <= 9,
        1000 * (y / 1000) + 100 * ((y / 100) % 10) + 10 * ((y / 10) % 10) + (y % 10) == y,
{
}

// ----- token and string helpers -----

/// On a non-whitespace character, skipping whitespace stands still, so
/// the encoding's own tokens parse where they stand.
proof fn lc_tok(s: Seq<char>, p: int, lit: Seq<char>)
    requires
        0 <= p,
        p + lit.len() <= s.len(),
        s.subrange(p, p + lit.len()) == lit,
        lit.len() > 0,
        !is_ws(lit[0]),
    ensures
        sp_tok(s, p, lit) == Some(p + lit.len()),
{
    lemma_region_char(s, p, lit, 0);
}

/// The first character of a quoted string is its quote.
proof fn lemma_enc_str_first(v: Seq<char>)
    ensures
        enc_str(v).len() >= 2,
        enc_str(v)[0] == '"',
{
    assert((seq!['"'] + esc(v))[0] == '"');
    assert(((seq!['"'] + esc(v)) + seq!['"'])[0] == '"');
}

/// The encoding of a string body parses back to exactly that string.
proof fn lc_str_body(s: Seq<char>, i: int, v: Seq<char>)
    requires
        0 <= i,
        i + esc(v).len() + 1 <= s.len(),
        s.subrange(i, i + esc(v).len() + 1) == esc(v) + seq!['"'],
    ensures
        sp_str_body(s, i) == Some((v, i + esc(v).len() + 1)),
    decreases v.len(),
{
    let r = esc(v) + seq!['"'];
    if v.len() == 0 {
        lemma_region_char(s, i, r, 0);
        assert(s[i] == '"');
        assert(v =~= Seq::<char>::empty());
    } else {
        assert(esc(v) == esc_char(v[0]) + esc(v.skip(1)));
        let v1 = v.skip(1);
        let b = esc(v1) + seq!['"'];
        assert((esc_char(v[0]) + esc(v1)) + seq!['"'] =~= esc_char(v[0]) + b);
        lemma_region_split(s, i, esc_char(v[0]), b);
        if v[0] == '"' || v[0] == '\\' {
            assert(esc_char(v[0]) == seq!['\\', v[0]]);
            lemma_region_char(s, i, seq!['\\', v[0]], 0);
            lemma_region_char(s, i, seq!['\\', v[0]], 1);
            assert(s[i] == '\\');
            assert(s[i + 1] == v[0]);
            assert(is_escape(s[i + 1]));
            assert(unesc_char(s[i + 1]) == v[0]);
            lc_str_body(s, i + 2, v1);
            assert(seq![v[0]] + v1 =~= v);
        } else {
            assert(esc_char(v[0]) == seq![v[0]]);
            lemma_region_char(s, i, seq![v[0]], 0);
            assert(s[i] == v[0]);
            lc_str_body(s, i + 1, v1);
            assert(seq![s[i]] + v1 =~= v);
        }
    }
}

/// A quoted-string encoding parses back to exactly that string.
proof fn lc_str(s: Seq<char>, i: int, v: Seq<char>)
    requires
        0 <= i,
        i + enc_str(v).len() <= s.len(),
        s.subrange(i, i + enc_str(v).len()) == enc_str(v),
    ensures
        sp_str(s, i) == Some((v, i + enc_str(v).len())),
{
    let b = esc(v) + seq!['"'];
    assert(enc_str(v) =~= seq!['"'] + b);
    lemma_region_split(s, i, seq!['"'], b);
    lemma_region_char(s, i, seq!['"'], 0);
    assert(s[i] == '"');
    lc_str_body(s, i + 1, v);
}

/// A quoted-string token parses where it stands.
proof fn lc_str_ws(s: Seq<char>, p: int, v: Seq<char>)
    requires
        0 <= p,
        p + enc_str(v).len() <= s.len(),
        s.subrange(p, p + enc_str(v).len()) == enc_str(v),
    ensures
        sp_str_ws(s, p) == Some((v, p + enc_str(v).len())),
{
    lemma_enc_str_first(v);
    lemma_region_char(s, p, enc_str(v), 0);
    assert(s[p] == '"');
    lc_str(s, p, v);
}

/// A field-name-and-colon encoding parses back as that key.
proof fn lc_key(s: Seq<char>, p: int, key: Seq<char>)
    requires
        0 <= p,
        p + enc_key(key).len() <= s.len(),
        s.subrange(p, p + enc_key(key).len()) == enc_key(key),
    ensures
        sp_key(s, p, key) == Some(p + enc_key(key).len()),
{
    lemma_region_split(s, p, enc_str(key), ":"@);
    lc_str_ws(s, p, key);
    reveal_strlit(":");
    lc_tok(s, p + enc_str(key).len(), ":"@);
}

// ----- instants -----

/// The canonical encoding of a well-formed instant parses back to
/// exactly it.
#[verifier::rlimit(100)]
#[verifier::spinoff_prover]
proof fn lc_instant(s: Seq<char>, i: int, t: Instant)
    requires
        wf_instant(t),
        0 <= i,
        i + 22 <= s.len(),
        s.subrange(i, i + 22) == enc_instant(t),
    ensures
        sp_instant(s, i) == Some((t, i + 22)),
{
    let e = enc_instant(t);
    assert(e.len() == 22);
    assert forall|k: int| 0 <= k < 22 implies s[i + k] == e[k] by {
        assert(s.subrange(i, i + 22)[k] == s[i + k]);
    }
    lemma_d4_split(t.year as int);
    lemma_d2_split(t.month as int);
    lemma_d2_split(t.day as int);
    lemma_d2_split(t.hour as int);
    lemma_d2_split(t.minute as int);
    lemma_d2_split(t.second as int);
    lemma_dchar_val(t.year as int / 1000);
    lemma_dchar_val((t.year as int / 100) % 10);
    lemma_dchar_val((t.year as int / 10) % 10);
    lemma_dchar_val(t.year as int % 10);
    lemma_dchar_val(t.month as int / 10);
    lemma_dchar_val(t.month as int % 10);
    lemma_dchar_val(t.day as int / 10);
    lemma_dchar_val(t.day as int % 10);
    lemma_dchar_val(t.hour as int / 10);
    lemma_dchar_val(t.hour as int % 10);
    lemma_dchar_val(t.minute as int / 10);
    lemma_dchar_val(t.minute as int % 10);
    lemma_dchar_val(t.second as int / 10);
    lemma_dchar_val(t.second as int % 10);
    assert(s[i + 0] == e[0] && s[i] == e[0]);
    assert(s[i + 5] == e[5]);
    assert(s[i + 8] == e[8]);
    assert(s[i + 11] == e[11]);
    assert(s[i + 14] == e[14]);
    assert(s[i + 17] == e[17]);
    assert(s[i + 20] == e[20]);
    assert(s[i + 21] == e[21]);
    assert(s[i + 1] == e[1]);
    assert(s[i + 2] == e[2]);
    assert(s[i + 3] == e[3]);
    assert(s[i + 4] == e[4]);
    assert(s[i + 6] == e[6]);
    assert(s[i + 7] == e[7]);
    assert(s[i + 9] == e[9]);
    assert(s[i + 10] == e[10]);
    assert(s[i + 12] == e[12]);
    assert(s[i + 13] == e[13]);
    assert(s[i + 15] == e[15]);
    assert(s[i + 16] == e[16]);
    assert(s[i + 18] == e[18]);
    assert(s[i + 19] == e[19]);
    assert(digits4_at(s, i + 1));
    assert(digits2_at(s, i + 6));
    assert(digits2_at(s, i + 9));
    assert(digits2_at(s, i + 12));
    assert(digits2_at(s, i + 15));
    assert(digits2_at(s, i + 18));
    assert(d4v(s, i + 1) == t.year as int);
    assert(d2v(s, i + 6) == t.month as int);
    assert(d2v(s, i + 9) == t.day as int);
    assert(d2v(s, i + 12) == t.hour as int);
    assert(d2v(s, i + 15) == t.minute as int);
    assert(d2v(s, i + 18) == t.second as int);
    assert(s[i + 20] == 'Z');
    assert(sp_frac(s, i + 20) == Some(i + 20));
    assert(sp_offset(s, i + 20, t) == Some((t, i + 21)));
}

/// The first character of an instant encoding is its quote.
proof fn lemma_enc_instant_first(t: Instant)
    ensures
        enc_instant(t).len() == 22,
        enc_instant(t)[0] == '"',
{
}

/// An instant token parses where it stands.
proof fn lc_instant_ws(s: Seq<char>, p: int, t: Instant)
    requires
        wf_instant(t),
        0 <= p,
        p + 22 <= s.len(),
        s.subrange(p, p + 22) == enc_instant(t),
    ensures
        sp_instant_ws(s, p) == Some((t, p + 22)),
{
    lemma_enc_instant_first(t);
    lemma_region_char(s, p, enc_instant(t), 0);
    assert(s[p] == '"');
    lc_instant(s, p, t);
}

// ----- objects -----

/// The first character of a user encoding is its brace.
proof fn lemma_enc_user_first(u: UserView)
    ensures
        enc_user(u).len() > 0,
        enc_user(u)[0] == '{',
{
    reveal_strlit("{");
    let p2 = "{"@ + enc_key("name"@);
    let p3 = p2 + enc_str(u.name);
    let p4 = p3 + ","@;
    let p5 = p4 + enc_key("email"@);
    let p6 = p5 + enc_str(u.email);
    let p7 = p6 + ","@;
    let p8 = p7 + enc_key("phone_number"@);
    let p9 = p8 + enc_str(u.phone_number);
    let p10 = p9 + ","@;
    let p11 = p10 + enc_key("apn_token"@);
    let p12 = p11 + enc_str(u.apn_token);
    assert(p2[0] == '{');
    assert(p3[0] == '{');
    assert(p4[0] == '{');
    assert(p5[0] == '{');
    assert(p6[0] == '{');
    assert(p7[0] == '{');
    assert(p8[0] == '{');
    assert(p9[0] == '{');
    assert(p10[0] == '{');
    assert(p11[0] == '{');
    assert(p12[0] == '{');
    assert(enc_user(u)[0] == '{');
}

/// The encoding of a user parses back to exactly that user.
#[verifier::rlimit(100)]
#[verifier::spinoff_prover]
proof fn lc_user(s: Seq<char>, i: int, u: UserView)
    requires
        0 <= i,
        i + enc_user(u).len() <= s.len(),
        s.subrange(i, i + enc_user(u).len()) == enc_user(u),
    ensures
        sp_user(s, i) == Some((u, i + enc_user(u).len())),
{
    reveal_strlit("{");
    reveal_strlit("}");
    reveal_strlit(",");
    let q2 = "{"@ + enc_key("name"@);
    let q3 = q2 + enc_str(u.name);
    let q4 = q3 + ","@;
    let q5 = q4 + enc_key("email"@);
    let q6 = q5 + enc_str(u.email);
    let q7 = q6 + ","@;
    let q8 = q7 + enc_key("phone_number"@);
    let q9 = q8 + enc_str(u.phone_number);
    let q10 = q9 + ","@;
    let q11 = q10 + enc_key("apn_token"@);
    let q12 = q11 + enc_str(u.apn_token);
    lemma_region_split(s, i, q12, "}"@);
    lemma_region_split(s, i, q11, enc_str(u.apn_token));
    lemma_region_split(s, i, q10, enc_key("apn_token"@));
    lemma_region_split(s, i, q9, ","@);
    lemma_region_split(s, i, q8, enc_str(u.phone_number));
    lemma_region_split(s, i, q7, enc_key("phone_number"@));
    lemma_region_split(s, i, q6, ","@);
    lemma_region_split(s, i, q5, enc_str(u.email));
    lemma_region_split(s, i, q4, enc_key("email"@));
    lemma_region_split(s, i, q3, ","@);
    lemma_region_split(s, i, q2, enc_str(u.name));
    lemma_region_split(s, i, "{"@, enc_key("name"@));
    lc_tok(s, i, "{"@);
    lc_key(s, i + "{"@.len(), "name"@);
    lc_str_ws(s, i + q2.len(), u.name);
    lc_tok(s, i + q3.len(), ","@);
    lc_key(s, i + q4.len(), "email"@);
    lc_str_ws(s, i + q5.len(), u.email);
    lc_tok(s, i + q6.len(), ","@);
    lc_key(s, i + q7.len(), "phone_number"@);
    lc_str_ws(s, i + q8.len(), u.phone_number);
    lc_tok(s, i + q9.len(), ","@);
    lc_key(s, i + q10.len(), "apn_token"@);
    lc_str_ws(s, i + q11.len(), u.apn_token);
    lc_tok(s, i + q12.len(), "}"@);
}

/// The first character of a channel encoding is a quote.
proof fn lemma_enc_channel_first(c: NotificationChannel)
    ensures
        enc_channel(c).len() > 0,
        enc_channel(c)[0] == '"',
{
    match c {
        NotificationChannel::Email => lemma_enc_str_first("Email"@),
        NotificationChannel::PushNotification => lemma_enc_str_first("APN"@),
    }
}

/// The encoding of a channel tag parses back to exactly that channel.
proof fn lc_channel(s: Seq<char>, i: int, c: NotificationChannel)
    requires
        0 <= i,
        i + enc_channel(c).len() <= s.len(),
        s.subrange(i, i + enc_channel(c).len()) == enc_channel(c),
    ensures
        sp_channel(s, i) == Some((c, i + enc_channel(c).len())),
{
    reveal_strlit("Email");
    reveal_strlit("APN");
    match c {
        NotificationChannel::Email => {
            lc_str_ws(s, i, "Email"@);
        },
        NotificationChannel::PushNotification => {
            lc_str_ws(s, i, "APN"@);
            assert("APN"@.len() == 3 && "Email"@.len() == 5);
        },
    }
}

// ----- lists -----

/// The encoding of the tail of a user list parses back to exactly it.
proof fn lc_users_rest(s: Seq<char>, i: int, m: Seq<UserView>)
    requires
        0 <= i,
        i + enc_users_rest(m).len() <= s.len(),
        s.subrange(i, i + enc_users_rest(m).len()) == enc_users_rest(m),
    ensures
        sp_users_rest(s, i) == Some((m, i + enc_users_rest(m).len())),
    decreases m.len(),
{
    reveal_strlit("]");
    reveal_strlit(",");
    if m.len() == 0 {
        lc_tok(s, i, "]"@);
        assert(m =~= Seq::<UserView>::empty());
    } else {
        let u0 = m[0];
        let m1 = m.skip(1);
        let eu = enc_user(u0);
        let rest = enc_users_rest(m1);
        lemma_region_split(s, i, ","@ + eu, rest);
        lemma_region_split(s, i, ","@, eu);
        lemma_region_char(s, i, ","@, 0);
        if sp_tok(s, i, "]"@) is Some {
            let w = sp_ws(s, i);
            assert(w == i);
            assert(s.subrange(i, i + 1) == "]"@);
            lemma_region_char(s, i, "]"@, 0);
        }
        assert(sp_tok(s, i, "]"@) is None);
        lc_tok(s, i, ","@);
        lc_user(s, i + 1, u0);
        lc_users_rest(s, i + 1 + eu.len(), m1);
        assert(seq![u0] + m1 =~= m);
    }
}

/// The encoding of a user list parses back to exactly it.
proof fn lc_users(s: Seq<char>, i: int, l: Seq<UserView>)
    requires
        0 <= i,
        i + enc_users(l).len() <= s.len(),
        s.subrange(i, i + enc_users(l).len()) == enc_users(l),
    ensures
        sp_users(s, i) == Some((l, i + enc_users(l).len())),
{
    reveal_strlit("[");
    reveal_strlit("]");
    if l.len() == 0 {
        lemma_region_split(s, i, "["@, "]"@);
        lc_tok(s, i, "["@);
        lc_tok(s, i + 1, "]"@);
        assert(l =~= Seq::<UserView>::empty());
    } else {
        let u0 = l[0];
        let l1 = l.skip(1);
        let eu = enc_user(u0);
        let rest = enc_users_rest(l1);
        lemma_region_split(s, i, "["@ + eu, rest);
        lemma_region_split(s, i, "["@, eu);
        lc_tok(s, i, "["@);
        lemma_enc_user_first(u0);
        lemma_region_char(s, i + 1, eu, 0);
        assert(s[i + 1] == '{');
        if sp_tok(s, i + 1, "]"@) is Some {
            let w = sp_ws(s, i + 1);
            assert(w == i + 1);
            assert(s.subrange(i + 1, i + 2) == "]"@);
            lemma_region_char(s, i + 1, "]"@, 0);
        }
        assert(sp_tok(s, i + 1, "]"@) is None);
        lc_user(s, i + 1, u0);
        lc_users_rest(s, i + 1 + eu.len(), l1);
        assert(seq![u0] + l1 =~= l);
    }
}

/// The encoding of the tail of a channel list parses back to exactly it.
proof fn lc_channels_rest(s: Seq<char>, i: int, m: Seq<NotificationChannel>)
    requires
        0 <= i,
        i + enc_channels_rest(m).len() <= s.len(),
        s.subrange(i, i + enc_channels_rest(m).len()) == enc_channels_rest(m),
    ensures
        sp_channels_rest(s, i) == Some((m, i + enc_channels_rest(m).len())),
    decreases m.len(),
{
    reveal_strlit("]");
    reveal_strlit(",");
    if m.len() == 0 {
        lc_tok(s, i, "]"@);
        assert(m =~= Seq::<NotificationChannel>::empty());
    } else {
        let c0 = m[0];
        let m1 = m.skip(1);
        let ec = enc_channel(c0);
        let rest = enc_channels_rest(m1);
        lemma_region_split(s, i, ","@ + ec, rest);
        lemma_region_split(s, i, ","@, ec);
        lemma_region_char(s, i, ","@, 0);
        if sp_tok(s, i, "]"@) is Some {
            let w = sp_ws(s, i);
            assert(w == i);
            assert(s.subrange(i, i + 1) == "]"@);
            lemma_region_char(s, i, "]"@, 0);
        }
        assert(sp_tok(s, i, "]"@) is None);
        lc_tok(s, i, ","@);
        lc_channel(s, i + 1, c0);
        lc_channels_rest(s, i + 1 + ec.len(), m1);
        assert(seq![c0] + m1 =~= m);
    }
}

/// The encoding of a channel list parses back to exactly it.
proof fn lc_channels(s: Seq<char>, i: int, l: Seq<NotificationChannel>)
    requires
        0 <= i,
        i + enc_channels(l).len() <= s.len(),
        s.subrange(i, i + enc_channels(l).len()) == enc_channels(l),
    ensures
        sp_channels(s, i) == Some((l, i + enc_channels(l).len())),
{
    reveal_strlit("[");
    reveal_strlit("]");
    if l.len() == 0 {
        lemma_region_split(s, i, "["@, "]"@);
        lc_tok(s, i, "["@);
        lc_tok(s, i + 1, "]"@);
        assert(l =~= Seq::<NotificationChannel>::empty());
    } else {
        let c0 = l[0];
        let l1 = l.skip(1);
        let ec = enc_channel(c0);
        let rest = enc_channels_rest(l1);
        lemma_region_split(s, i, "["@ + ec, rest);
        lemma_region_split(s, i, "["@, ec);
        lc_tok(s, i, "["@);
        lemma_enc_channel_first(c0);
        lemma_region_char(s, i + 1, ec, 0);
        assert(s[i + 1] == '"');
        if sp_tok(s, i + 1, "]"@) is Some {
            let w = sp_ws(s, i + 1);
            assert(w == i + 1);
            assert(s.subrange(i + 1, i + 2) == "]"@);
            lemma_region_char(s, i + 1, "]"@, 0);
        }
        assert(sp_tok(s, i + 1, "]"@) is None);
        lc_channel(s, i + 1, c0);
        lc_channels_rest(s, i + 1 + ec.len(), l1);
        assert(seq![c0] + l1 =~= l);
    }
}

// ----- group contexts and payloads -----

/// The encoding of a group context parses back to exactly it.
#[verifier::rlimit(100)]
#[verifier::spinoff_prover]
proof fn lc_gctx(s: Seq<char>, i: int, g: GroupContextView)
    requires
        wf_instant(g.datetime_start),
        wf_instant(g.datetime_end),
        0 <= i,
        i + enc_gctx(g).len() <= s.len(),
        s.subrange(i, i + enc_gctx(g).len()) == enc_gctx(g),
    ensures
        sp_gctx(s, i) == Some((g, i + enc_gctx(g).len())),
{
    reveal_strlit("{");
    reveal_strlit("}");
    reveal_strlit(",");
    let q2 = "{"@ + enc_key("match_id"@);
    let q3 = q2 + enc_str(g.match_id);
    let q4 = q3 + ","@;
    let q5 = q4 + enc_key("group"@);
    let q6 = q5 + enc_users(g.group);
    let q7 = q6 + ","@;
    let q8 = q7 + enc_key("datetime_start"@);
    let q9 = q8 + enc_instant(g.datetime_start);
    let q10 = q9 + ","@;
    let q11 = q10 + enc_key("datetime_end"@);
    let q12 = q11 + enc_instant(g.datetime_end);
    lemma_region_split(s, i, q12, "}"@);
    lemma_region_split(s, i, q11, enc_instant(g.datetime_end));
    lemma_region_split(s, i, q10, enc_key("datetime_end"@));
    lemma_region_split(s, i, q9, ","@);
    lemma_region_split(s, i, q8, enc_instant(g.datetime_start));
    lemma_region_split(s, i, q7, enc_key("datetime_start"@));
    lemma_region_split(s, i, q6, ","@);
    lemma_region_split(s, i, q5, enc_users(g.group));
    lemma_region_split(s, i, q4, enc_key("group"@));
    lemma_region_split(s, i, q3, ","@);
    lemma_region_split(s, i, q2, enc_str(g.match_id));
    lemma_region_split(s, i, "{"@, enc_key("match_id"@));
    lc_tok(s, i, "{"@);
    lc_key(s, i + "{"@.len(), "match_id"@);
    lc_str_ws(s, i + q2.len(), g.match_id);
    lc_tok(s, i + q3.len(), ","@);
    lc_key(s, i + q4.len(), "group"@);
    lc_users(s, i + q5.len(), g.group);
    lc_tok(s, i + q6.len(), ","@);
    lc_key(s, i + q7.len(), "datetime_start"@);
    lemma_enc_instant_first(g.datetime_start);
    lc_instant_ws(s, i + q8.len(), g.datetime_start);
    lc_tok(s, i + q9.len(), ","@);
    lc_key(s, i + q10.len(), "datetime_end"@);
    lemma_enc_instant_first(g.datetime_end);
    lc_instant_ws(s, i + q11.len(), g.datetime_end);
    lc_tok(s, i + q12.len(), "}"@);
}

/// The encoding of an authentication data object parses back to exactly
/// it.
#[verifier::rlimit(100)]
#[verifier::spinoff_prover]
proof fn lc_auth_data(s: Seq<char>, i: int, token: Seq<char>, eov: Instant)
    requires
        wf_instant(eov),
        0 <= i,
        i + enc_auth_data(token, eov).len() <= s.len(),
        s.subrange(i, i + enc_auth_data(token, eov).len()) == enc_auth_data(token, eov),
    ensures
        sp_auth_data(s, i) == Some(((token, eov), i + enc_auth_data(token, eov).len())),
{
    reveal_strlit("{");
    reveal_strlit("}");
    reveal_strlit(",");
    let q2 = "{"@ + enc_key("token"@);
    let q3 = q2 + enc_str(token);
    let q4 = q3 + ","@;
    let q5 = q4 + enc_key("eov"@);
    let q6 = q5 + enc_instant(eov);
    lemma_region_split(s, i, q6, "}"@);
    lemma_region_split(s, i, q5, enc_instant(eov));
    lemma_region_split(s, i, q4, enc_key("eov"@));
    lemma_region_split(s, i, q3, ","@);
    lemma_region_split(s, i, q2, enc_str(token));
    lemma_region_split(s, i, "{"@, enc_key("token"@));
    lc_tok(s, i, "{"@);
    lc_key(s, i + "{"@.len(), "token"@);
    lc_str_ws(s, i + q2.len(), token);
    lc_tok(s, i + q3.len(), ","@);
    lc_key(s, i + q4.len(), "eov"@);
    lemma_enc_instant_first(eov);
    lc_instant_ws(s, i + q5.len(), eov);
    lc_tok(s, i + q6.len(), "}"@);
}

/// The fields of a matched-payload encoding parse where they stand.
#[verifier::rlimit(100)]
#[verifier::spinoff_prover]
proof fn lc_payload_matched_fields(s: Seq<char>, i: int, p: PurposeView)
    requires
        p is Matched,
        crate::envelope::wf_purpose(p),
        0 <= i,
        i + enc_payload(p).len() <= s.len(),
        s.subrange(i, i + enc_payload(p).len()) == enc_payload(p),
    ensures
        ({
            let data = p->Matched_data;
            let q2 = "{"@ + enc_key("type"@);
            let q3 = q2 + enc_str("Matched"@);
            let q4 = q3 + ","@;
            let q5 = q4 + enc_key("data"@);
            let q6 = q5 + enc_gctx(data);
            &&& sp_tok(s, i, "{"@) == Some(i + "{"@.len())
            &&& sp_key(s, i + "{"@.len(), "type"@) == Some(i + q2.len())
            &&& sp_str_ws(s, i + q2.len()) == Some(("Matched"@, i + q3.len()))
            &&& sp_tok(s, i + q3.len(), ","@) == Some(i + q4.len())
            &&& sp_key(s, i + q4.len(), "data"@) == Some(i + q5.len())
            &&& sp_gctx(s, i + q5.len()) == Some((data, i + q6.len()))
            &&& sp_tok(s, i + q6.len(), "}"@) == Some(i + enc_payload(p).len())
        }),
{
    reveal_strlit("{");
    reveal_strlit("}");
    reveal_strlit(",");
    let data = p->Matched_data;
    let q2 = "{"@ + enc_key("type"@);
    let q3 = q2 + enc_str("Matched"@);
    let q4 = q3 + ","@;
    let q5 = q4 + enc_key("data"@);
    let q6 = q5 + enc_gctx(data);
    lemma_region_split(s, i, q6, "}"@);
    lemma_region_split(s, i, q5, enc_gctx(data));
    lemma_region_split(s, i, q4, enc_key("data"@));
    lemma_region_split(s, i, q3, ","@);
    lemma_region_split(s, i, q2, enc_str("Matched"@));
    lemma_region_split(s, i, "{"@, enc_key("type"@));
    lc_tok(s, i, "{"@);
    lc_key(s, i + "{"@.len(), "type"@);
    lc_str_ws(s, i + q2.len(), "Matched"@);
    lc_tok(s, i + q3.len(), ","@);
    lc_key(s, i + q4.len(), "data"@);
    lc_gctx(s, i + q5.len(), data);
    lc_tok(s, i + q6.len(), "}"@);
}

/// A matched-payload encoding parses back to exactly it.
#[verifier::rlimit(100)]
#[verifier::spinoff_prover]
proof fn lc_payload_matched(s: Seq<char>, i: int, p: PurposeView)
    requires
        p is Matched,
        crate::envelope::wf_purpose(p),
        0 <= i,
        i + enc_payload(p).len() <= s.len(),
        s.subrange(i, i + enc_payload(p).len()) == enc_payload(p),
    ensures
        sp_payload(s, i) == Some((p, i + enc_payload(p).len())),
{
    lc_payload_matched_fields(s, i, p);
}

/// A canceled-payload encoding parses back to exactly it.
#[verifier::rlimit(100)]
#[verifier::spinoff_prover]
proof fn lc_payload_canceled(s: Seq<char>, i: int, p: PurposeView)
    requires
        p is Canceled,
        crate::envelope::wf_purpose(p),
        0 <= i,
        i + enc_payload(p).len() <= s.len(),
        s.subrange(i, i + enc_payload(p).len()) == enc_payload(p),
    ensures
        sp_payload(s, i) == Some((p, i + enc_payload(p).len())),
{
    reveal_strlit("{");
    reveal_strlit("}");
    reveal_strlit(",");
    reveal_strlit("Matched");
    reveal_strlit("Canceled");
    let data = p->Canceled_data;
    let reason = p->Canceled_reason;
    let q2 = "{"@ + enc_key("type"@);
    let q3 = q2 + enc_str("Canceled"@);
    let q4 = q3 + ","@;
    let q5 = q4 + enc_key("data"@);
    let q6 = q5 + enc_gctx(data);
    let q7 = q6 + ","@;
    let q8 = q7 + enc_key("reason"@);
    let q9 = q8 + enc_str(reason);
    lemma_region_split(s, i, q9, "}"@);
    lemma_region_split(s, i, q8, enc_str(reason));
    lemma_region_split(s, i, q7, enc_key("reason"@));
    lemma_region_split(s, i, q6, ","@);
    lemma_region_split(s, i, q5, enc_gctx(data));
    lemma_region_split(s, i, q4, enc_key("data"@));
    lemma_region_split(s, i, q3, ","@);
    lemma_region_split(s, i, q2, enc_str("Canceled"@));
    lemma_region_split(s, i, "{"@, enc_key("type"@));
    lc_tok(s, i, "{"@);
    lc_key(s, i + "{"@.len(), "type"@);
    lc_str_ws(s, i + q2.len(), "Canceled"@);
    lc_tok(s, i + q3.len(), ","@);
    lc_key(s, i + q4.len(), "data"@);
    assert("Canceled"@.len() == 8 && "Matched"@.len() == 7);
    lc_gctx(s, i + q5.len(), data);
    lc_tok(s, i + q6.len(), ","@);
    lc_key(s, i + q7.len(), "reason"@);
    lc_str_ws(s, i + q8.len(), reason);
    lc_tok(s, i + q9.len(), "}"@);
}

/// An authentication-payload encoding parses back to exactly it.
#[verifier::rlimit(100)]
#[verifier::spinoff_prover]
proof fn lc_payload_auth(s: Seq<char>, i: int, p: PurposeView)
    requires
        p is AuthToken,
        crate::envelope::wf_purpose(p),
        0 <= i,
        i + enc_payload(p).len() <= s.len(),
        s.subrange(i, i + enc_payload(p).len()) == enc_payload(p),
    ensures
        sp_payload(s, i) == Some((p, i + enc_payload(p).len())),
{
    reveal_strlit("{");
    reveal_strlit("}");
    reveal_strlit(",");
    reveal_strlit("Matched");
    reveal_strlit("Canceled");
    reveal_strlit("AuthToken");
    let token = p->AuthToken_token;
    let eov = p->AuthToken_eov;
    let q2 = "{"@ + enc_key("type"@);
    let q3 = q2 + enc_str("AuthToken"@);
    let q4 = q3 + ","@;
    let q5 = q4 + enc_key("data"@);
    let q6 = q5 + enc_auth_data(token, eov);
    lemma_region_split(s, i, q6, "}"@);
    lemma_region_split(s, i, q5, enc_auth_data(token, eov));
    lemma_region_split(s, i, q4, enc_key("data"@));
    lemma_region_split(s, i, q3, ","@);
    lemma_region_split(s, i, q2, enc_str("AuthToken"@));
    lemma_region_split(s, i, "{"@, enc_key("type"@));
    lc_tok(s, i, "{"@);
    lc_key(s, i + "{"@.len(), "type"@);
    lc_str_ws(s, i + q2.len(), "AuthToken"@);
    lc_tok(s, i + q3.len(), ","@);
    lc_key(s, i + q4.len(), "data"@);
    assert("AuthToken"@.len() == 9 && "Matched"@.len() == 7 && "Canceled"@.len() == 8);
    lc_auth_data(s, i + q5.len(), token, eov);
    lc_tok(s, i + q6.len(), "}"@);
}

/// The encoding of a well-formed payload parses back to exactly it.
proof fn lc_payload(s: Seq<char>, i: int, p: PurposeView)
    requires
        crate::envelope::wf_purpose(p),
        0 <= i,
        i + enc_payload(p).len() <= s.len(),
        s.subrange(i, i + enc_payload(p).len()) == enc_payload(p),
    ensures
        sp_payload(s, i) == Some((p, i + enc_payload(p).len())),
{
    match p {
        PurposeView::Matched { .. } => lc_payload_matched(s, i, p),
        PurposeView::Canceled { .. } => lc_payload_canceled(s, i, p),
        PurposeView::AuthToken { .. } => lc_payload_auth(s, i, p),
    }
}

/// The encoding of a trace value parses back to exactly it.
proof fn lc_trace(s: Seq<char>, i: int, t: Option<Seq<char>>)
    requires
        0 <= i,
        i + enc_trace(t).len() <= s.len(),
        s.subrange(i, i + enc_trace(t).len()) == enc_trace(t),
    ensures
        sp_trace(s, i) == Some((t, i + enc_trace(t).len())),
{
    reveal_strlit("null");
    match t {
        None => {
            lc_tok(s, i, "null"@);
        },
        Some(v) => {
            lemma_enc_str_first(v);
            lemma_region_char(s, i, enc_str(v), 0);
            assert(s[i] == '"');
            if sp_tok(s, i, "null"@) is Some {
                let w = sp_ws(s, i);
                assert(w == i);
                assert(s.subrange(i, i + 4) == "null"@);
                lemma_region_char(s, i, "null"@, 0);
            }
            assert(sp_tok(s, i, "null"@) is None);
            lc_str_ws(s, i, v);
        },
    }
}

/// The tail of an envelope encoding: the comma before `trace_id`, the
/// field itself, and the closing brace; also the region of what stands
/// before them.
#[verifier::rlimit(100)]
#[verifier::spinoff_prover]
proof fn lc_env_stage_trace(s: Seq<char>, i: int, v: EnvelopeView)
    requires
        0 <= i,
        i + enc_envelope(v).len() <= s.len(),
        s.subrange(i, i + enc_envelope(v).len()) == enc_envelope(v),
    ensures
        ({
            let q9 = "{"@ + enc_key("target_user"@) + enc_user(v.target_user) + ","@ + enc_key(
                "channels"@,
            ) + enc_channels(v.channels) + ","@ + enc_key("payload"@) + enc_payload(v.payload);
            &&& sp_tok(s, i + q9.len(), ","@) == Some(i + q9.len() + ","@.len())
            &&& sp_key(s, i + q9.len() + ","@.len(), "trace_id"@) == Some(
                i + q9.len() + ","@.len() + enc_key("trace_id"@).len(),
            )
            &&& sp_trace(s, i + q9.len() + ","@.len() + enc_key("trace_id"@).len()) == Some(
                (
                    v.trace_id,
                    i + q9.len() + ","@.len() + enc_key("trace_id"@).len() + enc_trace(
                        v.trace_id,
                    ).len(),
                ),
            )
            &&& sp_tok(
                s,
                i + q9.len() + ","@.len() + enc_key("trace_id"@).len() + enc_trace(
                    v.trace_id,
                ).len(),
                "}"@,
            ) == Some(i + enc_envelope(v).len())
            &&& s.subrange(i, i + q9.len()) == q9
        }),
{
    reveal_strlit("}");
    reveal_strlit(",");
    let q2 = "{"@ + enc_key("target_user"@);
    let q3 = q2 + enc_user(v.target_user);
    let q4 = q3 + ","@;
    let q5 = q4 + enc_key("channels"@);
    let q6 = q5 + enc_channels(v.channels);
    let q7 = q6 + ","@;
    let q8 = q7 + enc_key("payload"@);
    let q9 = q8 + enc_payload(v.payload);
    let q10 = q9 + ","@;
    let q11 = q10 + enc_key("trace_id"@);
    let q12 = q11 + enc_trace(v.trace_id);
    lemma_region_split(s, i, q12, "}"@);
    lemma_region_split(s, i, q11, enc_trace(v.trace_id));
    lemma_region_split(s, i, q10, enc_key("trace_id"@));
    lemma_region_split(s, i, q9, ","@);
    lc_tok(s, i + q9.len(), ","@);
    lc_key(s, i + q10.len(), "trace_id"@);
    lc_trace(s, i + q11.len(), v.trace_id);
    lc_tok(s, i + q12.len(), "}"@);
}

/// The payload section of an envelope encoding: its comma, its key and
/// the payload itself; also the region of what stands before them.
#[verifier::rlimit(100)]
#[verifier::spinoff_prover]
proof fn lc_env_stage_payload(s: Seq<char>, i: int, v: EnvelopeView)
    requires
        crate::envelope::wf_envelope(v),
        0 <= i,
        ({
            let q9 = "{"@ + enc_key("target_user"@) + enc_user(v.target_user) + ","@ + enc_key(
                "channels"@,
            ) + enc_channels(v.channels) + ","@ + enc_key("payload"@) + enc_payload(v.payload);
            &&& i + q9.len() <= s.len()
            &&& s.subrange(i, i + q9.len()) == q9
        }),
    ensures
        ({
            let q6 = "{"@ + enc_key("target_user"@) + enc_user(v.target_user) + ","@ + enc_key(
                "channels"@,
            ) + enc_channels(v.channels);
            let q7 = q6 + ","@;
            let q8 = q7 + enc_key("payload"@);
            let q9 = q8 + enc_payload(v.payload);
            &&& sp_tok(s, i + q6.len(), ","@) == Some(i + q7.len())
            &&& sp_key(s, i + q7.len(), "payload"@) == Some(i + q8.len())
            &&& sp_payload(s, i + q8.len()) == Some((v.payload, i + q9.len()))
            &&& s.subrange(i, i + q6.len()) == q6
        }),
{
    reveal_strlit(",");
    let q6 = "{"@ + enc_key("target_user"@) + enc_user(v.target_user) + ","@ + enc_key(
        "channels"@,
    ) + enc_channels(v.channels);
    let q7 = q6 + ","@;
    let q8 = q7 + enc_key("payload"@);
    lemma_region_split(s, i, q8, enc_payload(v.payload));
    lemma_region_split(s, i, q7, enc_key("payload"@));
    lemma_region_split(s, i, q6, ","@);
    lc_tok(s, i + q6.len(), ","@);
    lc_key(s, i + q7.len(), "payload"@);
    lc_payload(s, i + q8.len(), v.payload);
}

/// The channels section of an envelope encoding: its comma, its key and
/// the channel list; also the region of what stands before them.
#[verifier::rlimit(100)]
#[verifier::spinoff_prover]
proof fn lc_env_stage_channels(s: Seq<char>, i: int, v: EnvelopeView)
    requires
        0 <= i,
        ({
            let q6 = "{"@ + enc_key("target_user"@) + enc_user(v.target_user) + ","@ + enc_key(
                "channels"@,
            ) + enc_channels(v.channels);
            &&& i + q6.len() <= s.len()
            &&& s.subrange(i, i + q6.len()) == q6
        }),
    ensures
        ({
            let q3 = "{"@ + enc_key("target_user"@) + enc_user(v.target_user);
            let q4 = q3 + ","@;
            let q5 = q4 + enc_key("channels"@);
            let q6 = q5 + enc_channels(v.channels);
            &&& sp_tok(s, i + q3.len(), ","@) == Some(i + q4.len())
            &&& sp_key(s, i + q4.len(), "channels"@) == Some(i + q5.len())
            &&& sp_channels(s, i + q5.len()) == Some((v.channels, i + q6.len()))
            &&& s.subrange(i, i + q3.len()) == q3
        }),
{
    reveal_strlit(",");
    let q3 = "{"@ + enc_key("target_user"@) + enc_user(v.target_user);
    let q4 = q3 + ","@;
    let q5 = q4 + enc_key("channels"@);
    lemma_region_split(s, i, q5, enc_channels(v.channels));
    lemma_region_split(s, i, q4, enc_key("channels"@));
    lemma_region_split(s, i, q3, ","@);
    lc_tok(s, i + q3.len(), ","@);
    lc_key(s, i + q4.len(), "channels"@);
    lc_channels(s, i + q5.len(), v.channels);
}

/// The front of an envelope encoding: the opening brace, the
/// `target_user` key and the user object.
#[verifier::rlimit(100)]
#[verifier::spinoff_prover]
proof fn lc_env_stage_user(s: Seq<char>, i: int, v: EnvelopeView)
    requires
        0 <= i,
        ({
            let q3 = "{"@ + enc_key("target_user"@) + enc_user(v.target_user);
            &&& i + q3.len() <= s.len()
            &&& s.subrange(i, i + q3.len()) == q3
        }),
    ensures
        ({
            let q2 = "{"@ + enc_key("target_user"@);
            let q3 = q2 + enc_user(v.target_user);
            &&& sp_tok(s, i, "{"@) == Some(i + "{"@.len())
            &&& sp_key(s, i + "{"@.len(), "target_user"@) == Some(i + q2.len())
            &&& sp_user(s, i + q2.len()) == Some((v.target_user, i + q3.len()))
        }),
{
    reveal_strlit("{");
    let q2 = "{"@ + enc_key("target_user"@);
    lemma_region_split(s, i, q2, enc_user(v.target_user));
    lemma_region_split(s, i, "{"@, enc_key("target_user"@));
    lc_tok(s, i, "{"@);
    lc_key(s, i + "{"@.len(), "target_user"@);
    lc_user(s, i + q2.len(), v.target_user);
}

/// The encoding of a well-formed envelope parses back to exactly it.
#[verifier::rlimit(100)]
#[verifier::spinoff_prover]
proof fn lc_envelope(s: Seq<char>, i: int, v: EnvelopeView)
    requires
        crate::envelope::wf_envelope(v),
        0 <= i,
        i + enc_envelope(v).len() <= s.len(),
        s.subrange(i, i + enc_envelope(v).len()) == enc_envelope(v),
    ensures
        sp_envelope(s, i) == Some((v, i + enc_envelope(v).len())),
{
    lc_env_stage_trace(s, i, v);
    lc_env_stage_payload(s, i, v);
    lc_env_stage_channels(s, i, v);
    lc_env_stage_user(s, i, v);
}

// ----- well-formedness of whatever decodes -----

proof fn lemma_minutes_split(lt: int)
    requires
        0 <= lt < 1440,
    ensures
        0 <= lt / 60 <= 23,
        0 <= lt % 60 <= 59,
{
}

/// Normalizing a well-formed local instant by an in-range offset yields
/// a well-formed instant.
proof fn lemma_apply_offset_wf(t: Instant, minus: bool, oh: int, om: int)
    requires
        wf_instant(t),
        0 <= oh <= 23,
        0 <= om <= 59,
        apply_offset(t, minus, oh, om) is Some,
    ensures
        wf_instant(apply_offset(t, minus, oh, om)->Some_0),
{
    let total = t.hour as int * 60 + t.minute as int;
    let delta = oh * 60 + om;
    let lt = if minus {
        total + delta
    } else {
        total - delta
    };
    if 0 <= lt && lt < 1440 {
        lemma_minutes_split(lt);
    } else if lt < 0 {
        lemma_minutes_split(lt + 1440);
        let d = prev_day(t)->Some_0;
        assert(wf_instant(Instant { hour: t.hour, minute: t.minute, ..d })) by {
            if t.day > 1 {
            } else if t.month > 1 {
                assert(1 <= spec_days_in_month(t.year as int, t.month as int - 1) <= 31);
            } else {
            }
        }
    } else {
        lemma_minutes_split(lt - 1440);
        let d = next_day(t)->Some_0;
        assert(wf_instant(Instant { hour: t.hour, minute: t.minute, ..d })) by {
            if (t.day as int) < spec_days_in_month(t.year as int, t.month as int) {
            } else if t.month < 12 {
                assert(1 <= spec_days_in_month(t.year as int, t.month as int + 1));
            } else {
            }
        }
    }
}

/// Whatever the instant parser accepts is a well-formed instant.
proof fn lemma_sp_instant_wf(s: Seq<char>, i: int)
    requires
        sp_instant(s, i) is Some,
    ensures
        wf_instant(sp_instant(s, i)->Some_0.0),
{
    let local = Instant {
        year: d4v(s, i + 1) as u16,
        month: d2v(s, i + 6) as u8,
        day: d2v(s, i + 9) as u8,
        hour: d2v(s, i + 12) as u8,
        minute: d2v(s, i + 15) as u8,
        second: d2v(s, i + 18) as u8,
    };
    let q = sp_frac(s, i + 20)->Some_0;
    if q < s.len() && (s[q] == 'Z' || s[q] == 'z') {
    } else {
        let oh = d2v(s, q + 1);
        let om = d2v(s, q + 4);
        lemma_apply_offset_wf(local, s[q] == '-', oh, om);
    }
}

/// Whatever the group-context parser accepts carries well-formed
/// instants.
proof fn lemma_sp_gctx_wf(s: Seq<char>, i: int)
    requires
        sp_gctx(s, i) is Some,
    ensures
        wf_instant(sp_gctx(s, i)->Some_0.0.datetime_start),
        wf_instant(sp_gctx(s, i)->Some_0.0.datetime_end),
{
    let j0 = sp_tok(s, i, "{"@)->Some_0;
    let j1 = sp_key(s, j0, "match_id"@)->Some_0;
    let (mid, j2) = sp_str_ws(s, j1)->Some_0;
    let j3 = sp_tok(s, j2, ","@)->Some_0;
    let j4 = sp_key(s, j3, "group"@)->Some_0;
    let (grp, j5) = sp_users(s, j4)->Some_0;
    let j6 = sp_tok(s, j5, ","@)->Some_0;
    let j7 = sp_key(s, j6, "datetime_start"@)->Some_0;
    let (ts, j8) = sp_instant_ws(s, j7)->Some_0;
    let j9 = sp_tok(s, j8, ","@)->Some_0;
    let j10 = sp_key(s, j9, "datetime_end"@)->Some_0;
    let (te, j11) = sp_instant_ws(s, j10)->Some_0;
    lemma_sp_instant_wf(s, sp_ws(s, j7));
    lemma_sp_instant_wf(s, sp_ws(s, j10));
}

/// Whatever the payload parser accepts is a well-formed purpose.
proof fn lemma_sp_payload_wf(s: Seq<char>, i: int)
    requires
        sp_payload(s, i) is Some,
    ensures
        crate::envelope::wf_purpose(sp_payload(s, i)->Some_0.0),
{
    let j0 = sp_tok(s, i, "{"@)->Some_0;
    let j1 = sp_key(s, j0, "type"@)->Some_0;
    let (tag, j2) = sp_str_ws(s, j1)->Some_0;
    let j3 = sp_tok(s, j2, ","@)->Some_0;
    let j4 = sp_key(s, j3, "data"@)->Some_0;
    if tag == "Matched"@ {
        lemma_sp_gctx_wf(s, j4);
    } else if tag == "Canceled"@ {
        lemma_sp_gctx_wf(s, j4);
    } else {
        let ((tok, t), j5) = sp_auth_data(s, j4)->Some_0;
        let a0 = sp_tok(s, j4, "{"@)->Some_0;
        let a1 = sp_key(s, a0, "token"@)->Some_0;
        let (tk, a2) = sp_str_ws(s, a1)->Some_0;
        let a3 = sp_tok(s, a2, ","@)->Some_0;
        let a4 = sp_key(s, a3, "eov"@)->Some_0;
        lemma_sp_instant_wf(s, sp_ws(s, a4));
    }
}

/// Whatever decodes at all is a well-formed envelope: every instant it
/// carries is a valid calendar instant, already normalized to UTC.
pub proof fn lemma_decode_wf(s: Seq<char>)
    requires
        spec_decode(s) is Some,
    ensures
        crate::envelope::wf_envelope(spec_decode(s)->Some_0),
{
    let j0 = sp_tok(s, 0, "{"@)->Some_0;
    let j1 = sp_key(s, j0, "target_user"@)->Some_0;
    let (u, j2) = sp_user(s, j1)->Some_0;
    let j3 = sp_tok(s, j2, ","@)->Some_0;
    let j4 = sp_key(s, j3, "channels"@)->Some_0;
    let (cs, j5) = sp_channels(s, j4)->Some_0;
    let j6 = sp_tok(s, j5, ","@)->Some_0;
    let j7 = sp_key(s, j6, "payload"@)->Some_0;
    let (p, j8) = sp_payload(s, j7)->Some_0;
    lemma_sp_payload_wf(s, j7);
}

// ----- the round trip -----

/// Round trip: the canonical encoding of any well-formed envelope
/// decodes back to exactly that envelope, every field included.
pub proof fn lemma_decode_encode(v: EnvelopeView)
    requires
        crate::envelope::wf_envelope(v),
    ensures
        spec_decode(enc_envelope(v)) == Some(v),
{
    let s = enc_envelope(v);
    assert(s.subrange(0, s.len() as int) =~= s);
    lc_envelope(s, 0, v);
}

} // verus!
