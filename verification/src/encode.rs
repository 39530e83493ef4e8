//! The executable encoder.
//!
//! Each function appends the canonical wire encoding of one value to an
//! output string and is proved to append exactly what the wire module's
//! `enc_*` functions say.

use vstd::prelude::*;
use vstd::string::{StrSliceExecFns, StringExecFns};
use crate::envelope::{
    NotificationChannel, NotificationEnvelope, NotificationPurpose, User, UserView, users_view,
    wf_envelope, wf_purpose,
};
use crate::instant::{Instant, wf_instant};
use crate::text::{dchar_exec, push_char};
use crate::wire::{
    enc_channel, enc_channels, enc_channels_rest, enc_envelope, enc_instant, enc_key,
    enc_payload, enc_str, enc_trace, enc_user, enc_users, enc_users_rest, esc, lemma_esc_snoc,
};

verus! {

/// Append a quoted, escaped string.
fn write_str(out: &mut String, v: &str)
    ensures
        final(out)@ == old(out)@ + enc_str(v@),
{
    push_char(out, '"');
    let n = v.unicode_len();
    let mut k: usize = 0;
    while k < n
        invariant
            k <= n,
            n == v@.len(),
            out@ == old(out)@ + seq!['"'] + esc(v@.subrange(0, k as int)),
        decreases n - k,
    {
        let c = v.get_char(k);
        let ghost pre = v@.subrange(0, k as int);
        if c == '"' || c == '\\' {
            push_char(out, '\\');
            push_char(out, c);
        } else {
            push_char(out, c);
        }
        proof {
            lemma_esc_snoc(pre, v@[k as int]);
            assert(v@.subrange(0, (k + 1) as int) =~= pre.push(v@[k as int]));
            assert(out@ =~= old(out)@ + seq!['"'] + esc(v@.subrange(0, (k + 1) as int)));
        }
        k += 1;
    }
    push_char(out, '"');
    proof {
        assert(v@.subrange(0, n as int) =~= v@);
        assert(out@ =~= old(out)@ + enc_str(v@));
    }
}

/// Append a quoted field name and its colon.
fn write_key(out: &mut String, k: &str)
    ensures
        final(out)@ == old(out)@ + enc_key(k@),
{
    write_str(out, k);
    out.append(":");
    proof {
        assert(out@ =~= old(out)@ + enc_key(k@));
    }
}

/// Append the date half of a quoted instant.
fn write_instant_date(out: &mut String, t: &Instant)
    requires
        wf_instant(*t),
    ensures
        final(out)@ == old(out)@ + crate::wire::enc_instant_date(*t),
{
    push_char(out, '"');
    push_char(out, dchar_exec((t.year / 1000) as u8));
    push_char(out, dchar_exec(((t.year / 100) % 10) as u8));
    push_char(out, dchar_exec(((t.year / 10) % 10) as u8));
    push_char(out, dchar_exec((t.year % 10) as u8));
    push_char(out, '-');
    push_char(out, dchar_exec(t.month / 10));
    push_char(out, dchar_exec(t.month % 10));
    push_char(out, '-');
    push_char(out, dchar_exec(t.day / 10));
    push_char(out, dchar_exec(t.day % 10));
    proof {
        assert(out@ =~= old(out)@ + crate::wire::enc_instant_date(*t));
    }
}

/// Append the time half of a quoted instant.
fn write_instant_time(out: &mut String, t: &Instant)
    requires
        wf_instant(*t),
    ensures
        final(out)@ == old(out)@ + crate::wire::enc_instant_time(*t),
{
    push_char(out, 'T');
    push_char(out, dchar_exec(t.hour / 10));
    push_char(out, dchar_exec(t.hour % 10));
    push_char(out, ':');
    push_char(out, dchar_exec(t.minute / 10));
    push_char(out, dchar_exec(t.minute % 10));
    push_char(out, ':');
    push_char(out, dchar_exec(t.second / 10));
    push_char(out, dchar_exec(t.second % 10));
    push_char(out, 'Z');
    push_char(out, '"');
    proof {
        assert(out@ =~= old(out)@ + crate::wire::enc_instant_time(*t));
    }
}

/// Append a quoted instant.
fn write_instant(out: &mut String, t: &Instant)
    requires
        wf_instant(*t),
    ensures
        final(out)@ == old(out)@ + enc_instant(*t),
{
    write_instant_date(out, t);
    write_instant_time(out, t);
    proof {
        assert(out@ =~= old(out)@ + enc_instant(*t));
    }
}

/// Append a user object.
#[verifier::rlimit(100)]
#[verifier::spinoff_prover]
fn write_user(out: &mut String, u: &User)
    ensures
        final(out)@ == old(out)@ + enc_user(u@),
{
    out.append("{");
    write_key(out, "name");
    write_str(out, u.name.as_str());
    out.append(",");
    write_key(out, "email");
    write_str(out, u.email.as_str());
    out.append(",");
    write_key(out, "phone_number");
    write_str(out, u.phone_number.as_str());
    out.append(",");
    write_key(out, "apn_token");
    write_str(out, u.apn_token.as_str());
    out.append("}");
    proof {
        assert(out@ =~= old(out)@ + enc_user(u@));
    }
}

/// Append a channel tag.
fn write_channel(out: &mut String, c: &NotificationChannel)
    ensures
        final(out)@ == old(out)@ + enc_channel(*c),
{
    match c {
        NotificationChannel::Email => write_str(out, "Email"),
        NotificationChannel::PushNotification => write_str(out, "APN"),
    }
}

/// Append a list of user objects.
fn write_users(out: &mut String, l: &Vec<User>)
    ensures
        final(out)@ == old(out)@ + enc_users(users_view(l@)),
{
    if l.len() == 0 {
        out.append("[");
        out.append("]");
        proof {
            assert(users_view(l@).len() == 0);
            assert(out@ =~= old(out)@ + enc_users(users_view(l@)));
        }
        return ;
    }
    out.append("[");
    write_user(out, &l[0]);
    let ghost uv = users_view(l@);
    proof {
        assert(uv[0] == l@[0]@);
        assert(old(out)@ + enc_users(uv) =~= out@ + enc_users_rest(uv.skip(1)));
    }
    let mut k: usize = 1;
    while k < l.len()
        invariant
            1 <= k <= l.len(),
            uv == users_view(l@),
            uv.len() == l@.len(),
            old(out)@ + enc_users(uv) == out@ + enc_users_rest(uv.skip(k as int)),
        decreases l.len() - k,
    {
        let ghost pre = out@;
        proof {
            assert(uv.skip(k as int).len() > 0);
            assert(uv.skip(k as int)[0] == uv[k as int]);
            assert(uv[k as int] == l@[k as int]@);
            assert(uv.skip(k as int).skip(1) =~= uv.skip(k as int + 1));
        }
        out.append(",");
        write_user(out, &l[k]);
        proof {
            assert(out@ =~= pre + (","@ + enc_user(uv[k as int])));
            assert(pre + (","@ + enc_user(uv[k as int])) + enc_users_rest(uv.skip(k as int + 1))
                =~= pre + enc_users_rest(uv.skip(k as int)));
        }
        k += 1;
    }
    out.append("]");
    proof {
        assert(uv.skip(l@.len() as int).len() == 0);
        assert(out@ =~= old(out)@ + enc_users(uv));
    }
}

/// Append a list of channel tags.
fn write_channels(out: &mut String, l: &Vec<NotificationChannel>)
    ensures
        final(out)@ == old(out)@ + enc_channels(l@),
{
    if l.len() == 0 {
        out.append("[");
        out.append("]");
        proof {
            assert(out@ =~= old(out)@ + enc_channels(l@));
        }
        return ;
    }
    out.append("[");
    write_channel(out, &l[0]);
    proof {
        assert(old(out)@ + enc_channels(l@) =~= out@ + enc_channels_rest(l@.skip(1)));
    }
    let mut k: usize = 1;
    while k < l.len()
        invariant
            1 <= k <= l.len(),
            old(out)@ + enc_channels(l@) == out@ + enc_channels_rest(l@.skip(k as int)),
        decreases l.len() - k,
    {
        let ghost pre = out@;
        proof {
            assert(l@.skip(k as int).len() > 0);
            assert(l@.skip(k as int)[0] == l@[k as int]);
            assert(l@.skip(k as int).skip(1) =~= l@.skip(k as int + 1));
        }
        out.append(",");
        write_channel(out, &l[k]);
        proof {
            assert(out@ =~= pre + (","@ + enc_channel(l@[k as int])));
            assert(pre + (","@ + enc_channel(l@[k as int])) + enc_channels_rest(
                l@.skip(k as int + 1),
            ) =~= pre + enc_channels_rest(l@.skip(k as int)));
        }
        k += 1;
    }
    out.append("]");
    proof {
        assert(l@.skip(l@.len() as int).len() == 0);
        assert(out@ =~= old(out)@ + enc_channels(l@));
    }
}

/// Append a group context object.
#[verifier::rlimit(100)]
#[verifier::spinoff_prover]
fn write_gctx(out: &mut String, g: &crate::envelope::GroupContext)
    requires
        wf_instant(g.datetime_start),
        wf_instant(g.datetime_end),
    ensures
        final(out)@ == old(out)@ + crate::wire::enc_gctx(g@),
{
    out.append("{");
    write_key(out, "match_id");
    write_str(out, g.match_id.as_str());
    out.append(",");
    write_key(out, "group");
    write_users(out, &g.group);
    out.append(",");
    write_key(out, "datetime_start");
    write_instant(out, &g.datetime_start);
    out.append(",");
    write_key(out, "datetime_end");
    write_instant(out, &g.datetime_end);
    out.append("}");
    proof {
        assert(out@ =~= old(out)@ + crate::wire::enc_gctx(g@));
    }
}

/// Append a match-found payload object.
#[verifier::rlimit(100)]
#[verifier::spinoff_prover]
fn write_payload_matched(out: &mut String, p: &NotificationPurpose)
    requires
        p is Matched,
        wf_purpose(p@),
    ensures
        final(out)@ == old(out)@ + enc_payload(p@),
{
    match p {
        NotificationPurpose::Matched { data } => {
            out.append("{");
            write_key(out, "type");
            write_str(out, "Matched");
            out.append(",");
            write_key(out, "data");
            write_gctx(out, data);
            out.append("}");
            proof {
                assert(out@ =~= old(out)@ + enc_payload(p@));
            }
        },
        _ => {
            proof {
                assert(false);
            }
        },
    }
}

/// Append a match-canceled payload object.
#[verifier::rlimit(100)]
#[verifier::spinoff_prover]
fn write_payload_canceled(out: &mut String, p: &NotificationPurpose)
    requires
        p is Canceled,
        wf_purpose(p@),
    ensures
        final(out)@ == old(out)@ + enc_payload(p@),
{
    match p {
        NotificationPurpose::Canceled { data, reason } => {
            out.append("{");
            write_key(out, "type");
            write_str(out, "Canceled");
            out.append(",");
            write_key(out, "data");
            write_gctx(out, data);
            out.append(",");
            write_key(out, "reason");
            write_str(out, reason.as_str());
            out.append("}");
            proof {
                assert(out@ =~= old(out)@ + enc_payload(p@));
            }
        },
        _ => {
            proof {
                assert(false);
            }
        },
    }
}

/// Append an authentication payload object.
#[verifier::rlimit(100)]
#[verifier::spinoff_prover]
fn write_payload_auth(out: &mut String, p: &NotificationPurpose)
    requires
        p is AuthToken,
        wf_purpose(p@),
    ensures
        final(out)@ == old(out)@ + enc_payload(p@),
{
    match p {
        NotificationPurpose::AuthToken { token, eov } => {
            out.append("{");
            write_key(out, "type");
            write_str(out, "AuthToken");
            out.append(",");
            write_key(out, "data");
            out.append("{");
            write_key(out, "token");
            write_str(out, token.as_str());
            out.append(",");
            write_key(out, "eov");
            write_instant(out, eov);
            out.append("}");
            out.append("}");
            proof {
                assert(out@ =~= old(out)@ + enc_payload(p@));
            }
        },
        _ => {
            proof {
                assert(false);
            }
        },
    }
}

/// Append a payload object.
fn write_payload(out: &mut String, p: &NotificationPurpose)
    requires
        wf_purpose(p@),
    ensures
        final(out)@ == old(out)@ + enc_payload(p@),
{
    match p {
        NotificationPurpose::Matched { .. } => write_payload_matched(out, p),
        NotificationPurpose::Canceled { .. } => write_payload_canceled(out, p),
        NotificationPurpose::AuthToken { .. } => write_payload_auth(out, p),
    }
}

/// Append the trace value.
fn write_trace(out: &mut String, t: &Option<String>)
    ensures
        final(out)@ == old(out)@ + enc_trace(
            match t {
                Some(v) => Some(v@),
                None => None,
            },
        ),
{
    match t {
        Some(v) => write_str(out, v.as_str()),
        None => out.append("null"),
    }
}

/// Encode an envelope into its canonical wire text.
///
/// The result is exactly one of the encodings that the decoder accepts
/// back; the laws module proves that round trip.
#[verifier::rlimit(100)]
#[verifier::spinoff_prover]
pub fn encode_envelope(e: &NotificationEnvelope) -> (r: String)
    requires
        wf_envelope(e@),
    ensures
        r@ == enc_envelope(e@),
{
    let mut out = String::new();
    out.append("{");
    write_key(&mut out, "target_user");
    write_user(&mut out, &e.target_user);
    out.append(",");
    write_key(&mut out, "channels");
    write_channels(&mut out, &e.channels);
    out.append(",");
    write_key(&mut out, "payload");
    write_payload(&mut out, &e.payload);
    out.append(",");
    write_key(&mut out, "trace_id");
    write_trace(&mut out, &e.trace_id);
    out.append("}");
    proof {
        assert(out@ =~= enc_envelope(e@));
    }
    out
}

} // verus!
