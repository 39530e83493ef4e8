//! The email composer.
//!
//! For each notification purpose there is one build function that turns
//! the envelope's data into the rendered email: a fixed sender, the
//! target user as recipient, a fixed subject, and a plain-text body that
//! interpolates exactly the envelope's fields. Building fails only when
//! an address does not parse as a mailbox; the mail transport itself is
//! the caller's concern.

use vstd::prelude::*;
use vstd::string::{StrSliceExecFns, StringExecFns};
use chrono::TimeZone;
use crate::dispatch::ErrorKind;
use crate::envelope::{
    GroupContext, NotificationEnvelope, NotificationPurpose, User, UserView, users_view,
    wf_envelope, EnvelopeView, PurposeView,
};
use crate::instant::{Instant, wf_instant};
use crate::text::{dchar_exec, push_char};
use crate::wire::dchar;

verus! {

/// A rendered email, ready for a transport: addresses, subject, body.
#[derive(Debug)]
pub struct Email {
    pub from: String,
    pub to: String,
    pub subject: String,
    pub body: String,
}

/// The view of an [`Email`].
pub struct EmailView {
    pub from: Seq<char>,
    pub to: Seq<char>,
    pub subject: Seq<char>,
    pub body: Seq<char>,
}

impl View for Email {
    type V = EmailView;

    open spec fn view(&self) -> EmailView {
        EmailView { from: self.from@, to: self.to@, subject: self.subject@, body: self.body@ }
    }
}

/// The fixed sender address.
pub open spec fn sender() -> Seq<char> {
    "BlueRide <blueride@hackduke.org>"@
}

/// The display address of the target user: `name <email>`.
pub open spec fn recipient(u: UserView) -> Seq<char> {
    u.name + " <"@ + u.email + ">"@
}

/// Whether lettre's mailbox grammar accepts a display address.
pub uninterp spec fn mailbox_accepts(s: Seq<char>) -> bool;

/// Relies on lettre's `Mailbox` parser (`FromStr`): whether a display
/// address parses is a function of its characters alone.
#[verifier::external_body]
fn mailbox_ok(s: &str) -> (r: bool)
    ensures
        r == mailbox_accepts(s@),
{
    s.parse::<lettre::message::Mailbox>().is_ok()
}

/// The Eastern-time display of a UTC instant, in the fixed
/// day/month/year, twelve-hour format.
pub uninterp spec fn eastern_display(t: Instant) -> Seq<char>;

/// Relies on chrono and chrono-tz: the Eastern-time rendering of a UTC
/// instant is a function of the instant alone; the zone's rules are
/// compiled into the crate.
#[verifier::external_body]
fn format_eastern(t: &Instant) -> (r: String)
    requires
        wf_instant(*t),
    ensures
        r@ == eastern_display(*t),
{
    let dt = chrono::Utc
        .with_ymd_and_hms(
            t.year as i32,
            t.month as u32,
            t.day as u32,
            t.hour as u32,
            t.minute as u32,
            t.second as u32,
        )
        .unwrap();
    let et = dt.with_timezone(&chrono_tz::US::Eastern);
    et.format("%d/%m/%Y %I:%M%P %Z").to_string()
}

/// The date half of the plain UTC display: `YYYY-MM-DD`.
pub open spec fn utc_display_date(t: Instant) -> Seq<char> {
    seq![
        dchar(t.year as int / 1000),
        dchar((t.year as int / 100) % 10),
        dchar((t.year as int / 10) % 10),
        dchar(t.year as int % 10),
        '-',
        dchar(t.month as int / 10),
        dchar(t.month as int % 10),
        '-',
        dchar(t.day as int / 10),
        dchar(t.day as int % 10),
    ]
}

/// The time half of the plain UTC display: ` HH:MM:SS`.
pub open spec fn utc_display_time(t: Instant) -> Seq<char> {
    seq![
        ' ',
        dchar(t.hour as int / 10),
        dchar(t.hour as int % 10),
        ':',
        dchar(t.minute as int / 10),
        dchar(t.minute as int % 10),
        ':',
        dchar(t.second as int / 10),
        dchar(t.second as int % 10),
    ]
}

/// How an expiry instant is written in the authentication email:
/// `YYYY-MM-DD HH:MM:SS UTC`.
pub open spec fn utc_display(t: Instant) -> Seq<char> {
    utc_display_date(t) + utc_display_time(t) + " UTC"@
}

fn write_utc_date(out: &mut String, t: &Instant)
    requires
        wf_instant(*t),
    ensures
        final(out)@ == old(out)@ + utc_display_date(*t),
{
    push_char(out, dchar_exec((t.year / 1000) as u8));
    push_char(out, dchar_exec(((t.year / 100) % 10) as u8));
    push_char(out, dchar_exec(((t.year / 10) % 10) as u8));
    push_char(out, dchar_exec((t.year % 10) as u8));
    push_char(out, '-');
    push_char(out, dchar_exec(t.month / 10));
    push_char(out, dchar_exec(t.month % 10));
    push_char(out, '-');
    push_char(out, dchar_exec(t.day / 10));
    push_char(out, dchar_exec(t.day % 10));
    proof {
        assert(out@ =~= old(out)@ + utc_display_date(*t));
    }
}

fn write_utc_time(out: &mut String, t: &Instant)
    requires
        wf_instant(*t),
    ensures
        final(out)@ == old(out)@ + utc_display_time(*t),
{
    push_char(out, ' ');
    push_char(out, dchar_exec(t.hour / 10));
    push_char(out, dchar_exec(t.hour % 10));
    push_char(out, ':');
    push_char(out, dchar_exec(t.minute / 10));
    push_char(out, dchar_exec(t.minute % 10));
    push_char(out, ':');
    push_char(out, dchar_exec(t.second / 10));
    push_char(out, dchar_exec(t.second % 10));
    proof {
        assert(out@ =~= old(out)@ + utc_display_time(*t));
    }
}

/// Render an instant as its plain UTC display.
pub fn display_utc(t: &Instant) -> (r: String)
    requires
        wf_instant(*t),
    ensures
        r@ == utc_display(*t),
{
    let mut out = String::new();
    write_utc_date(&mut out, t);
    write_utc_time(&mut out, t);
    out.append(" UTC");
    proof {
        assert(out@ =~= utc_display(*t));
    }
    out
}

/// One line of the group listing: `- name: phone_number`, newline
/// terminated.
pub open spec fn member_line(u: UserView) -> Seq<char> {
    "- "@ + u.name + ": "@ + u.phone_number + "\n"@
}

/// The whole group listing: one line per member, in input order.
pub open spec fn spec_list_of_individuals(group: Seq<UserView>) -> Seq<char>
    decreases group.len(),
{
    if group.len() == 0 {
        Seq::empty()
    } else {
        member_line(group[0]) + spec_list_of_individuals(group.skip(1))
    }
}

/// Where member `k`'s line begins inside the listing: the lines of the
/// members before it, end to end.
pub open spec fn listing_offset(g: Seq<UserView>, k: int) -> int
    decreases k,
{
    if k <= 0 {
        0
    } else {
        listing_offset(g, k - 1) + member_line(g[k - 1]).len()
    }
}

proof fn lemma_listing_offset_shift(g: Seq<UserView>, k: int)
    requires
        1 <= k <= g.len(),
    ensures
        listing_offset(g, k) == member_line(g[0]).len() + listing_offset(g.skip(1), k - 1),
    decreases k,
{
    if k == 1 {
        assert(listing_offset(g, 0) == 0);
        assert(listing_offset(g.skip(1), 0) == 0);
        assert(listing_offset(g, 1) == member_line(g[0]).len());
    } else {
        lemma_listing_offset_shift(g, k - 1);
        assert(g.skip(1)[k - 2] == g[k - 1]);
        assert(listing_offset(g, k) == listing_offset(g, k - 1) + member_line(g[k - 1]).len());
        assert(listing_offset(g.skip(1), k - 1) == listing_offset(g.skip(1), k - 2)
            + member_line(g.skip(1)[k - 2]).len());
    }
}

/// The listing lists every member, in input order: member `k`'s line
/// stands at its offset, exactly `- name: phone_number` with its
/// newline, and the offsets grow strictly with `k`, so no member is
/// omitted and none is moved out of order.
pub proof fn lemma_listing_lines_in_order(g: Seq<UserView>, k: int)
    requires
        0 <= k < g.len(),
    ensures
        0 <= listing_offset(g, k),
        listing_offset(g, k) + member_line(g[k]).len() <= spec_list_of_individuals(g).len(),
        spec_list_of_individuals(g).subrange(
            listing_offset(g, k),
            listing_offset(g, k) + member_line(g[k]).len(),
        ) == member_line(g[k]),
        listing_offset(g, k) < listing_offset(g, k + 1),
    decreases k,
{
    let s = spec_list_of_individuals(g);
    let l0 = member_line(g[0]);
    let rest = spec_list_of_individuals(g.skip(1));
    assert(s.subrange(0, s.len() as int) =~= s);
    crate::laws::lemma_region_split(s, 0, l0, rest);
    reveal_strlit("- ");
    reveal_strlit(": ");
    reveal_strlit("\n");
    if k == 0 {
        assert(member_line(g[k]).len() > 0);
    } else {
        lemma_listing_lines_in_order(g.skip(1), k - 1);
        lemma_listing_offset_shift(g, k);
        lemma_listing_offset_shift(g, k + 1);
        assert(g.skip(1)[k - 1] == g[k]);
        let off1 = listing_offset(g.skip(1), k - 1);
        let line = member_line(g[k]);
        crate::laws::lemma_region_subrange(s, l0.len() as int, rest, off1, off1 + line.len());
        assert(rest.subrange(off1, off1 + line.len()) == line);
        assert(listing_offset(g, k) == l0.len() + off1);
    }
}

/// Render the group listing, one `- name: phone_number` line per member,
/// in the order the group came in, nobody omitted.
pub fn build_list_of_individuals(group: &Vec<User>) -> (r: String)
    ensures
        r@ == spec_list_of_individuals(users_view(group@)),
{
    let ghost gv = users_view(group@);
    let mut out = String::new();
    proof {
        assert(gv.skip(0) =~= gv);
        assert(Seq::<char>::empty() + spec_list_of_individuals(gv) =~= spec_list_of_individuals(
            gv,
        ));
    }
    let mut k: usize = 0;
    while k < group.len()
        invariant
            k <= group.len(),
            gv == users_view(group@),
            gv.len() == group@.len(),
            out@ + spec_list_of_individuals(gv.skip(k as int)) == spec_list_of_individuals(gv),
        decreases group.len() - k,
    {
        let ghost pre = out@;
        proof {
            assert(gv.skip(k as int).len() > 0);
            assert(gv.skip(k as int)[0] == gv[k as int]);
            assert(gv[k as int] == group@[k as int]@);
            assert(gv.skip(k as int).skip(1) =~= gv.skip(k as int + 1));
        }
        out.append("- ");
        out.append(group[k].name.as_str());
        out.append(": ");
        out.append(group[k].phone_number.as_str());
        out.append("\n");
        proof {
            assert(out@ =~= pre + member_line(gv[k as int]));
            assert(pre + member_line(gv[k as int]) + spec_list_of_individuals(
                gv.skip(k as int + 1),
            ) =~= pre + spec_list_of_individuals(gv.skip(k as int)));
        }
        k += 1;
    }
    proof {
        assert(gv.skip(gv.len() as int).len() == 0);
        assert(out@ + Seq::<char>::empty() =~= out@);
    }
    out
}

/// The body of a match-found email.
pub open spec fn match_body(
    name: Seq<char>,
    ft_start: Seq<char>,
    ft_end: Seq<char>,
    listing: Seq<char>,
) -> Seq<char> {
    "Dear "@ + name + ",\n    You have been matched for a ride in a time range from "@ + ft_start
        + " to "@ + ft_end + " with the following individuals:\n\n        "@ + listing
        + "\n    \n    Please check the app for more details. You may have received an earlier email. This email is to indicate one/more persons have now joined the group.\n    \n    Best,\n    BlueRide"@
}

/// The body of a match-canceled email.
pub open spec fn cancel_body(
    name: Seq<char>,
    ft_start: Seq<char>,
    ft_end: Seq<char>,
    listing: Seq<char>,
    reason: Seq<char>,
) -> Seq<char> {
    "Dear "@ + name + ",\n    Your matched ride in the time range from "@ + ft_start + " to "@
        + ft_end
        + " with the following individuals has changed due to a user leaving:\n\n        "@
        + listing + "\n\n    Reason: "@ + reason + "\n    \n    Best,\n    BlueRide"@
}

/// The body of an authentication-code email.
pub open spec fn auth_body(name: Seq<char>, token: Seq<char>, eov: Instant) -> Seq<char> {
    "Dear "@ + name + ",\n        \n        Your authentication code is "@ + token
        + ". It is valid until "@ + utc_display(eov)
        + ".\n        \n        Best,\n        BlueRide"@
}

/// Both addresses of an email to this user parse as mailboxes; the one
/// condition under which composing succeeds.
pub open spec fn compose_ok(u: UserView) -> bool {
    mailbox_accepts(sender()) && mailbox_accepts(recipient(u))
}

/// Build the `from` and `to` address pair, or the build failure when
/// either does not parse.
fn build_addresses(target: &User) -> (r: Result<(String, String), ErrorKind>)
    ensures
        match r {
            Ok((from, to)) => compose_ok(target@) && from@ == sender() && to@ == recipient(
                target@,
            ),
            Err(k) => k == ErrorKind::TemplateBuildFailure && !compose_ok(target@),
        },
{
    let from = String::from_str("BlueRide <blueride@hackduke.org>");
    let mut to = String::new();
    to.append(target.name.as_str());
    to.append(" <");
    to.append(target.email.as_str());
    to.append(">");
    proof {
        assert(to@ =~= recipient(target@));
    }
    if !mailbox_ok(from.as_str()) {
        return Err(ErrorKind::TemplateBuildFailure);
    }
    if !mailbox_ok(to.as_str()) {
        return Err(ErrorKind::TemplateBuildFailure);
    }
    Ok((from, to))
}

/// Compose the match-found email for one target user.
pub fn build_match_email(data: &GroupContext, target: &User) -> (r: Result<Email, ErrorKind>)
    requires
        wf_instant(data.datetime_start),
        wf_instant(data.datetime_end),
    ensures
        match r {
            Ok(em) => compose_ok(target@) && em@.from == sender() && em@.to == recipient(target@)
                && em@.subject == "BlueRide Match Found"@ && em@.body == match_body(
                target@.name,
                eastern_display(data.datetime_start),
                eastern_display(data.datetime_end),
                spec_list_of_individuals(data@.group),
            ),
            Err(k) => k == ErrorKind::TemplateBuildFailure && !compose_ok(target@),
        },
{
    let (from, to) = match build_addresses(target) {
        Ok(p) => p,
        Err(k) => {
            return Err(k);
        },
    };
    let ft_start = format_eastern(&data.datetime_start);
    let ft_end = format_eastern(&data.datetime_end);
    let listing = build_list_of_individuals(&data.group);
    let mut body = String::new();
    body.append("Dear ");
    body.append(target.name.as_str());
    body.append(",\n    You have been matched for a ride in a time range from ");
    body.append(ft_start.as_str());
    body.append(" to ");
    body.append(ft_end.as_str());
    body.append(" with the following individuals:\n\n        ");
    body.append(listing.as_str());
    body.append(
        "\n    \n    Please check the app for more details. You may have received an earlier email. This email is to indicate one/more persons have now joined the group.\n    \n    Best,\n    BlueRide",
    );
    proof {
        assert(body@ =~= match_body(
            target@.name,
            eastern_display(data.datetime_start),
            eastern_display(data.datetime_end),
            spec_list_of_individuals(data@.group),
        ));
    }
    let subject = String::from_str("BlueRide Match Found");
    Ok(Email { from, to, subject, body })
}

/// Compose the match-canceled email for one target user.
pub fn build_cancel_email(data: &GroupContext, target: &User, reason: &String) -> (r: Result<
    Email,
    ErrorKind,
>)
    requires
        wf_instant(data.datetime_start),
        wf_instant(data.datetime_end),
    ensures
        match r {
            Ok(em) => compose_ok(target@) && em@.from == sender() && em@.to == recipient(target@)
                && em@.subject == "A user has left your BlueRide match."@ && em@.body
                == cancel_body(
                target@.name,
                eastern_display(data.datetime_start),
                eastern_display(data.datetime_end),
                spec_list_of_individuals(data@.group),
                reason@,
            ),
            Err(k) => k == ErrorKind::TemplateBuildFailure && !compose_ok(target@),
        },
{
    let (from, to) = match build_addresses(target) {
        Ok(p) => p,
        Err(k) => {
            return Err(k);
        },
    };
    let ft_start = format_eastern(&data.datetime_start);
    let ft_end = format_eastern(&data.datetime_end);
    let listing = build_list_of_individuals(&data.group);
    let mut body = String::new();
    body.append("Dear ");
    body.append(target.name.as_str());
    body.append(",\n    Your matched ride in the time range from ");
    body.append(ft_start.as_str());
    body.append(" to ");
    body.append(ft_end.as_str());
    body.append(" with the following individuals has changed due to a user leaving:\n\n        ");
    body.append(listing.as_str());
    body.append("\n\n    Reason: ");
    body.append(reason.as_str());
    body.append("\n    \n    Best,\n    BlueRide");
    proof {
        assert(body@ =~= cancel_body(
            target@.name,
            eastern_display(data.datetime_start),
            eastern_display(data.datetime_end),
            spec_list_of_individuals(data@.group),
            reason@,
        ));
    }
    let subject = String::from_str("A user has left your BlueRide match.");
    Ok(Email { from, to, subject, body })
}

/// Compose the authentication-code email for one target user.
pub fn build_auth_email(token: &String, eov: &Instant, target: &User) -> (r: Result<
    Email,
    ErrorKind,
>)
    requires
        wf_instant(*eov),
    ensures
        match r {
            Ok(em) => compose_ok(target@) && em@.from == sender() && em@.to == recipient(target@)
                && em@.subject == "BlueRide Login Token"@ && em@.body == auth_body(
                target@.name,
                token@,
                *eov,
            ),
            Err(k) => k == ErrorKind::TemplateBuildFailure && !compose_ok(target@),
        },
{
    let (from, to) = match build_addresses(target) {
        Ok(p) => p,
        Err(k) => {
            return Err(k);
        },
    };
    let valid_until = display_utc(eov);
    let mut body = String::new();
    body.append("Dear ");
    body.append(target.name.as_str());
    body.append(",\n        \n        Your authentication code is ");
    body.append(token.as_str());
    body.append(". It is valid until ");
    body.append(valid_until.as_str());
    body.append(".\n        \n        Best,\n        BlueRide");
    proof {
        assert(body@ =~= auth_body(target@.name, token@, *eov));
    }
    let subject = String::from_str("BlueRide Login Token");
    Ok(Email { from, to, subject, body })
}

/// The email that a well-formed envelope composes to, as a function of
/// the envelope alone.
pub open spec fn spec_compose(v: EnvelopeView) -> EmailView {
    match v.payload {
        PurposeView::Matched { data } => EmailView {
            from: sender(),
            to: recipient(v.target_user),
            subject: "BlueRide Match Found"@,
            body: match_body(
                v.target_user.name,
                eastern_display(data.datetime_start),
                eastern_display(data.datetime_end),
                spec_list_of_individuals(data.group),
            ),
        },
        PurposeView::Canceled { data, reason } => EmailView {
            from: sender(),
            to: recipient(v.target_user),
            subject: "A user has left your BlueRide match."@,
            body: cancel_body(
                v.target_user.name,
                eastern_display(data.datetime_start),
                eastern_display(data.datetime_end),
                spec_list_of_individuals(data.group),
                reason,
            ),
        },
        PurposeView::AuthToken { token, eov } => EmailView {
            from: sender(),
            to: recipient(v.target_user),
            subject: "BlueRide Login Token"@,
            body: auth_body(v.target_user.name, token, eov),
        },
    }
}

/// Idempotence of composition: the composed email is a function of the
/// envelope alone, so building the same envelope twice yields
/// byte-identical addresses, subject and body.
pub proof fn lemma_compose_idempotent(v: EnvelopeView, e1: EmailView, e2: EmailView)
    requires
        e1 == spec_compose(v),
        e2 == spec_compose(v),
    ensures
        e1.from == e2.from,
        e1.to == e2.to,
        e1.subject == e2.subject,
        e1.body == e2.body,
{
}

/// Route one envelope to its composer.
///
/// The composed email is a function of the envelope alone, so composing
/// the same envelope twice yields byte-identical subjects and bodies.
/// Success depends on nothing but the two addresses parsing.
pub fn build_email(envelope: &NotificationEnvelope) -> (r: Result<Email, ErrorKind>)
    requires
        wf_envelope(envelope@),
    ensures
        match r {
            Ok(em) => compose_ok(envelope@.target_user) && em@ == spec_compose(envelope@),
            Err(k) => k == ErrorKind::TemplateBuildFailure && !compose_ok(envelope@.target_user),
        },
{
    match &envelope.payload {
        NotificationPurpose::Matched { data } => build_match_email(data, &envelope.target_user),
        NotificationPurpose::Canceled { data, reason } => build_cancel_email(
            data,
            &envelope.target_user,
            reason,
        ),
        NotificationPurpose::AuthToken { token, eov } => build_auth_email(
            token,
            eov,
            &envelope.target_user,
        ),
    }
}

} // verus!
