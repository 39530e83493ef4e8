//! The notification envelope: the decoded, typed form of one inbound
//! queue message, together with the mathematical views the contracts
//! speak of.

use vstd::prelude::*;
use crate::instant::{Instant, wf_instant};

verus! {

/// A notification recipient.
#[derive(Debug)]
pub struct User {
    pub name: String,
    pub email: String,
    pub phone_number: String,
    pub apn_token: String,
}

/// The view of a [`User`]: its fields as character sequences.
pub struct UserView {
    pub name: Seq<char>,
    pub email: Seq<char>,
    pub phone_number: Seq<char>,
    pub apn_token: Seq<char>,
}

impl View for User {
    type V = UserView;

    open spec fn view(&self) -> UserView {
        UserView {
            name: self.name@,
            email: self.email@,
            phone_number: self.phone_number@,
            apn_token: self.apn_token@,
        }
    }
}

/// The views of a sequence of users, element-wise.
pub open spec fn users_view(l: Seq<User>) -> Seq<UserView> {
    l.map_values(|u: User| u@)
}

/// A delivery channel requested by the producer. Only the email channel
/// is acted upon; a push notification is accepted but not dispatched.
#[derive(Clone, Copy, Debug, PartialEq, Eq, Structural)]
pub enum NotificationChannel {
    Email,
    PushNotification,
}

/// The ride-matching group a `Matched` or `Canceled` notification is
/// about.
#[derive(Debug)]
pub struct GroupContext {
    pub match_id: String,
    pub group: Vec<User>,
    pub datetime_start: Instant,
    pub datetime_end: Instant,
}

/// The view of a [`GroupContext`].
pub struct GroupContextView {
    pub match_id: Seq<char>,
    pub group: Seq<UserView>,
    pub datetime_start: Instant,
    pub datetime_end: Instant,
}

impl View for GroupContext {
    type V = GroupContextView;

    open spec fn view(&self) -> GroupContextView {
        GroupContextView {
            match_id: self.match_id@,
            group: users_view(self.group@),
            datetime_start: self.datetime_start,
            datetime_end: self.datetime_end,
        }
    }
}

/// What the notification is for; selects the email that gets composed.
#[derive(Debug)]
pub enum NotificationPurpose {
    Matched { data: GroupContext },
    Canceled { data: GroupContext, reason: String },
    AuthToken { token: String, eov: Instant },
}

/// The view of a [`NotificationPurpose`].
pub enum PurposeView {
    Matched { data: GroupContextView },
    Canceled { data: GroupContextView, reason: Seq<char> },
    AuthToken { token: Seq<char>, eov: Instant },
}

impl View for NotificationPurpose {
    type V = PurposeView;

    open spec fn view(&self) -> PurposeView {
        match self {
            NotificationPurpose::Matched { data } => PurposeView::Matched { data: data@ },
            NotificationPurpose::Canceled { data, reason } => PurposeView::Canceled {
                data: data@,
                reason: reason@,
            },
            NotificationPurpose::AuthToken { token, eov } => PurposeView::AuthToken {
                token: token@,
                eov: *eov,
            },
        }
    }
}

/// One fully decoded unit of work.
#[derive(Debug)]
pub struct NotificationEnvelope {
    pub target_user: User,
    pub channels: Vec<NotificationChannel>,
    pub payload: NotificationPurpose,
    pub trace_id: Option<String>,
}

/// The view of a [`NotificationEnvelope`].
pub struct EnvelopeView {
    pub target_user: UserView,
    pub channels: Seq<NotificationChannel>,
    pub payload: PurposeView,
    pub trace_id: Option<Seq<char>>,
}

impl View for NotificationEnvelope {
    type V = EnvelopeView;

    open spec fn view(&self) -> EnvelopeView {
        EnvelopeView {
            target_user: self.target_user@,
            channels: self.channels@,
            payload: self.payload@,
            trace_id: match self.trace_id {
                Some(t) => Some(t@),
                None => None,
            },
        }
    }
}

/// Every instant an envelope carries is a valid calendar instant.
pub open spec fn wf_purpose(p: PurposeView) -> bool {
    match p {
        PurposeView::Matched { data } => wf_instant(data.datetime_start) && wf_instant(
            data.datetime_end,
        ),
        PurposeView::Canceled { data, .. } => wf_instant(data.datetime_start) && wf_instant(
            data.datetime_end,
        ),
        PurposeView::AuthToken { eov, .. } => wf_instant(eov),
    }
}

/// Well-formedness of a decoded envelope.
pub open spec fn wf_envelope(v: EnvelopeView) -> bool {
    wf_purpose(v.payload)
}

} // verus!
