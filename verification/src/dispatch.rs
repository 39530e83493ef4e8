//! Outcome classification and queue acknowledgment policy.
//!
//! One inbound delivery ends in exactly one of three acknowledgment
//! actions: accepted, permanently rejected, or requeued after a fixed
//! cooldown. The mapping from a dispatch outcome to that action is the
//! whole policy; the surrounding binary only carries it out.

use vstd::prelude::*;

verus! {

use crate::compose::{build_email, compose_ok, spec_compose, Email};
use crate::decode::decode_envelope;
use crate::laws::lemma_decode_wf;
use crate::wire::spec_decode;

/// Classification of a failed dispatch attempt. Every failure path of
/// decoding, composing or sending falls into exactly one of these kinds.
#[derive(Clone, Copy, Debug, PartialEq, Eq, Structural)]
pub enum ErrorKind {
    /// The message body does not decode into an envelope.
    MalformedPayload,
    /// An email could not be built from the envelope (bad address).
    TemplateBuildFailure,
    /// The mail transport refused or failed the send attempt.
    TransportUnavailable,
}

/// What the queue is told about one delivery, exactly once.
#[derive(Clone, Copy, Debug, PartialEq, Eq, Structural)]
pub enum AckAction {
    /// The message is done and will not be redelivered.
    Accept,
    /// The message is discarded and never redelivered.
    Reject,
    /// The message is returned to the queue for redelivery, after the
    /// fixed cooldown of `REQUEUE_DELAY_SECS` seconds.
    Requeue,
}

/// Cooldown, in seconds, before a `Requeue` is sent back to the queue.
pub const REQUEUE_DELAY_SECS: u64 = 10;

/// The acknowledgment policy as a mathematical function.
pub open spec fn spec_ack_action(outcome: Result<(), ErrorKind>) -> AckAction {
    match outcome {
        Ok(_) => AckAction::Accept,
        Err(ErrorKind::MalformedPayload) => AckAction::Reject,
        Err(ErrorKind::TemplateBuildFailure) => AckAction::Reject,
        Err(ErrorKind::TransportUnavailable) => AckAction::Requeue,
    }
}

/// Decide the acknowledgment action for one delivery outcome.
///
/// A success is always accepted; a malformed payload or a failed email
/// build can never be fixed by redelivery, so they are rejected for good;
/// only a transport failure is retried, and then always by requeue, never
/// by rejection.
pub fn ack_action(outcome: &Result<(), ErrorKind>) -> (r: AckAction)
    ensures
        r == spec_ack_action(*outcome),
        (r == AckAction::Accept) <==> (*outcome is Ok),
        (r == AckAction::Requeue) <==> (*outcome == Err::<(), ErrorKind>(
            ErrorKind::TransportUnavailable,
        )),
{
    match outcome {
        Ok(_) => AckAction::Accept,
        Err(ErrorKind::MalformedPayload) => AckAction::Reject,
        Err(ErrorKind::TemplateBuildFailure) => AckAction::Reject,
        Err(ErrorKind::TransportUnavailable) => AckAction::Requeue,
    }
}

/// Decode one raw message body and compose its email: the pure half of
/// handling one delivery. All that remains for the caller is the send
/// itself, its classification, and the acknowledgment.
///
/// Success is owed exactly when the body is a well-formed envelope
/// encoding and both mail addresses parse; each error kind names the one
/// condition under which it is returned, and a transport failure can
/// never come from this half.
pub fn prepare_delivery(body: &str) -> (r: Result<Email, ErrorKind>)
    ensures
        match r {
            Ok(em) => spec_decode(body@) matches Some(v) && compose_ok(v.target_user) && em@
                == spec_compose(v),
            Err(k) => match k {
                ErrorKind::MalformedPayload => spec_decode(body@) is None,
                ErrorKind::TemplateBuildFailure => spec_decode(body@) matches Some(v)
                    && !compose_ok(v.target_user),
                ErrorKind::TransportUnavailable => false,
            },
        },
{
    let envelope = match decode_envelope(body) {
        Ok(e) => e,
        Err(k) => {
            return Err(k);
        },
    };
    proof {
        lemma_decode_wf(body@);
    }
    build_email(&envelope)
}

/// Classify the result of one send attempt: the transport either accepted
/// the message or it did not, and any refusal counts as the transport
/// being unavailable.
pub fn classify_send(accepted: bool) -> (r: Result<(), ErrorKind>)
    ensures
        accepted <==> (r is Ok),
        !accepted ==> r == Err::<(), ErrorKind>(ErrorKind::TransportUnavailable),
{
    if accepted {
        Ok(())
    } else {
        Err(ErrorKind::TransportUnavailable)
    }
}

} // verus!
