use blueride_notify::compose::{build_email, build_list_of_individuals, build_match_email};
use blueride_notify::dispatch::{
    ack_action, classify_send, prepare_delivery, AckAction, ErrorKind, REQUEUE_DELAY_SECS,
};
use blueride_notify::envelope::{
    GroupContext, NotificationChannel, NotificationEnvelope, NotificationPurpose, User,
};
use blueride_notify::instant::Instant;

fn user(name: &str, email: &str, phone: &str, apn: &str) -> User {
    User {
        name: String::from(name),
        email: String::from(email),
        phone_number: String::from(phone),
        apn_token: String::from(apn),
    }
}

fn instant(year: u16, month: u8, day: u8, hour: u8, minute: u8, second: u8) -> Instant {
    Instant { year, month, day, hour, minute, second }
}

fn group() -> GroupContext {
    GroupContext {
        match_id: String::from("m-1"),
        group: vec![
            user("Ana", "ana@x.com", "555-0100", "a"),
            user("Bob", "bob@x.com", "555-0200", "b"),
            user("Cyd", "cyd@x.com", "555-0300", "c"),
        ],
        datetime_start: instant(2025, 1, 1, 0, 0, 0),
        datetime_end: instant(2025, 1, 1, 1, 0, 0),
    }
}

// ----- acknowledgment policy -----

#[test]
fn success_is_accepted() {
    assert_eq!(ack_action(&Ok(())), AckAction::Accept);
}

#[test]
fn malformed_payload_is_rejected_for_good() {
    assert_eq!(ack_action(&Err(ErrorKind::MalformedPayload)), AckAction::Reject);
}

#[test]
fn build_failure_is_rejected_for_good() {
    assert_eq!(ack_action(&Err(ErrorKind::TemplateBuildFailure)), AckAction::Reject);
}

#[test]
fn transport_failure_is_requeued_never_rejected() {
    let a = ack_action(&Err(ErrorKind::TransportUnavailable));
    assert_eq!(a, AckAction::Requeue);
    assert_ne!(a, AckAction::Reject);
    assert_eq!(REQUEUE_DELAY_SECS, 10);
}

#[test]
fn send_outcome_classification() {
    assert_eq!(classify_send(true), Ok(()));
    assert_eq!(classify_send(false), Err(ErrorKind::TransportUnavailable));
}

// ----- the listing -----

#[test]
fn listing_lists_every_member_in_order() {
    let g = group();
    let listing = build_list_of_individuals(&g.group);
    assert_eq!(listing, "- Ana: 555-0100\n- Bob: 555-0200\n- Cyd: 555-0300\n");
}

#[test]
fn listing_of_empty_group_is_empty() {
    let listing = build_list_of_individuals(&Vec::new());
    assert_eq!(listing, "");
}

// ----- composing -----

#[test]
fn match_email_lists_members_and_eastern_times() {
    let g = group();
    let target = user("Ana", "ana@x.com", "555-0100", "a");
    let em = build_match_email(&g, &target).expect("addresses parse");
    assert_eq!(em.from, "BlueRide <blueride@hackduke.org>");
    assert_eq!(em.to, "Ana <ana@x.com>");
    assert_eq!(em.subject, "BlueRide Match Found");
    assert!(em.body.starts_with("Dear Ana,"));
    // every member's line, in input order, the target included
    assert!(em.body.contains("- Ana: 555-0100\n- Bob: 555-0200\n- Cyd: 555-0300\n"));
    // midnight UTC on New Year's Day is the previous evening in Eastern time
    assert!(em.body.contains("31/12/2024 07:00pm EST"));
    assert!(em.body.contains("31/12/2024 08:00pm EST"));
}

#[test]
fn composing_twice_is_byte_identical() {
    let target = user("Ana", "ana@x.com", "555-0100", "a");
    let e1 = build_match_email(&group(), &target).expect("addresses parse");
    let e2 = build_match_email(&group(), &target).expect("addresses parse");
    assert_eq!(e1.subject.as_bytes(), e2.subject.as_bytes());
    assert_eq!(e1.body.as_bytes(), e2.body.as_bytes());
    assert_eq!(e1.from, e2.from);
    assert_eq!(e1.to, e2.to);
}

#[test]
fn unparseable_address_is_a_build_failure() {
    let g = group();
    let target = user("Ana", "not an address", "555-0100", "a");
    let r = build_match_email(&g, &target);
    assert_eq!(r.unwrap_err(), ErrorKind::TemplateBuildFailure);
}

#[test]
fn cancel_email_carries_reason() {
    let e = NotificationEnvelope {
        target_user: user("Ana", "ana@x.com", "555-0100", "a"),
        channels: vec![NotificationChannel::Email],
        payload: NotificationPurpose::Canceled {
            data: group(),
            reason: String::from("a rider left"),
        },
        trace_id: None,
    };
    let em = build_email(&e).expect("addresses parse");
    assert_eq!(em.subject, "A user has left your BlueRide match.");
    assert!(em.body.contains("Reason: a rider left"));
    assert!(em.body.contains("- Ana: 555-0100\n- Bob: 555-0200\n- Cyd: 555-0300\n"));
}

// ----- whole-delivery scenarios -----

#[test]
fn auth_token_scenario_is_accepted() {
    let body = "{\"target_user\":{\"name\":\"Ana\",\"email\":\"ana@x.com\",\"phone_number\":\"555\",\"apn_token\":\"t\"},\"channels\":[\"Email\"],\"payload\":{\"type\":\"AuthToken\",\"data\":{\"token\":\"482913\",\"eov\":\"2025-01-01T00:00:00Z\"}},\"trace_id\":null}";
    let em = prepare_delivery(body).expect("valid body composes");
    assert_eq!(em.subject, "BlueRide Login Token");
    assert!(em.body.contains("482913"));
    assert!(em.body.contains("2025-01-01 00:00:00 UTC"));
    // transport accepts: the delivery is accepted, whatever the purpose
    let outcome = classify_send(true);
    assert_eq!(ack_action(&outcome), AckAction::Accept);
}

#[test]
fn malformed_body_scenario_is_rejected_without_redelivery() {
    let r = prepare_delivery("{not json");
    let outcome = r.map(|_| ());
    assert_eq!(outcome, Err(ErrorKind::MalformedPayload));
    assert_eq!(ack_action(&outcome), AckAction::Reject);
}

#[test]
fn failing_transport_scenario_is_requeued_after_cooldown() {
    let body = "{\"target_user\":{\"name\":\"Ana\",\"email\":\"ana@x.com\",\"phone_number\":\"555\",\"apn_token\":\"t\"},\"channels\":[\"Email\"],\"payload\":{\"type\":\"Canceled\",\"data\":{\"match_id\":\"m\",\"group\":[{\"name\":\"Bob\",\"email\":\"bob@x.com\",\"phone_number\":\"1\",\"apn_token\":\"b\"}],\"datetime_start\":\"2025-01-01T00:00:00Z\",\"datetime_end\":\"2025-01-01T01:00:00Z\"},\"reason\":\"left\"},\"trace_id\":\"tr\"}";
    let em = prepare_delivery(body).expect("valid body composes");
    assert_eq!(em.subject, "A user has left your BlueRide match.");
    // the transport is simulated as always failing
    let outcome = classify_send(false);
    assert_eq!(outcome, Err(ErrorKind::TransportUnavailable));
    assert_eq!(ack_action(&outcome), AckAction::Requeue);
    assert_eq!(REQUEUE_DELAY_SECS, 10);
}

#[test]
fn success_is_accepted_for_every_purpose() {
    let target = "{\"name\":\"Ana\",\"email\":\"ana@x.com\",\"phone_number\":\"555\",\"apn_token\":\"t\"}";
    let gctx = "{\"match_id\":\"m\",\"group\":[],\"datetime_start\":\"2025-01-01T00:00:00Z\",\"datetime_end\":\"2025-01-01T01:00:00Z\"}";
    let bodies = [
        format!(
            "{{\"target_user\":{target},\"channels\":[\"Email\"],\"payload\":{{\"type\":\"Matched\",\"data\":{gctx}}},\"trace_id\":null}}"
        ),
        format!(
            "{{\"target_user\":{target},\"channels\":[\"Email\"],\"payload\":{{\"type\":\"Canceled\",\"data\":{gctx},\"reason\":\"r\"}},\"trace_id\":null}}"
        ),
        format!(
            "{{\"target_user\":{target},\"channels\":[\"APN\"],\"payload\":{{\"type\":\"AuthToken\",\"data\":{{\"token\":\"1\",\"eov\":\"2025-01-01T00:00:00Z\"}}}},\"trace_id\":null}}"
        ),
    ];
    for body in bodies.iter() {
        let em = prepare_delivery(body);
        assert!(em.is_ok());
        assert_eq!(ack_action(&classify_send(true)), AckAction::Accept);
    }
}
