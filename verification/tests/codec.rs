use blueride_notify::decode::decode_envelope;
use blueride_notify::dispatch::ErrorKind;
use blueride_notify::encode::encode_envelope;
use blueride_notify::envelope::{
    GroupContext, NotificationChannel, NotificationEnvelope, NotificationPurpose, User,
};
use blueride_notify::instant::Instant;

fn user(name: &str, email: &str, phone: &str, apn: &str) -> User {
    User {
        name: String::from(name),
        email: String::from(email),
        phone_number: String::from(phone),
        apn_token: String::from(apn),
    }
}

fn instant(year: u16, month: u8, day: u8, hour: u8, minute: u8, second: u8) -> Instant {
    Instant { year, month, day, hour, minute, second }
}

fn sample_matched() -> NotificationEnvelope {
    NotificationEnvelope {
        target_user: user("Ana", "ana@x.com", "555-0100", "apn-a"),
        channels: vec![NotificationChannel::Email, NotificationChannel::PushNotification],
        payload: NotificationPurpose::Matched {
            data: GroupContext {
                match_id: String::from("m-42"),
                group: vec![
                    user("Ana", "ana@x.com", "555-0100", "apn-a"),
                    user("Bob", "bob@x.com", "555-0200", "apn-b"),
                ],
                datetime_start: instant(2025, 1, 1, 0, 0, 0),
                datetime_end: instant(2025, 1, 1, 1, 30, 0),
            },
        },
        trace_id: Some(String::from("trace-7")),
    }
}

#[test]
fn encode_matched_is_exact() {
    let e = sample_matched();
    let s = encode_envelope(&e);
    assert_eq!(
        s,
        "{\"target_user\":{\"name\":\"Ana\",\"email\":\"ana@x.com\",\"phone_number\":\"555-0100\",\"apn_token\":\"apn-a\"},\"channels\":[\"Email\",\"APN\"],\"payload\":{\"type\":\"Matched\",\"data\":{\"match_id\":\"m-42\",\"group\":[{\"name\":\"Ana\",\"email\":\"ana@x.com\",\"phone_number\":\"555-0100\",\"apn_token\":\"apn-a\"},{\"name\":\"Bob\",\"email\":\"bob@x.com\",\"phone_number\":\"555-0200\",\"apn_token\":\"apn-b\"}],\"datetime_start\":\"2025-01-01T00:00:00Z\",\"datetime_end\":\"2025-01-01T01:30:00Z\"}},\"trace_id\":\"trace-7\"}"
    );
}

fn assert_envelopes_equal(a: &NotificationEnvelope, b: &NotificationEnvelope) {
    assert_eq!(a.target_user.name, b.target_user.name);
    assert_eq!(a.target_user.email, b.target_user.email);
    assert_eq!(a.target_user.phone_number, b.target_user.phone_number);
    assert_eq!(a.target_user.apn_token, b.target_user.apn_token);
    assert_eq!(a.channels.len(), b.channels.len());
    for (x, y) in a.channels.iter().zip(b.channels.iter()) {
        assert_eq!(x, y);
    }
    assert_eq!(a.trace_id, b.trace_id);
    match (&a.payload, &b.payload) {
        (
            NotificationPurpose::Matched { data: da },
            NotificationPurpose::Matched { data: db },
        ) => assert_group_equal(da, db),
        (
            NotificationPurpose::Canceled { data: da, reason: ra },
            NotificationPurpose::Canceled { data: db, reason: rb },
        ) => {
            assert_group_equal(da, db);
            assert_eq!(ra, rb);
        }
        (
            NotificationPurpose::AuthToken { token: ta, eov: ea },
            NotificationPurpose::AuthToken { token: tb, eov: eb },
        ) => {
            assert_eq!(ta, tb);
            assert_eq!(ea, eb);
        }
        _ => panic!("payload variants differ"),
    }
}

fn assert_group_equal(a: &GroupContext, b: &GroupContext) {
    assert_eq!(a.match_id, b.match_id);
    assert_eq!(a.datetime_start, b.datetime_start);
    assert_eq!(a.datetime_end, b.datetime_end);
    assert_eq!(a.group.len(), b.group.len());
    for (x, y) in a.group.iter().zip(b.group.iter()) {
        assert_eq!(x.name, y.name);
        assert_eq!(x.email, y.email);
        assert_eq!(x.phone_number, y.phone_number);
        assert_eq!(x.apn_token, y.apn_token);
    }
}

#[test]
fn round_trip_matched() {
    let e = sample_matched();
    let s = encode_envelope(&e);
    let d = decode_envelope(&s).expect("encoding must decode");
    assert_envelopes_equal(&e, &d);
}

#[test]
fn round_trip_trace_id_absent() {
    let mut e = sample_matched();
    e.trace_id = None;
    let s = encode_envelope(&e);
    assert!(s.ends_with("\"trace_id\":null}"));
    let d = decode_envelope(&s).expect("encoding must decode");
    assert_eq!(d.trace_id, None);
    assert_envelopes_equal(&e, &d);
}

#[test]
fn round_trip_canceled_with_escapes() {
    let e = NotificationEnvelope {
        target_user: user("A \"quoted\" name", "a@x.com", "1", "t\\slash"),
        channels: vec![],
        payload: NotificationPurpose::Canceled {
            data: GroupContext {
                match_id: String::from("m"),
                group: vec![],
                datetime_start: instant(2024, 2, 29, 23, 59, 59),
                datetime_end: instant(2024, 3, 1, 0, 0, 0),
            },
            reason: String::from("driver \"left\" the \\ group"),
        },
        trace_id: None,
    };
    let s = encode_envelope(&e);
    let d = decode_envelope(&s).expect("encoding must decode");
    assert_envelopes_equal(&e, &d);
}

#[test]
fn round_trip_auth_token() {
    let e = NotificationEnvelope {
        target_user: user("Ana", "ana@x.com", "555", "tok"),
        channels: vec![NotificationChannel::Email],
        payload: NotificationPurpose::AuthToken {
            token: String::from("482913"),
            eov: instant(2025, 1, 1, 0, 0, 0),
        },
        trace_id: None,
    };
    let s = encode_envelope(&e);
    let d = decode_envelope(&s).expect("encoding must decode");
    assert_envelopes_equal(&e, &d);
}

#[test]
fn malformed_body_is_rejected() {
    let r = decode_envelope("{not json");
    assert_eq!(r.unwrap_err(), ErrorKind::MalformedPayload);
}

#[test]
fn missing_target_user_is_rejected() {
    let r = decode_envelope(
        "{\"channels\":[\"Email\"],\"payload\":{\"type\":\"AuthToken\",\"data\":{\"token\":\"1\",\"eov\":\"2025-01-01T00:00:00Z\"}},\"trace_id\":null}",
    );
    assert_eq!(r.unwrap_err(), ErrorKind::MalformedPayload);
}

#[test]
fn unknown_purpose_tag_is_rejected() {
    let r = decode_envelope(
        "{\"target_user\":{\"name\":\"A\",\"email\":\"a@x.com\",\"phone_number\":\"1\",\"apn_token\":\"t\"},\"channels\":[],\"payload\":{\"type\":\"Bogus\",\"data\":{}},\"trace_id\":null}",
    );
    assert_eq!(r.unwrap_err(), ErrorKind::MalformedPayload);
}

#[test]
fn empty_body_is_rejected() {
    assert_eq!(decode_envelope("").unwrap_err(), ErrorKind::MalformedPayload);
}

#[test]
fn trailing_garbage_is_rejected() {
    let e = sample_matched();
    let mut s = encode_envelope(&e);
    s.push_str("  \n");
    assert!(decode_envelope(&s).is_ok(), "trailing whitespace is tolerated");
    s.push('x');
    assert_eq!(decode_envelope(&s).unwrap_err(), ErrorKind::MalformedPayload);
}

#[test]
fn invalid_calendar_date_is_rejected() {
    // The same body with a valid leap day decodes; with a nonexistent
    // February day it does not.
    let good = "{\"target_user\":{\"name\":\"A\",\"email\":\"a@x.com\",\"phone_number\":\"1\",\"apn_token\":\"t\"},\"channels\":[],\"payload\":{\"type\":\"AuthToken\",\"data\":{\"token\":\"1\",\"eov\":\"2024-02-29T12:00:00Z\"}},\"trace_id\":null}";
    assert!(decode_envelope(good).is_ok());
    let bad = good.replace("2024-02-29", "2025-02-29");
    assert_eq!(decode_envelope(&bad).unwrap_err(), ErrorKind::MalformedPayload);
}

#[test]
fn out_of_range_time_is_rejected() {
    let good = "{\"target_user\":{\"name\":\"A\",\"email\":\"a@x.com\",\"phone_number\":\"1\",\"apn_token\":\"t\"},\"channels\":[],\"payload\":{\"type\":\"AuthToken\",\"data\":{\"token\":\"1\",\"eov\":\"2024-02-29T12:00:00Z\"}},\"trace_id\":null}";
    let bad = good.replace("T12:00:00Z", "T24:00:00Z");
    assert_eq!(decode_envelope(&bad).unwrap_err(), ErrorKind::MalformedPayload);
}

#[test]
fn bad_escape_is_rejected() {
    let e = sample_matched();
    let s = encode_envelope(&e).replace("Ana", "A\\xa");
    assert_eq!(decode_envelope(&s).unwrap_err(), ErrorKind::MalformedPayload);
}

#[test]
fn whitespace_between_tokens_is_accepted() {
    let body = "{ \"target_user\": { \"name\": \"Ana\", \"email\": \"ana@x.com\",\n  \"phone_number\": \"555\", \"apn_token\": \"t\" },\n \"channels\": [ \"Email\", \"APN\" ],\n \"payload\": { \"type\": \"AuthToken\", \"data\": { \"token\": \"482913\", \"eov\": \"2025-01-01T00:00:00Z\" } },\n \"trace_id\": null }\n";
    let e = decode_envelope(body).expect("spaced body must decode");
    assert_eq!(e.target_user.name, "Ana");
    assert_eq!(e.channels.len(), 2);
}

#[test]
fn json_escape_set_is_accepted() {
    let body = "{\"target_user\":{\"name\":\"A\\nB\\t\\/\\\\\",\"email\":\"a@x.com\",\"phone_number\":\"1\",\"apn_token\":\"t\"},\"channels\":[],\"payload\":{\"type\":\"AuthToken\",\"data\":{\"token\":\"1\",\"eov\":\"2025-01-01T00:00:00Z\"}},\"trace_id\":null}";
    let e = decode_envelope(body).expect("escaped body must decode");
    assert_eq!(e.target_user.name, "A\nB\t/\\");
}

#[test]
fn missing_trace_id_reads_as_none() {
    let body = "{\"target_user\":{\"name\":\"A\",\"email\":\"a@x.com\",\"phone_number\":\"1\",\"apn_token\":\"t\"},\"channels\":[],\"payload\":{\"type\":\"AuthToken\",\"data\":{\"token\":\"1\",\"eov\":\"2025-01-01T00:00:00Z\"}}}";
    let e = decode_envelope(body).expect("body without trace_id must decode");
    assert_eq!(e.trace_id, None);
}

#[test]
fn rfc3339_zero_offset_and_fraction_are_accepted() {
    let base = "{\"target_user\":{\"name\":\"A\",\"email\":\"a@x.com\",\"phone_number\":\"1\",\"apn_token\":\"t\"},\"channels\":[],\"payload\":{\"type\":\"AuthToken\",\"data\":{\"token\":\"1\",\"eov\":\"EOV\"}},\"trace_id\":null}";
    for eov in ["2025-01-01T00:00:00+00:00", "2025-01-01T00:00:00.123456Z", "2025-01-01t00:00:00z"] {
        let body = base.replace("EOV", eov);
        let e = decode_envelope(&body).expect("rfc3339 variant must decode");
        match e.payload {
            blueride_notify::envelope::NotificationPurpose::AuthToken { eov, .. } => {
                assert_eq!(eov, instant(2025, 1, 1, 0, 0, 0));
            }
            _ => panic!("wrong payload"),
        }
    }
}

#[test]
fn rfc3339_offsets_are_normalized_to_utc() {
    let base = "{\"target_user\":{\"name\":\"A\",\"email\":\"a@x.com\",\"phone_number\":\"1\",\"apn_token\":\"t\"},\"channels\":[],\"payload\":{\"type\":\"AuthToken\",\"data\":{\"token\":\"1\",\"eov\":\"EOV\"}},\"trace_id\":null}";
    let cases = [
        // one hour ahead of UTC: midnight local is the prior evening in UTC
        ("2025-01-01T00:30:00+01:00", instant(2024, 12, 31, 23, 30, 0)),
        ("2024-03-01T00:00:00+01:00", instant(2024, 2, 29, 23, 0, 0)),
        ("2025-12-31T23:30:00-05:00", instant(2026, 1, 1, 4, 30, 0)),
        ("2025-06-15T12:00:00-04:30", instant(2025, 6, 15, 16, 30, 0)),
    ];
    for (eov_text, expected) in cases {
        let body = base.replace("EOV", eov_text);
        let e = decode_envelope(&body).expect("offset instant must decode");
        match e.payload {
            blueride_notify::envelope::NotificationPurpose::AuthToken { eov, .. } => {
                assert_eq!(eov, expected);
            }
            _ => panic!("wrong payload"),
        }
    }
}

#[test]
fn reordered_or_unknown_fields_are_rejected() {
    // the decoder holds producers to the documented field order and set
    let reordered = "{\"channels\":[],\"target_user\":{\"name\":\"A\",\"email\":\"a@x.com\",\"phone_number\":\"1\",\"apn_token\":\"t\"},\"payload\":{\"type\":\"AuthToken\",\"data\":{\"token\":\"1\",\"eov\":\"2025-01-01T00:00:00Z\"}},\"trace_id\":null}";
    assert_eq!(decode_envelope(reordered).unwrap_err(), ErrorKind::MalformedPayload);
}
