use ctf_sniper::ctfd::{
    brief_to_json, briefs_envelope_to_json, challenge_to_json, decode_briefs, decode_challenge,
    decode_submit, envelope_to_json, failure_to_json, submit_result_to_json, ApiResponse,
    Challenge, ChallengeBrief, CtfdError, SubmitResult,
};
use ctf_sniper::json::{parse_json, render_json, JsonValue};

fn brief(name: &str, id: i32) -> ChallengeBrief {
    ChallengeBrief {
        name: name.to_owned(),
        id,
        category: "misc".to_owned(),
        value: 100,
        solved_by_me: false,
    }
}

#[test]
fn success_body_takes_envelope_path() {
    let body = "{\"success\":true,\"data\":[{\"name\":\"Web 1\",\"id\":3,\"category\":\"web\",\"value\":250,\"solved_by_me\":false}]}";
    let r = decode_briefs(body);
    let v = r.unwrap_or_else(|_| panic!("expected the envelope path"));
    assert_eq!(v.len(), 1);
    assert_eq!(v[0].name, "Web 1");
    assert_eq!(v[0].id, 3);
    assert_eq!(v[0].category, "web");
    assert_eq!(v[0].value, 250);
    assert!(!v[0].solved_by_me);
}

#[test]
fn message_body_takes_failure_path() {
    let body = "{\"message\":\"You are not allowed\"}";
    match decode_briefs(body) {
        Err(CtfdError::Api(e)) => {
            assert_eq!(e.message, "You are not allowed");
            assert_eq!(e.describe(), "Server returned message \"You are not allowed\"");
        }
        _ => panic!("expected the failure path"),
    }
}

#[test]
fn malformed_body_is_a_protocol_error() {
    assert!(matches!(decode_briefs("this is not json"), Err(CtfdError::Protocol)));
    assert!(matches!(decode_briefs("[1,2,3]"), Err(CtfdError::Protocol)));
    assert!(matches!(decode_briefs("{\"neither\":\"shape\"}"), Err(CtfdError::Protocol)));
}

#[test]
fn incomplete_envelope_falls_back_to_the_failure_shape() {
    // `success` without `data`: not the envelope shape, so the failure shape
    // is tried, and its `message` decides.
    let body = "{\"success\":true,\"message\":\"half an envelope\"}";
    match decode_briefs(body) {
        Err(CtfdError::Api(e)) => assert_eq!(e.message, "half an envelope"),
        _ => panic!("expected the failure path"),
    }
    // a non-boolean `success` beside `data` is not the envelope shape either,
    // and without `message` nothing else fits
    let body = "{\"success\":\"yes\",\"data\":[]}";
    assert!(matches!(decode_briefs(body), Err(CtfdError::Protocol)));
}

#[test]
fn out_of_range_ids_are_a_protocol_error() {
    let body = "{\"success\":true,\"data\":[{\"name\":\"X\",\"id\":4294967296,\"category\":\"web\",\"value\":1,\"solved_by_me\":false}]}";
    assert!(matches!(decode_briefs(body), Err(CtfdError::Protocol)));
}

#[test]
fn false_success_flag_is_fatal_and_distinct() {
    let body = "{\"success\":false,\"data\":[]}";
    assert!(matches!(decode_briefs(body), Err(CtfdError::SuccessFlagFalse)));
}

#[test]
fn wrong_payload_shape_is_a_protocol_error() {
    let body = "{\"success\":true,\"data\":{\"not\":\"a list\"}}";
    assert!(matches!(decode_briefs(body), Err(CtfdError::Protocol)));
}

#[test]
fn briefs_envelope_round_trips_through_wire_text() {
    let env = ApiResponse { success: true, data: vec![brief("Web 1", 1), brief("Pwn 9", 9)] };
    let j = briefs_envelope_to_json(&env);
    let text = render_json(&j);
    let back = decode_briefs(&text).unwrap_or_else(|_| panic!("round trip lost the envelope"));
    assert_eq!(back.len(), 2);
    assert_eq!(back[0].name, "Web 1");
    assert_eq!(back[0].id, 1);
    assert_eq!(back[1].name, "Pwn 9");
    assert_eq!(back[1].id, 9);
}

#[test]
fn false_flag_envelope_round_trips_to_the_fatal_error() {
    let env = ApiResponse { success: false, data: vec![brief("Web 1", 1)] };
    let j = briefs_envelope_to_json(&env);
    let text = render_json(&j);
    assert!(matches!(decode_briefs(&text), Err(CtfdError::SuccessFlagFalse)));
}

#[test]
fn failure_shape_round_trips_through_wire_text() {
    let j = failure_to_json(&"down for maintenance".to_owned());
    let text = render_json(&j);
    match decode_briefs(&text) {
        Err(CtfdError::Api(e)) => assert_eq!(e.message, "down for maintenance"),
        _ => panic!("expected the failure path"),
    }
}

#[test]
fn challenge_detail_decodes_with_optional_fields() {
    let body = "{\"success\":true,\"data\":{\"name\":\"Pwn 1\",\"id\":7,\"category\":\"pwn\",\"description\":\"stack things\",\"connection_info\":null,\"value\":500,\"solved_by_me\":true,\"files\":[\"/files/a.bin\",\"/files/b.bin\"]}}";
    let c = decode_challenge(body).unwrap_or_else(|_| panic!("expected a challenge"));
    assert_eq!(c.name, "Pwn 1");
    assert_eq!(c.id, 7);
    assert_eq!(c.description, "stack things");
    assert!(c.connection_info.is_none());
    assert!(c.solved_by_me);
    assert_eq!(c.files, vec!["/files/a.bin".to_owned(), "/files/b.bin".to_owned()]);
}

#[test]
fn challenge_detail_keeps_connection_info_text() {
    let body = "{\"success\":true,\"data\":{\"name\":\"Net 1\",\"id\":2,\"category\":\"net\",\"description\":\"telnet in\",\"connection_info\":\"nc host 1337\",\"value\":100,\"solved_by_me\":false,\"files\":[]}}";
    let c = decode_challenge(body).unwrap_or_else(|_| panic!("expected a challenge"));
    assert_eq!(c.connection_info.as_deref(), Some("nc host 1337"));
    assert!(c.files.is_empty());
}

#[test]
fn challenge_missing_files_is_a_protocol_error() {
    let body = "{\"success\":true,\"data\":{\"name\":\"Net 1\",\"id\":2,\"category\":\"net\",\"description\":\"x\",\"value\":100,\"solved_by_me\":false}}";
    assert!(matches!(decode_challenge(body), Err(CtfdError::Protocol)));
}

#[test]
fn challenge_round_trips_through_wire_text() {
    let c = Challenge {
        name: "Crypto 3".to_owned(),
        id: 11,
        category: "crypto".to_owned(),
        description: "an oracle".to_owned(),
        connection_info: Some("nc oracle 4000".to_owned()),
        value: 300,
        solved_by_me: false,
        files: vec!["/files/oracle.py".to_owned()],
    };
    let j = challenge_to_json(&c);
    let text = render_json(&envelope_to_json(true, j));
    let back = decode_challenge(&text).unwrap_or_else(|_| panic!("round trip lost the detail"));
    assert_eq!(back.name, c.name);
    assert_eq!(back.id, c.id);
    assert_eq!(back.category, c.category);
    assert_eq!(back.description, c.description);
    assert_eq!(back.connection_info, c.connection_info);
    assert_eq!(back.value, c.value);
    assert_eq!(back.solved_by_me, c.solved_by_me);
    assert_eq!(back.files, c.files);
}

#[test]
fn submit_result_decodes_and_round_trips() {
    let body = "{\"success\":true,\"data\":{\"message\":\"Correct\",\"status\":\"correct\"}}";
    let s = decode_submit(body).unwrap_or_else(|_| panic!("expected a submit result"));
    assert_eq!(s.message, "Correct");
    assert_eq!(s.status, "correct");

    let again = SubmitResult { message: "Already solved".to_owned(), status: "already_solved".to_owned() };
    let text = render_json(&envelope_to_json(true, submit_result_to_json(&again)));
    let back = decode_submit(&text).unwrap_or_else(|_| panic!("round trip lost the result"));
    assert_eq!(back.message, "Already solved");
    assert_eq!(back.status, "already_solved");
}

#[test]
fn brief_encoding_is_not_the_identity_on_its_input() {
    let j = brief_to_json(&brief("Web 1", 1));
    match j {
        JsonValue::Obj(ref fields) => assert_eq!(fields.len(), 5),
        _ => panic!("a brief encodes as an object"),
    }
}

#[test]
fn parse_json_reads_scalars_and_nesting() {
    match parse_json("{\"a\":[1,true,\"x\",null]}") {
        Some(JsonValue::Obj(fields)) => {
            assert_eq!(fields.len(), 1);
            assert_eq!(fields[0].0, "a");
            match &fields[0].1 {
                JsonValue::Arr(items) => {
                    assert!(matches!(items[0], JsonValue::Int(1)));
                    assert!(matches!(items[1], JsonValue::Bool(true)));
                    assert!(matches!(&items[2], JsonValue::Str(s) if s == "x"));
                    assert!(matches!(items[3], JsonValue::Null));
                }
                _ => panic!("expected an array"),
            }
        }
        _ => panic!("expected an object"),
    }
    assert!(parse_json("{not json").is_none());
}
