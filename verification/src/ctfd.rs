//! Data model and transport-envelope handling for the platform API.
//!
//! Every successful response arrives as an envelope `{success, data}`; a
//! rejected request arrives instead as a bare `{message}` object. The two
//! shapes are told apart structurally, never by guessing: a decoded envelope
//! whose `success` flag is false is a fatal internal-consistency defect,
//! distinct from an ordinary platform rejection.
use vstd::prelude::*;

use crate::json::{
    lemma_lookup_absent, lemma_lookup_first_match, lookup, obj_get, parse_json, parse_of,
    take_field, JsonValue,
};

verus! {

/// The platform rejected a request and sent a human-readable message.
#[derive(Debug, Clone)]
pub struct ApiError {
    pub message: String,
}

impl ApiError {
    /// The message the way the tool reports it on its output channel.
    pub fn describe(&self) -> (r: String)
        ensures
            r@ == "Server returned message \""@ + self.message@ + "\""@,
    {
        let mut s = String::new();
        s.append("Server returned message \"");
        s.append(self.message.as_str());
        s.append("\"");
        s
    }
}

/// The envelope wrapped around every successful response payload.
pub struct ApiResponse<D> {
    pub success: bool,
    pub data: D,
}

/// Everything that can go wrong between issuing a request and holding a
/// decoded payload.
#[derive(Debug)]
pub enum CtfdError {
    /// The platform explicitly rejected the request (domain error).
    Api(ApiError),
    /// Network or transport failure, reported by the I/O edge as text.
    Transport(String),
    /// The response body was not one of the two shapes the wire protocol allows.
    Protocol,
    /// A decoded envelope carried `success: false`: an internal-consistency
    /// defect of the platform, fatal and distinct from `Api`.
    SuccessFlagFalse,
    /// A detail fetch returned a challenge whose id differs from the one
    /// requested: a protocol-contract violation, not a recoverable condition.
    IdMismatch { requested: i32, got: i32 },
}

/// The outcome of a flag submission attempt; `status` carries the platform's
/// correct/incorrect/already-solved convention.
#[derive(Debug, Clone)]
pub struct SubmitResult {
    pub message: String,
    pub status: String,
}

/// One row of the challenge listing: an immutable snapshot.
#[derive(Debug, Clone)]
pub struct ChallengeBrief {
    pub name: String,
    pub id: i32,
    pub category: String,
    pub value: i32,
    pub solved_by_me: bool,
}

/// The full detail of one challenge; a superset of `ChallengeBrief`.
#[derive(Debug, Clone)]
pub struct Challenge {
    pub name: String,
    pub id: i32,
    pub category: String,
    pub description: String,
    pub connection_info: Option<String>,
    pub value: i32,
    pub solved_by_me: bool,
    pub files: Vec<String>,
}

/// What the envelope's `data` field holds for an object expected to carry a
/// success envelope: the payload on a true `success` flag, the distinct fatal
/// error on a false one, otherwise whatever the failure shape gives.
pub open spec fn spec_envelope_data(j: JsonValue) -> Result<JsonValue, CtfdError> {
    match j {
        JsonValue::Obj(fields) => match (
            lookup(fields@, "success"@),
            lookup(fields@, "data"@),
        ) {
            (Some(JsonValue::Bool(flag)), Some(d)) => if flag {
                Ok(d)
            } else {
                Err(CtfdError::SuccessFlagFalse)
            },
            _ => spec_failure_shape(fields@),
        },
        _ => Err(CtfdError::Protocol),
    }
}

/// The failure shape: a bare object whose `message` field carries the
/// platform's rejection text. Anything else is not a response this protocol
/// allows.
pub open spec fn spec_failure_shape(fields: Seq<(String, JsonValue)>) -> Result<
    JsonValue,
    CtfdError,
> {
    match lookup(fields, "message"@) {
        Some(JsonValue::Str(m)) => Err(CtfdError::Api(ApiError { message: m })),
        _ => Err(CtfdError::Protocol),
    }
}

fn failure_shape(fields: Vec<(String, JsonValue)>) -> (r: Result<JsonValue, CtfdError>)
    ensures
        r == spec_failure_shape(fields@),
{
    match take_field(fields, "message") {
        Some(v) => match v {
            JsonValue::Str(m) => Err(CtfdError::Api(ApiError { message: m })),
            _ => Err(CtfdError::Protocol),
        },
        None => Err(CtfdError::Protocol),
    }
}

/// Decides between the two response shapes from the JSON structure itself:
/// an object holding both `success` (a boolean) and `data` is the envelope;
/// an object without that pair is read as the failure shape. The envelope's
/// payload is trusted only under a true `success` flag.
pub fn envelope_data(j: JsonValue) -> (r: Result<JsonValue, CtfdError>)
    ensures
        r == spec_envelope_data(j),
{
    match j {
        JsonValue::Obj(fields) => {
            let flag: Option<bool> = match obj_get(&fields, "success") {
                Some(v) => match v {
                    JsonValue::Bool(b) => Some(*b),
                    _ => None,
                },
                None => None,
            };
            let data_present: bool = match obj_get(&fields, "data") {
                Some(_) => true,
                None => false,
            };
            match flag {
                Some(f) => {
                    if data_present {
                        if f {
                            match take_field(fields, "data") {
                                Some(d) => Ok(d),
                                None => {
                                    proof {
                                        assert(false);
                                    }
                                    Err(CtfdError::Protocol)
                                },
                            }
                        } else {
                            Err(CtfdError::SuccessFlagFalse)
                        }
                    } else {
                        failure_shape(fields)
                    }
                },
                None => failure_shape(fields),
            }
        },
        _ => Err(CtfdError::Protocol),
    }
}

/// The challenge brief a JSON value carries, if it is an object with a
/// string `name`, an integer `id` in `i32` range, a string `category`, an
/// integer `value` in `i32` range and a boolean `solved_by_me`.
pub open spec fn spec_brief_of(j: JsonValue) -> Option<ChallengeBrief> {
    match j {
        JsonValue::Obj(fields) => match (
            lookup(fields@, "name"@),
            lookup(fields@, "id"@),
            lookup(fields@, "category"@),
            lookup(fields@, "value"@),
            lookup(fields@, "solved_by_me"@),
        ) {
            (
                Some(JsonValue::Str(name)),
                Some(JsonValue::Int(id)),
                Some(JsonValue::Str(category)),
                Some(JsonValue::Int(value)),
                Some(JsonValue::Bool(solved_by_me)),
            ) => if i32::MIN <= id <= i32::MAX && i32::MIN <= value <= i32::MAX {
                Some(
                    ChallengeBrief {
                        name,
                        id: id as i32,
                        category,
                        value: value as i32,
                        solved_by_me,
                    },
                )
            } else {
                None
            },
            _ => None,
        },
        _ => None,
    }
}

/// Reads one challenge brief out of a JSON value.
pub fn brief_of_json(j: &JsonValue) -> (r: Option<ChallengeBrief>)
    ensures
        r == spec_brief_of(*j),
{
    match j {
        JsonValue::Obj(fields) => {
            let name: Option<String> = match obj_get(fields, "name") {
                Some(v) => match v {
                    JsonValue::Str(s) => Some(s.clone()),
                    _ => None,
                },
                None => None,
            };
            let id: Option<i64> = match obj_get(fields, "id") {
                Some(v) => match v {
                    JsonValue::Int(n) => Some(*n),
                    _ => None,
                },
                None => None,
            };
            let category: Option<String> = match obj_get(fields, "category") {
                Some(v) => match v {
                    JsonValue::Str(s) => Some(s.clone()),
                    _ => None,
                },
                None => None,
            };
            let value: Option<i64> = match obj_get(fields, "value") {
                Some(v) => match v {
                    JsonValue::Int(n) => Some(*n),
                    _ => None,
                },
                None => None,
            };
            let solved_by_me: Option<bool> = match obj_get(fields, "solved_by_me") {
                Some(v) => match v {
                    JsonValue::Bool(b) => Some(*b),
                    _ => None,
                },
                None => None,
            };
            match (name, id, category, value, solved_by_me) {
                (Some(name), Some(id), Some(category), Some(value), Some(solved_by_me)) => {
                    if i32::MIN as i64 <= id && id <= i32::MAX as i64 && i32::MIN as i64 <= value
                        && value <= i32::MAX as i64 {
                        Some(
                            ChallengeBrief {
                                name,
                                id: id as i32,
                                category,
                                value: value as i32,
                                solved_by_me,
                            },
                        )
                    } else {
                        None
                    }
                },
                _ => None,
            }
        },
        _ => None,
    }
}

/// The sequence of briefs a JSON array's elements carry, provided every
/// element carries one.
pub open spec fn spec_briefs_of_seq(items: Seq<JsonValue>) -> Option<Seq<ChallengeBrief>>
    decreases items.len(),
{
    if items.len() == 0 {
        Some(Seq::<ChallengeBrief>::empty())
    } else {
        match (spec_briefs_of_seq(items.drop_last()), spec_brief_of(items.last())) {
            (Some(s), Some(b)) => Some(s.push(b)),
            _ => None,
        }
    }
}

/// The brief list a JSON value carries: it must be an array, and every
/// element must carry a brief.
pub open spec fn spec_briefs_of(j: JsonValue) -> Option<Seq<ChallengeBrief>> {
    match j {
        JsonValue::Arr(items) => spec_briefs_of_seq(items@),
        _ => None,
    }
}

/// Once a prefix fails to decode as briefs, every extension of it fails too.
proof fn lemma_briefs_of_seq_none(items: Seq<JsonValue>, n: int)
    requires
        0 <= n <= items.len(),
        spec_briefs_of_seq(items.subrange(0, n)) is None,
    ensures
        spec_briefs_of_seq(items) is None,
    decreases items.len() - n,
{
    if n == items.len() {
        assert(items.subrange(0, n) =~= items);
    } else {
        assert(items.subrange(0, n + 1).drop_last() =~= items.subrange(0, n));
        lemma_briefs_of_seq_none(items, n + 1);
    }
}

/// Reads the whole brief list out of a JSON value.
#[verifier::loop_isolation(false)]
pub fn briefs_of_json(j: &JsonValue) -> (r: Option<Vec<ChallengeBrief>>)
    ensures
        match r {
            Some(v) => spec_briefs_of(*j) == Some(v@),
            None => spec_briefs_of(*j) is None,
        },
{
    match j {
        JsonValue::Arr(items) => {
            let mut out: Vec<ChallengeBrief> = Vec::new();
            let mut i: usize = 0;
            proof {
                assert(items@.subrange(0, 0) =~= Seq::<JsonValue>::empty());
            }
            while i < items.len()
                invariant
                    i <= items.len(),
                    spec_briefs_of_seq(items@.subrange(0, i as int)) == Some(out@),
                decreases items.len() - i,
            {
                proof {
                    assert(items@.subrange(0, i + 1).drop_last() =~= items@.subrange(0, i as int));
                    assert(items@.subrange(0, i + 1).last() == items@[i as int]);
                }
                match brief_of_json(&items[i]) {
                    Some(b) => {
                        out.push(b);
                    },
                    None => {
                        proof {
                            assert(spec_briefs_of_seq(items@.subrange(0, i + 1)) is None);
                            lemma_briefs_of_seq_none(items@, i + 1);
                            assert(spec_briefs_of(*j) is None);
                        }
                        return None;
                    },
                }
                i = i + 1;
            }
            proof {
                assert(items@.subrange(0, items@.len() as int) =~= items@);
            }
            Some(out)
        },
        _ => None,
    }
}

/// The fields of a `Challenge` as decoding yields them, with the file list
/// as a sequence: what the decode contracts speak of.
#[verifier::ext_equal]
pub struct ChallengeShape {
    pub name: String,
    pub id: i32,
    pub category: String,
    pub description: String,
    pub connection_info: Option<String>,
    pub value: i32,
    pub solved_by_me: bool,
    pub files: Seq<String>,
}

/// The shape of a concrete `Challenge` value.
pub open spec fn shape_of(c: Challenge) -> ChallengeShape {
    ChallengeShape {
        name: c.name,
        id: c.id,
        category: c.category,
        description: c.description,
        connection_info: c.connection_info,
        value: c.value,
        solved_by_me: c.solved_by_me,
        files: c.files@,
    }
}

/// The string list a JSON array's elements carry, provided every element is
/// a string.
pub open spec fn spec_strings_of_seq(items: Seq<JsonValue>) -> Option<Seq<String>>
    decreases items.len(),
{
    if items.len() == 0 {
        Some(Seq::<String>::empty())
    } else {
        match (spec_strings_of_seq(items.drop_last()), items.last()) {
            (Some(s), JsonValue::Str(x)) => Some(s.push(x)),
            _ => None,
        }
    }
}

/// Once a prefix fails to decode as strings, every extension of it fails too.
proof fn lemma_strings_of_seq_none(items: Seq<JsonValue>, n: int)
    requires
        0 <= n <= items.len(),
        spec_strings_of_seq(items.subrange(0, n)) is None,
    ensures
        spec_strings_of_seq(items) is None,
    decreases items.len() - n,
{
    if n == items.len() {
        assert(items.subrange(0, n) =~= items);
    } else {
        assert(items.subrange(0, n + 1).drop_last() =~= items.subrange(0, n));
        lemma_strings_of_seq_none(items, n + 1);
    }
}

/// Reads a list of strings out of a JSON value, which must be an array of
/// strings.
#[verifier::loop_isolation(false)]
fn strings_of_json(j: &JsonValue) -> (r: Option<Vec<String>>)
    ensures
        match r {
            Some(v) => (j matches JsonValue::Arr(items) && spec_strings_of_seq(items@) == Some(
                v@,
            )),
            None => match *j {
                JsonValue::Arr(items) => spec_strings_of_seq(items@) is None,
                _ => true,
            },
        },
{
    match j {
        JsonValue::Arr(items) => {
            let mut out: Vec<String> = Vec::new();
            let mut i: usize = 0;
            proof {
                assert(items@.subrange(0, 0) =~= Seq::<JsonValue>::empty());
            }
            while i < items.len()
                invariant
                    i <= items.len(),
                    spec_strings_of_seq(items@.subrange(0, i as int)) == Some(out@),
                decreases items.len() - i,
            {
                proof {
                    assert(items@.subrange(0, i + 1).drop_last() =~= items@.subrange(0, i as int));
                    assert(items@.subrange(0, i + 1).last() == items@[i as int]);
                }
                match &items[i] {
                    JsonValue::Str(s) => {
                        out.push(s.clone());
                    },
                    _ => {
                        proof {
                            lemma_strings_of_seq_none(items@, i + 1);
                        }
                        return None;
                    },
                }
                i = i + 1;
            }
            proof {
                assert(items@.subrange(0, items@.len() as int) =~= items@);
            }
            Some(out)
        },
        _ => None,
    }
}

/// The optional connection text a field carries: an absent field and a JSON
/// null both mean "none supplied"; a string is the text; any other value is
/// not this protocol's.
pub open spec fn spec_opt_string(o: Option<JsonValue>) -> Option<Option<String>> {
    match o {
        None => Some(None),
        Some(JsonValue::Null) => Some(None),
        Some(JsonValue::Str(s)) => Some(Some(s)),
        Some(_) => None,
    }
}

/// The challenge detail a JSON value carries: the brief's fields plus a
/// string `description`, an optional string `connection_info`, and `files`
/// as an array of strings.
pub open spec fn spec_challenge_of(j: JsonValue) -> Option<ChallengeShape> {
    match j {
        JsonValue::Obj(fields) => match (
            spec_brief_of(j),
            lookup(fields@, "description"@),
            spec_opt_string(lookup(fields@, "connection_info"@)),
            lookup(fields@, "files"@),
        ) {
            (
                Some(brief),
                Some(JsonValue::Str(description)),
                Some(connection_info),
                Some(files_j),
            ) => match files_j {
                JsonValue::Arr(items) => match spec_strings_of_seq(items@) {
                    Some(files) => Some(
                        ChallengeShape {
                            name: brief.name,
                            id: brief.id,
                            category: brief.category,
                            description,
                            connection_info,
                            value: brief.value,
                            solved_by_me: brief.solved_by_me,
                            files,
                        },
                    ),
                    None => None,
                },
                _ => None,
            },
            _ => None,
        },
        _ => None,
    }
}

/// Reads one challenge detail out of a JSON value.
pub fn challenge_of_json(j: &JsonValue) -> (r: Option<Challenge>)
    ensures
        match r {
            Some(c) => spec_challenge_of(*j) == Some(shape_of(c)),
            None => spec_challenge_of(*j) is None,
        },
{
    match j {
        JsonValue::Obj(fields) => {
            let brief: Option<ChallengeBrief> = brief_of_json(j);
            let description: Option<String> = match obj_get(fields, "description") {
                Some(v) => match v {
                    JsonValue::Str(s) => Some(s.clone()),
                    _ => None,
                },
                None => None,
            };
            let connection_info: Option<Option<String>> = match obj_get(
                fields,
                "connection_info",
            ) {
                None => Some(None),
                Some(v) => match v {
                    JsonValue::Null => Some(None),
                    JsonValue::Str(s) => Some(Some(s.clone())),
                    _ => None,
                },
            };
            let files: Option<Vec<String>> = match obj_get(fields, "files") {
                Some(v) => strings_of_json(v),
                None => None,
            };
            match (brief, description, connection_info, files) {
                (Some(brief), Some(description), Some(connection_info), Some(files)) => {
                    let c = Challenge {
                        name: brief.name,
                        id: brief.id,
                        category: brief.category,
                        description,
                        connection_info,
                        value: brief.value,
                        solved_by_me: brief.solved_by_me,
                        files,
                    };
                    proof {
                        assert(spec_challenge_of(*j) matches Some(s) && s =~= shape_of(c));
                    }
                    Some(c)
                },
                _ => None,
            }
        },
        _ => None,
    }
}

/// The submission outcome a JSON value carries, if it is an object with a
/// string `message` and a string `status`.
pub open spec fn spec_submit_of(j: JsonValue) -> Option<SubmitResult> {
    match j {
        JsonValue::Obj(fields) => match (
            lookup(fields@, "message"@),
            lookup(fields@, "status"@),
        ) {
            (Some(JsonValue::Str(message)), Some(JsonValue::Str(status))) => Some(
                SubmitResult { message, status },
            ),
            _ => None,
        },
        _ => None,
    }
}

/// Reads one submission outcome out of a JSON value.
pub fn submit_of_json(j: &JsonValue) -> (r: Option<SubmitResult>)
    ensures
        r == spec_submit_of(*j),
{
    match j {
        JsonValue::Obj(fields) => {
            let message: Option<String> = match obj_get(fields, "message") {
                Some(v) => match v {
                    JsonValue::Str(s) => Some(s.clone()),
                    _ => None,
                },
                None => None,
            };
            let status: Option<String> = match obj_get(fields, "status") {
                Some(v) => match v {
                    JsonValue::Str(s) => Some(s.clone()),
                    _ => None,
                },
                None => None,
            };
            match (message, status) {
                (Some(message), Some(status)) => Some(SubmitResult { message, status }),
                _ => None,
            }
        },
        _ => None,
    }
}

/// What a whole response body, expected to carry a brief list, decodes to.
pub open spec fn spec_decode_briefs_value(j: JsonValue) -> Result<Seq<ChallengeBrief>, CtfdError> {
    match spec_envelope_data(j) {
        Ok(d) => match spec_briefs_of(d) {
            Some(s) => Ok(s),
            None => Err(CtfdError::Protocol),
        },
        Err(e) => Err(e),
    }
}

pub open spec fn spec_decode_briefs(text: Seq<char>) -> Result<Seq<ChallengeBrief>, CtfdError> {
    match parse_of(text) {
        Some(j) => spec_decode_briefs_value(j),
        None => Err(CtfdError::Protocol),
    }
}

/// Decodes an already-parsed response into the challenge listing.
pub fn decode_briefs_value(j: JsonValue) -> (r: Result<Vec<ChallengeBrief>, CtfdError>)
    ensures
        match r {
            Ok(v) => spec_decode_briefs_value(j) == Ok::<Seq<ChallengeBrief>, CtfdError>(v@),
            Err(e) => spec_decode_briefs_value(j) == Err::<Seq<ChallengeBrief>, CtfdError>(e),
        },
{
    match envelope_data(j) {
        Ok(d) => match briefs_of_json(&d) {
            Some(v) => Ok(v),
            None => Err(CtfdError::Protocol),
        },
        Err(e) => Err(e),
    }
}

/// Decodes the raw body of the listing operation: either the envelope's
/// payload, or the error the body's shape dictates.
pub fn decode_briefs(body: &str) -> (r: Result<Vec<ChallengeBrief>, CtfdError>)
    ensures
        match r {
            Ok(v) => spec_decode_briefs(body@) == Ok::<Seq<ChallengeBrief>, CtfdError>(v@),
            Err(e) => spec_decode_briefs(body@) == Err::<Seq<ChallengeBrief>, CtfdError>(e),
        },
{
    match parse_json(body) {
        Some(j) => decode_briefs_value(j),
        None => Err(CtfdError::Protocol),
    }
}

/// What a whole response body, expected to carry one challenge, decodes to.
pub open spec fn spec_decode_challenge_value(j: JsonValue) -> Result<ChallengeShape, CtfdError> {
    match spec_envelope_data(j) {
        Ok(d) => match spec_challenge_of(d) {
            Some(c) => Ok(c),
            None => Err(CtfdError::Protocol),
        },
        Err(e) => Err(e),
    }
}

pub open spec fn spec_decode_challenge(text: Seq<char>) -> Result<ChallengeShape, CtfdError> {
    match parse_of(text) {
        Some(j) => spec_decode_challenge_value(j),
        None => Err(CtfdError::Protocol),
    }
}

/// Decodes an already-parsed response into one challenge detail.
pub fn decode_challenge_value(j: JsonValue) -> (r: Result<Challenge, CtfdError>)
    ensures
        match r {
            Ok(c) => spec_decode_challenge_value(j) == Ok::<ChallengeShape, CtfdError>(shape_of(c)),
            Err(e) => spec_decode_challenge_value(j) == Err::<ChallengeShape, CtfdError>(e),
        },
{
    match envelope_data(j) {
        Ok(d) => match challenge_of_json(&d) {
            Some(c) => Ok(c),
            None => Err(CtfdError::Protocol),
        },
        Err(e) => Err(e),
    }
}

/// Decodes the raw body of the detail operation.
pub fn decode_challenge(body: &str) -> (r: Result<Challenge, CtfdError>)
    ensures
        match r {
            Ok(c) => spec_decode_challenge(body@) == Ok::<ChallengeShape, CtfdError>(shape_of(c)),
            Err(e) => spec_decode_challenge(body@) == Err::<ChallengeShape, CtfdError>(e),
        },
{
    match parse_json(body) {
        Some(j) => decode_challenge_value(j),
        None => Err(CtfdError::Protocol),
    }
}

/// What a whole response body, expected to carry a submission outcome,
/// decodes to.
pub open spec fn spec_decode_submit_value(j: JsonValue) -> Result<SubmitResult, CtfdError> {
    match spec_envelope_data(j) {
        Ok(d) => match spec_submit_of(d) {
            Some(s) => Ok(s),
            None => Err(CtfdError::Protocol),
        },
        Err(e) => Err(e),
    }
}

pub open spec fn spec_decode_submit(text: Seq<char>) -> Result<SubmitResult, CtfdError> {
    match parse_of(text) {
        Some(j) => spec_decode_submit_value(j),
        None => Err(CtfdError::Protocol),
    }
}

/// Decodes an already-parsed response into the submission outcome.
pub fn decode_submit_value(j: JsonValue) -> (r: Result<SubmitResult, CtfdError>)
    ensures
        match r {
            Ok(s) => spec_decode_submit_value(j) == Ok::<SubmitResult, CtfdError>(s),
            Err(e) => spec_decode_submit_value(j) == Err::<SubmitResult, CtfdError>(e),
        },
{
    match envelope_data(j) {
        Ok(d) => match submit_of_json(&d) {
            Some(s) => Ok(s),
            None => Err(CtfdError::Protocol),
        },
        Err(e) => Err(e),
    }
}

/// Decodes the raw body of the submission operation.
pub fn decode_submit(body: &str) -> (r: Result<SubmitResult, CtfdError>)
    ensures
        match r {
            Ok(s) => spec_decode_submit(body@) == Ok::<SubmitResult, CtfdError>(s),
            Err(e) => spec_decode_submit(body@) == Err::<SubmitResult, CtfdError>(e),
        },
{
    match parse_json(body) {
        Some(j) => decode_submit_value(j),
        None => Err(CtfdError::Protocol),
    }
}

/// The words the wire protocol uses as object keys name pairwise different
/// keys, so a lookup for one never lands on another.
proof fn lemma_wire_keys_distinct()
    ensures
        "name"@ != "id"@,
        "name"@ != "category"@,
        "name"@ != "value"@,
        "name"@ != "solved_by_me"@,
        "name"@ != "description"@,
        "name"@ != "connection_info"@,
        "name"@ != "files"@,
        "id"@ != "category"@,
        "id"@ != "value"@,
        "id"@ != "solved_by_me"@,
        "id"@ != "description"@,
        "id"@ != "connection_info"@,
        "id"@ != "files"@,
        "category"@ != "value"@,
        "category"@ != "solved_by_me"@,
        "category"@ != "description"@,
        "category"@ != "connection_info"@,
        "category"@ != "files"@,
        "value"@ != "solved_by_me"@,
        "value"@ != "description"@,
        "value"@ != "connection_info"@,
        "value"@ != "files"@,
        "solved_by_me"@ != "description"@,
        "solved_by_me"@ != "connection_info"@,
        "solved_by_me"@ != "files"@,
        "description"@ != "connection_info"@,
        "description"@ != "files"@,
        "connection_info"@ != "files"@,
        "success"@ != "data"@,
        "message"@ != "success"@,
        "message"@ != "data"@,
        "message"@ != "status"@,
{
    reveal_strlit("name");
    reveal_strlit("id");
    reveal_strlit("category");
    reveal_strlit("value");
    reveal_strlit("solved_by_me");
    reveal_strlit("description");
    reveal_strlit("connection_info");
    reveal_strlit("files");
    reveal_strlit("success");
    reveal_strlit("data");
    reveal_strlit("message");
    reveal_strlit("status");
    assert("name"@.len() == 4);
    assert("id"@.len() == 2);
    assert("category"@.len() == 8);
    assert("value"@.len() == 5);
    assert("solved_by_me"@.len() == 12);
    assert("description"@.len() == 11);
    assert("connection_info"@.len() == 15);
    assert("files"@.len() == 5);
    assert("success"@.len() == 7);
    assert("data"@.len() == 4);
    assert("message"@.len() == 7);
    assert("status"@.len() == 6);
    assert("value"@[0] != "files"@[0]);
    assert("name"@[0] != "data"@[0]);
    assert("success"@[0] != "message"@[0]);
}

/// Encodes a brief as the object the wire carries for it. The contract is
/// the round-trip law: decoding what this encodes yields the brief back,
/// losslessly, for every brief.
pub fn brief_to_json(b: &ChallengeBrief) -> (r: JsonValue)
    ensures
        spec_brief_of(r) == Some(*b),
{
    let mut fields: Vec<(String, JsonValue)> = Vec::new();
    fields.push(("name".to_owned(), JsonValue::Str(b.name.clone())));
    fields.push(("id".to_owned(), JsonValue::Int(b.id as i64)));
    fields.push(("category".to_owned(), JsonValue::Str(b.category.clone())));
    fields.push(("value".to_owned(), JsonValue::Int(b.value as i64)));
    fields.push(("solved_by_me".to_owned(), JsonValue::Bool(b.solved_by_me)));
    let r = JsonValue::Obj(fields);
    proof {
        lemma_wire_keys_distinct();
        let f = r->Obj_0@;
        lemma_lookup_first_match(f, "name"@, 0);
        lemma_lookup_first_match(f, "id"@, 1);
        lemma_lookup_first_match(f, "category"@, 2);
        lemma_lookup_first_match(f, "value"@, 3);
        lemma_lookup_first_match(f, "solved_by_me"@, 4);
        assert(spec_brief_of(r) == Some(*b));
    }
    r
}

/// Wraps a payload in the success envelope, or in an envelope whose flag is
/// deliberately false. The contract is the envelope round-trip law: the
/// envelope's structural selection always takes the envelope path on what
/// this builds, yielding the payload exactly on a true flag and the distinct
/// fatal error on a false one.
pub fn envelope_to_json(success: bool, data: JsonValue) -> (r: JsonValue)
    ensures
        success ==> spec_envelope_data(r) == Ok::<JsonValue, CtfdError>(data),
        !success ==> spec_envelope_data(r) == Err::<JsonValue, CtfdError>(
            CtfdError::SuccessFlagFalse,
        ),
{
    let mut fields: Vec<(String, JsonValue)> = Vec::new();
    fields.push(("success".to_owned(), JsonValue::Bool(success)));
    fields.push(("data".to_owned(), data));
    let r = JsonValue::Obj(fields);
    proof {
        lemma_wire_keys_distinct();
        let f = r->Obj_0@;
        lemma_lookup_first_match(f, "success"@, 0);
        lemma_lookup_first_match(f, "data"@, 1);
        assert(success ==> spec_envelope_data(r) == Ok::<JsonValue, CtfdError>(data));
        assert(!success ==> spec_envelope_data(r) == Err::<JsonValue, CtfdError>(
            CtfdError::SuccessFlagFalse,
        ));
    }
    r
}

/// Encodes the failure shape the platform answers rejected requests with.
/// The contract says the structural selection always takes the failure path
/// on it: the decoded error carries the message, word for word.
pub fn failure_to_json(message: &String) -> (r: JsonValue)
    ensures
        spec_envelope_data(r) == Err::<JsonValue, CtfdError>(
            CtfdError::Api(ApiError { message: *message }),
        ),
{
    let mut fields: Vec<(String, JsonValue)> = Vec::new();
    fields.push(("message".to_owned(), JsonValue::Str(message.clone())));
    let r = JsonValue::Obj(fields);
    proof {
        lemma_wire_keys_distinct();
        let f = r->Obj_0@;
        lemma_lookup_absent(f, "success"@);
        lemma_lookup_absent(f, "data"@);
        lemma_lookup_first_match(f, "message"@, 0);
        assert(spec_envelope_data(r) == Err::<JsonValue, CtfdError>(
            CtfdError::Api(ApiError { message: *message }),
        ));
    }
    r
}

/// Encodes a submission outcome; decoding it yields the outcome back.
pub fn submit_result_to_json(s: &SubmitResult) -> (r: JsonValue)
    ensures
        spec_submit_of(r) == Some(*s),
{
    let mut fields: Vec<(String, JsonValue)> = Vec::new();
    fields.push(("message".to_owned(), JsonValue::Str(s.message.clone())));
    fields.push(("status".to_owned(), JsonValue::Str(s.status.clone())));
    let r = JsonValue::Obj(fields);
    proof {
        lemma_wire_keys_distinct();
        let f = r->Obj_0@;
        lemma_lookup_first_match(f, "message"@, 0);
        lemma_lookup_first_match(f, "status"@, 1);
        assert(spec_submit_of(r) == Some(*s));
    }
    r
}

/// Encodes a full challenge detail; decoding it yields exactly the
/// challenge's shape back, files in order.
#[verifier::loop_isolation(false)]
pub fn challenge_to_json(c: &Challenge) -> (r: JsonValue)
    ensures
        spec_challenge_of(r) == Some(shape_of(*c)),
{
    let mut items: Vec<JsonValue> = Vec::new();
    let mut i: usize = 0;
    while i < c.files.len()
        invariant
            i <= c.files.len(),
            spec_strings_of_seq(items@) == Some(c.files@.subrange(0, i as int)),
        decreases c.files.len() - i,
    {
        let ghost before = items@;
        items.push(JsonValue::Str(c.files[i].clone()));
        proof {
            assert(items@.drop_last() =~= before);
            assert(c.files@.subrange(0, i + 1) =~= c.files@.subrange(0, i as int).push(
                c.files@[i as int],
            ));
        }
        i = i + 1;
    }
    proof {
        assert(c.files@.subrange(0, c.files@.len() as int) =~= c.files@);
    }
    let connection_info = match &c.connection_info {
        Some(s) => JsonValue::Str(s.clone()),
        None => JsonValue::Null,
    };
    let mut fields: Vec<(String, JsonValue)> = Vec::new();
    fields.push(("name".to_owned(), JsonValue::Str(c.name.clone())));
    fields.push(("id".to_owned(), JsonValue::Int(c.id as i64)));
    fields.push(("category".to_owned(), JsonValue::Str(c.category.clone())));
    fields.push(("value".to_owned(), JsonValue::Int(c.value as i64)));
    fields.push(("solved_by_me".to_owned(), JsonValue::Bool(c.solved_by_me)));
    fields.push(("description".to_owned(), JsonValue::Str(c.description.clone())));
    fields.push(("connection_info".to_owned(), connection_info));
    fields.push(("files".to_owned(), JsonValue::Arr(items)));
    let r = JsonValue::Obj(fields);
    proof {
        lemma_wire_keys_distinct();
        let f = r->Obj_0@;
        lemma_lookup_first_match(f, "name"@, 0);
        lemma_lookup_first_match(f, "id"@, 1);
        lemma_lookup_first_match(f, "category"@, 2);
        lemma_lookup_first_match(f, "value"@, 3);
        lemma_lookup_first_match(f, "solved_by_me"@, 4);
        lemma_lookup_first_match(f, "description"@, 5);
        lemma_lookup_first_match(f, "connection_info"@, 6);
        lemma_lookup_first_match(f, "files"@, 7);
        assert(spec_brief_of(r) == Some(
            ChallengeBrief {
                name: c.name,
                id: c.id,
                category: c.category,
                value: c.value,
                solved_by_me: c.solved_by_me,
            },
        ));
        assert(spec_opt_string(lookup(f, "connection_info"@)) == Some(c.connection_info));
        assert(spec_challenge_of(r) matches Some(s) && s =~= shape_of(*c));
    }
    r
}

/// Encodes a whole listing response: the envelope around the brief list.
/// The contract is the listing round-trip law, for every payload and either
/// flag: decoding what this encodes yields the payload exactly, or the
/// distinct fatal error where the flag was false.
#[verifier::loop_isolation(false)]
pub fn briefs_envelope_to_json(env: &ApiResponse<Vec<ChallengeBrief>>) -> (r: JsonValue)
    ensures
        env.success ==> spec_decode_briefs_value(r) == Ok::<Seq<ChallengeBrief>, CtfdError>(
            env.data@,
        ),
        !env.success ==> spec_decode_briefs_value(r) == Err::<Seq<ChallengeBrief>, CtfdError>(
            CtfdError::SuccessFlagFalse,
        ),
{
    let mut items: Vec<JsonValue> = Vec::new();
    let mut i: usize = 0;
    while i < env.data.len()
        invariant
            i <= env.data.len(),
            spec_briefs_of_seq(items@) == Some(env.data@.subrange(0, i as int)),
        decreases env.data.len() - i,
    {
        let ghost before = items@;
        items.push(brief_to_json(&env.data[i]));
        proof {
            assert(items@.drop_last() =~= before);
            assert(env.data@.subrange(0, i + 1) =~= env.data@.subrange(0, i as int).push(
                env.data@[i as int],
            ));
        }
        i = i + 1;
    }
    proof {
        assert(env.data@.subrange(0, env.data@.len() as int) =~= env.data@);
    }
    envelope_to_json(env.success, JsonValue::Arr(items))
}

/// The character a single decimal digit prints as.
pub open spec fn spec_digit_char(d: int) -> char {
    if d == 0 {
        '0'
    } else if d == 1 {
        '1'
    } else if d == 2 {
        '2'
    } else if d == 3 {
        '3'
    } else if d == 4 {
        '4'
    } else if d == 5 {
        '5'
    } else if d == 6 {
        '6'
    } else if d == 7 {
        '7'
    } else if d == 8 {
        '8'
    } else {
        '9'
    }
}

/// The decimal digits of a non-negative number, most significant first.
pub open spec fn spec_dec_digits(n: int) -> Seq<char>
    decreases n,
{
    if n < 10 {
        seq![spec_digit_char(n)]
    } else {
        spec_dec_digits(n / 10).push(spec_digit_char(n % 10))
    }
}

/// A number the way it prints in decimal, minus sign included.
pub open spec fn spec_i64_dec(n: int) -> Seq<char> {
    if n < 0 {
        seq!['-'] + spec_dec_digits(-n)
    } else {
        spec_dec_digits(n)
    }
}

/// One decimal digit as text.
fn digit_str(d: u64) -> (r: &'static str)
    requires
        d < 10,
    ensures
        r@ == seq![spec_digit_char(d as int)],
{
    let r: &'static str = match d {
        0 => "0",
        1 => "1",
        2 => "2",
        3 => "3",
        4 => "4",
        5 => "5",
        6 => "6",
        7 => "7",
        8 => "8",
        _ => "9",
    };
    proof {
        reveal_strlit("0");
        reveal_strlit("1");
        reveal_strlit("2");
        reveal_strlit("3");
        reveal_strlit("4");
        reveal_strlit("5");
        reveal_strlit("6");
        reveal_strlit("7");
        reveal_strlit("8");
        reveal_strlit("9");
        assert(r@ =~= seq![spec_digit_char(d as int)]);
    }
    r
}

/// Appends a non-negative number's decimal digits.
fn push_dec_digits(n: u64, out: &mut String)
    ensures
        final(out)@ == old(out)@ + spec_dec_digits(n as int),
    decreases n,
{
    let ghost entry = out@;
    if n >= 10 {
        push_dec_digits(n / 10, out);
    }
    let d = digit_str(n % 10);
    out.append(d);
    proof {
        if n < 10 {
            assert(out@ =~= entry + spec_dec_digits(n as int));
        } else {
            assert(spec_dec_digits(n as int / 10).push(spec_digit_char(n as int % 10))
                =~= spec_dec_digits(n as int / 10) + seq![spec_digit_char(n as int % 10)]);
            assert(out@ =~= entry + spec_dec_digits(n as int));
        }
    }
}

/// A number as decimal text, exactly as it prints.
pub fn int_to_string(n: i64) -> (r: String)
    ensures
        r@ == spec_i64_dec(n as int),
{
    let mut out = String::new();
    if n < 0 {
        out.append("-");
        let mag: u64 = (-(n as i128)) as u64;
        push_dec_digits(mag, &mut out);
        proof {
            reveal_strlit("-");
            assert(out@ =~= spec_i64_dec(n as int));
        }
    } else {
        push_dec_digits(n as u64, &mut out);
        proof {
            assert(out@ =~= spec_i64_dec(n as int));
        }
    }
    out
}

impl Ctfd {
    /// The collection endpoint the listing is fetched from.
    pub fn challenges_path() -> (r: &'static str)
        ensures
            r@ == "api/v1/challenges"@,
    {
        "api/v1/challenges"
    }

    /// The endpoint one challenge's detail is fetched from.
    pub fn challenge_path(id: i32) -> (r: String)
        ensures
            r@ == "api/v1/challenges/"@ + spec_i64_dec(id as int),
    {
        let mut out = String::new();
        out.append("api/v1/challenges/");
        let digits = int_to_string(id as i64);
        out.append(digits.as_str());
        proof {
            reveal_strlit("api/v1/challenges/");
        }
        out
    }

    /// The endpoint a flag submission is posted to.
    pub fn attempt_path() -> (r: &'static str)
        ensures
            r@ == "api/v1/challenges/attempt"@,
    {
        "api/v1/challenges/attempt"
    }

    /// The authentication header's value for a session cookie.
    pub fn session_header(session: &str) -> (r: String)
        ensures
            r@ == "session="@ + session@ + ";"@,
    {
        let mut out = String::new();
        out.append("session=");
        out.append(session);
        out.append(";");
        proof {
            reveal_strlit("session=");
            reveal_strlit(";");
        }
        out
    }
}

/// The JSON body a flag submission posts: the challenge's id, as decimal
/// text, under `challenge_id`, and the flag, word for word, under
/// `submission`.
pub fn submit_request_body(challenge_id: i32, flag: &str) -> (r: JsonValue)
    ensures
        r matches JsonValue::Obj(f) && f@.len() == 2 && f@[0].0@ == "challenge_id"@ && (f@[0].1
            matches JsonValue::Str(s) && s@ == spec_i64_dec(challenge_id as int)) && f@[1].0@
            == "submission"@ && (f@[1].1 matches JsonValue::Str(fl) && fl@ == flag@),
{
    let mut fields: Vec<(String, JsonValue)> = Vec::new();
    fields.push(("challenge_id".to_owned(), JsonValue::Str(int_to_string(challenge_id as i64))));
    fields.push(("submission".to_owned(), JsonValue::Str(flag.to_owned())));
    JsonValue::Obj(fields)
}

/// The authenticated transport configuration: the base address every endpoint
/// path is joined to, and the session credential attached to every request.
/// Immutable after construction; the I/O edge owns the HTTP client itself.
pub struct Ctfd {
    base_url: String,
    session: String,
}

impl Ctfd {
    pub closed spec fn spec_base_url(&self) -> Seq<char> {
        self.base_url@
    }

    pub closed spec fn spec_session(&self) -> Seq<char> {
        self.session@
    }

    pub fn new(base_url: String, session: String) -> (r: Self)
        ensures
            r.spec_base_url() == base_url@,
            r.spec_session() == session@,
    {
        Ctfd { base_url, session }
    }

    pub fn base_url(&self) -> (r: &str)
        ensures
            r@ == self.spec_base_url(),
    {
        self.base_url.as_str()
    }

    /// The session credential as the value of the authentication header.
    pub fn session(&self) -> (r: &str)
        ensures
            r@ == self.spec_session(),
    {
        self.session.as_str()
    }

    /// A detail fetch must hand back the challenge that was asked for: the id
    /// in the response must equal the id in the request. On a mismatch the
    /// mismatched challenge is withheld and a contract-violation error is
    /// raised instead.
    pub fn check_detail(requested: i32, ch: Challenge) -> (r: Result<Challenge, CtfdError>)
        ensures
            ch.id == requested ==> r == Ok::<Challenge, CtfdError>(ch),
            ch.id != requested ==> r == Err::<Challenge, CtfdError>(
                CtfdError::IdMismatch { requested, got: ch.id },
            ),
    {
        if ch.id == requested {
            Ok(ch)
        } else {
            Err(CtfdError::IdMismatch { requested, got: ch.id })
        }
    }

    /// The ids of the listed challenges, in listing order: the detail
    /// expansion fetches exactly these, one by one, in this order.
    pub fn ids_of(briefs: &Vec<ChallengeBrief>) -> (r: Vec<i32>)
        ensures
            r@ == briefs@.map_values(|b: ChallengeBrief| b.id),
    {
        let mut ids: Vec<i32> = Vec::new();
        let mut i: usize = 0;
        while i < briefs.len()
            invariant
                i <= briefs.len(),
                ids@ =~= briefs@.subrange(0, i as int).map_values(|b: ChallengeBrief| b.id),
            decreases briefs.len() - i,
        {
            ids.push(briefs[i].id);
            proof {
                assert(briefs@.subrange(0, i + 1 as int).drop_last() =~= briefs@.subrange(
                    0,
                    i as int,
                ));
                assert(ids@ =~= briefs@.subrange(0, i + 1 as int).map_values(
                    |b: ChallengeBrief| b.id,
                ));
            }
            i = i + 1;
        }
        proof {
            assert(briefs@.subrange(0, briefs@.len() as int) =~= briefs@);
        }
        ids
    }

    /// The projection of a challenge the download path works from.
    pub fn into_task(ch: Challenge) -> (r: crate::Task<i32>)
        ensures
            r._id == ch.id,
            r.name == ch.name,
            r.downloads == ch.files,
    {
        crate::Task { _id: ch.id, name: ch.name, downloads: ch.files }
    }
}

/// The sequential detail expansion as a state: the ids still to fetch, in
/// listing order, and the details accepted so far. The I/O edge fetches the
/// head id and hands the decoded challenge back; acceptance enforces the
/// id contract and keeps listing order, and the first violation stops the
/// expansion with nothing half-taken.
pub struct Expansion {
    /// the ids still to fetch, head first
    pub pending: Vec<i32>,
    /// the details accepted, in the order their ids were listed
    pub done: Vec<Challenge>,
}

impl Expansion {
    /// An expansion over a brief list fetches exactly the listed ids, in
    /// listing order.
    pub fn new(briefs: &Vec<ChallengeBrief>) -> (r: Expansion)
        ensures
            r.pending@ == briefs@.map_values(|b: ChallengeBrief| b.id),
            r.done@ == Seq::<Challenge>::empty(),
    {
        Expansion { pending: Ctfd::ids_of(briefs), done: Vec::new() }
    }

    /// The id to fetch next, if any is left.
    pub fn next_id(&self) -> (r: Option<i32>)
        ensures
            self.pending@.len() == 0 ==> r is None,
            self.pending@.len() > 0 ==> r == Some(self.pending@[0]),
    {
        if self.pending.len() == 0 {
            None
        } else {
            Some(self.pending[0])
        }
    }

    /// Accepts the detail fetched for the head id. A detail whose id is the
    /// one asked for is appended, keeping listing order; any other id is a
    /// contract violation that leaves the expansion untouched.
    pub fn accept(&mut self, ch: Challenge) -> (r: Result<(), CtfdError>)
        requires
            old(self).pending@.len() > 0,
        ensures
            ch.id == old(self).pending@[0] ==> r is Ok && final(self).pending@ == old(
                self,
            ).pending@.skip(1) && final(self).done@ == old(self).done@.push(ch),
            ch.id != old(self).pending@[0] ==> r == Err::<(), CtfdError>(
                CtfdError::IdMismatch { requested: old(self).pending@[0], got: ch.id },
            ) && *final(self) == *old(self),
    {
        let expected = self.pending[0];
        if ch.id != expected {
            return Err(CtfdError::IdMismatch { requested: expected, got: ch.id });
        }
        let ghost before = self.pending@;
        self.pending.remove(0);
        proof {
            assert(self.pending@ =~= before.skip(1));
        }
        self.done.push(ch);
        Ok(())
    }
}

} // verus!

