//! The event stream: single-line JSON progress and log records, and the
//! terminal response record.

use vstd::prelude::*;

use crate::json::{json_text, to_json, JsonV, JsonValue};

verus! {

/// The rounded percentage of `copied` out of `total`: the nearest whole
/// percent, halves rounding up.
pub open spec fn percent_spec(copied: u64, total: u64) -> int {
    (200 * copied + total) / (2 * total)
}

/// Round a byte ratio to a whole percentage.
pub fn percent_of(copied: u64, total: u64) -> (r: u64)
    requires
        total >= 1,
        copied <= total,
    ensures
        r == percent_spec(copied, total),
        r <= 100,
{
    let num: u128 = 200 * (copied as u128) + (total as u128);
    let den: u128 = 2 * (total as u128);
    let r = num / den;
    proof {
        assert(200 * copied + total <= 200 * total + total) by (nonlinear_arith)
            requires
                copied <= total,
        ;
        assert((200 * (total as int) + total) / (2 * (total as int)) <= 100) by {
            assert(200 * (total as int) + total <= 100 * (2 * (total as int)) + (2 * (total as int)
                - 1)) by (nonlinear_arith)
                requires
                    total >= 1,
            ;
            vstd::arithmetic::div_mod::lemma_div_is_ordered(
                200 * (total as int) + total,
                100 * (2 * (total as int)) + (2 * (total as int) - 1),
                2 * (total as int),
            );
            assert((100 * (2 * (total as int)) + (2 * (total as int) - 1)) / (2 * (total as int))
                == 100) by {
                vstd::arithmetic::div_mod::lemma_div_multiples_vanish_fancy(
                    100,
                    2 * (total as int) - 1,
                    2 * (total as int),
                );
            }
        }
        vstd::arithmetic::div_mod::lemma_div_is_ordered(
            200 * (copied as int) + total,
            200 * (total as int) + total,
            2 * (total as int),
        );
    }
    r as u64
}

/// The shape of one progress record.
pub open spec fn progress_shape(
    phase: Seq<char>,
    percent: u64,
    total: u64,
    message: Option<Seq<char>>,
    bytes: u64,
    total_bytes: u64,
) -> JsonV {
    JsonV::Obj(
        seq![
            ("type"@, JsonV::Str("progress"@)),
            ("phase"@, JsonV::Str(phase)),
            ("percent"@, JsonV::UInt(percent)),
            ("total"@, JsonV::UInt(total)),
            (
                "message"@,
                match message {
                    Some(m) => JsonV::Str(m),
                    None => JsonV::Null,
                },
            ),
            ("bytes"@, JsonV::UInt(bytes)),
            ("totalBytes"@, JsonV::UInt(total_bytes)),
        ],
    )
}

/// Build one progress record with byte counters.
pub fn progress_event_bytes(
    phase: &str,
    percent: u64,
    total: u64,
    message: Option<&str>,
    bytes: u64,
    total_bytes: u64,
) -> (r: JsonValue)
    ensures
        r@ == progress_shape(
            phase@,
            percent,
            total,
            match message {
                Some(m) => Some(m@),
                None => None,
            },
            bytes,
            total_bytes,
        ),
{
    let msg = match message {
        Some(m) => JsonValue::Str(m.to_owned()),
        None => JsonValue::Null,
    };
    let fields: Vec<(String, JsonValue)> = vec![
        (String::from_str("type"), JsonValue::Str(String::from_str("progress"))),
        (String::from_str("phase"), JsonValue::Str(phase.to_owned())),
        (String::from_str("percent"), JsonValue::UInt(percent)),
        (String::from_str("total"), JsonValue::UInt(total)),
        (String::from_str("message"), msg),
        (String::from_str("bytes"), JsonValue::UInt(bytes)),
        (String::from_str("totalBytes"), JsonValue::UInt(total_bytes)),
    ];
    let r = JsonValue::Obj(fields);
    proof {
        crate::json::lemma_jv_fields(r->Obj_0@);
        assert(r@->Obj_0 =~= progress_shape(
            phase@,
            percent,
            total,
            match message {
                Some(m) => Some(m@),
                None => None,
            },
            bytes,
            total_bytes,
        )->Obj_0);
    }
    r
}

/// Build one progress record without byte counters.
pub fn progress_event(phase: &str, percent: u64, total: u64, message: Option<&str>) -> (r:
    JsonValue)
    ensures
        r@ == progress_shape(
            phase@,
            percent,
            total,
            match message {
                Some(m) => Some(m@),
                None => None,
            },
            0,
            0,
        ),
{
    progress_event_bytes(phase, percent, total, message, 0, 0)
}

/// The shape of one log record.
pub open spec fn log_shape(source: Seq<char>, line: Seq<char>) -> JsonV {
    JsonV::Obj(
        seq![
            ("type"@, JsonV::Str("log"@)),
            ("source"@, JsonV::Str(source)),
            ("line"@, JsonV::Str(line)),
        ],
    )
}

/// Build one log record.
pub fn log_event(source: &str, line: &str) -> (r: JsonValue)
    ensures
        r@ == log_shape(source@, line@),
{
    let fields: Vec<(String, JsonValue)> = vec![
        (String::from_str("type"), JsonValue::Str(String::from_str("log"))),
        (String::from_str("source"), JsonValue::Str(source.to_owned())),
        (String::from_str("line"), JsonValue::Str(line.to_owned())),
    ];
    let r = JsonValue::Obj(fields);
    proof {
        crate::json::lemma_jv_fields(r->Obj_0@);
        assert(r@->Obj_0 =~= log_shape(source@, line@)->Obj_0);
    }
    r
}

/// The shape of the terminal response record.
pub open spec fn response_shape(
    ok: bool,
    message: Option<Seq<char>>,
    details: Option<JsonV>,
) -> JsonV {
    JsonV::Obj(
        seq![
            ("ok"@, JsonV::Bool(ok)),
            (
                "message"@,
                match message {
                    Some(m) => JsonV::Str(m),
                    None => JsonV::Null,
                },
            ),
            (
                "details"@,
                match details {
                    Some(d) => d,
                    None => JsonV::Null,
                },
            ),
        ],
    )
}

/// Build the terminal response record.
pub fn response_event(ok: bool, message: Option<String>, details: Option<JsonValue>) -> (r:
    JsonValue)
    ensures
        r@ == response_shape(
            ok,
            match message {
                Some(m) => Some(m@),
                None => None,
            },
            match details {
                Some(d) => Some(d@),
                None => None,
            },
        ),
{
    let ghost msg_v = match message {
        Some(ref m) => Some(m@),
        None => None,
    };
    let ghost det_v = match details {
        Some(ref d) => Some(d@),
        None => None,
    };
    let msg = match message {
        Some(m) => JsonValue::Str(m),
        None => JsonValue::Null,
    };
    let det = match details {
        Some(d) => d,
        None => JsonValue::Null,
    };
    let fields: Vec<(String, JsonValue)> = vec![
        (String::from_str("ok"), JsonValue::Bool(ok)),
        (String::from_str("message"), msg),
        (String::from_str("details"), det),
    ];
    let r = JsonValue::Obj(fields);
    proof {
        crate::json::lemma_jv_fields(r->Obj_0@);
        assert(r@->Obj_0 =~= response_shape(ok, msg_v, det_v)->Obj_0);
    }
    r
}

/// Render one record as the single line that goes on the stream.
pub fn event_line(event: &JsonValue) -> (r: String)
    ensures
        r@ == json_text(event@),
{
    to_json(event)
}

} // verus!
