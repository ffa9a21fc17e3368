//! The JSON renderer, the event stream records, and the crash journal.

use oxidisk::events::{event_line, log_event, percent_of, progress_event, progress_event_bytes,
    response_event};
use oxidisk::journal::{journal_path, journal_value, new_move_record};
use oxidisk::json::{read_string, to_json, JsonValue};

#[test]
fn render_scalars() {
    assert_eq!(to_json(&JsonValue::Null), "null");
    assert_eq!(to_json(&JsonValue::Bool(true)), "true");
    assert_eq!(to_json(&JsonValue::Bool(false)), "false");
    assert_eq!(to_json(&JsonValue::UInt(0)), "0");
    assert_eq!(to_json(&JsonValue::UInt(1_099_511_627_776)), "1099511627776");
    assert_eq!(to_json(&JsonValue::Str("hi".to_string())), "\"hi\"");
}

#[test]
fn render_escapes() {
    let v = JsonValue::Str("a\"b\\c\nd\te\r".to_string());
    assert_eq!(to_json(&v), "\"a\\\"b\\\\c\\nd\\te\\r\"");
    let ctl = JsonValue::Str("\u{1}x\u{1f}".to_string());
    assert_eq!(to_json(&ctl), "\"\\u0001x\\u001f\"");
}

#[test]
fn render_compound() {
    let v = JsonValue::Obj(vec![
        ("a".to_string(), JsonValue::Arr(vec![JsonValue::UInt(1), JsonValue::UInt(2)])),
        ("b".to_string(), JsonValue::Null),
    ]);
    assert_eq!(to_json(&v), "{\"a\":[1,2],\"b\":null}");
    let empty = JsonValue::Obj(Vec::new());
    assert_eq!(to_json(&empty), "{}");
    let earr = JsonValue::Arr(Vec::new());
    assert_eq!(to_json(&earr), "[]");
}

#[test]
fn progress_line_shape() {
    let ev = progress_event("resize", 10, 100, Some("Shrink filesystem"));
    assert_eq!(
        event_line(&ev),
        "{\"type\":\"progress\",\"phase\":\"resize\",\"percent\":10,\"total\":100,\
         \"message\":\"Shrink filesystem\",\"bytes\":0,\"totalBytes\":0}"
    );
    let ev = progress_event_bytes("flash", 50, 100, None, 52428800, 104857600);
    assert_eq!(
        event_line(&ev),
        "{\"type\":\"progress\",\"phase\":\"flash\",\"percent\":50,\"total\":100,\
         \"message\":null,\"bytes\":52428800,\"totalBytes\":104857600}"
    );
}

#[test]
fn log_line_shape() {
    let ev = log_event("mkfs.ext4", "done");
    assert_eq!(event_line(&ev), "{\"type\":\"log\",\"source\":\"mkfs.ext4\",\"line\":\"done\"}");
}

#[test]
fn response_line_shape() {
    let ok = response_event(true, None, Some(JsonValue::Obj(vec![(
        "device".to_string(),
        JsonValue::Str("/dev/disk4".to_string()),
    )])));
    assert_eq!(
        event_line(&ok),
        "{\"ok\":true,\"message\":null,\"details\":{\"device\":\"/dev/disk4\"}}"
    );
    let err = response_event(false, Some("Invalid size".to_string()), None);
    assert_eq!(
        event_line(&err),
        "{\"ok\":false,\"message\":\"Invalid size\",\"details\":null}"
    );
}

#[test]
fn percent_rounds_half_up() {
    assert_eq!(percent_of(0, 100), 0);
    assert_eq!(percent_of(1, 200), 1);
    assert_eq!(percent_of(1, 201), 0);
    assert_eq!(percent_of(100, 100), 100);
    assert_eq!(percent_of(52428800, 104857600), 50);
}

#[test]
fn journal_record_lifecycle() {
    let mut rec = new_move_record("/dev/disk4s1", "/dev/disk4", 100, 200, 50, 512, 1000);
    assert_eq!(rec.last_copied, 0);
    rec.set_progress(10, 1001);
    assert_eq!(rec.last_copied, 10);
    assert_eq!(rec.updated_at, 1001);
    rec.set_progress(50, 1002);
    assert_eq!(rec.last_copied, 50);
    let v = journal_value(&rec);
    assert_eq!(
        to_json(&v),
        "{\"operation\":\"move\",\"device\":\"/dev/disk4s1\",\"disk\":\"/dev/disk4\",\
         \"srcOffset\":100,\"dstOffset\":200,\"size\":50,\"blockSize\":512,\
         \"lastCopied\":50,\"updatedAt\":1002}"
    );
}

#[test]
fn journal_path_is_fixed() {
    assert_eq!(
        journal_path(),
        "/Library/Application Support/com.oliverquick.oxidisk/operation_journal.json"
    );
}

#[test]
fn read_string_names_missing_fields() {
    let payload = JsonValue::Obj(vec![(
        "deviceIdentifier".to_string(),
        JsonValue::Str("disk4".to_string()),
    )]);
    assert_eq!(read_string(&payload, "deviceIdentifier"), Ok("disk4".to_string()));
    assert_eq!(
        read_string(&payload, "label"),
        Err("Missing field: label".to_string())
    );
    // a field of the wrong shape is missing too
    let bad = JsonValue::Obj(vec![("label".to_string(), JsonValue::UInt(1))]);
    assert_eq!(read_string(&bad, "label"), Err("Missing field: label".to_string()));
}
