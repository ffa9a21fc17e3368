//! The crash journal: the at-rest record of an in-progress move.  It is
//! written before the first byte moves, its progress mark only ever
//! advances, and it is cleared only after a fully successful move.

use vstd::prelude::*;

use crate::json::{JsonV, JsonValue};

verus! {

/// The fixed path of the journal file.
pub fn journal_path() -> (r: String)
    ensures
        r@ == "/Library/Application Support/com.oliverquick.oxidisk/operation_journal.json"@,
{
    String::from_str("/Library/Application Support/com.oliverquick.oxidisk/operation_journal.json")
}

/// The journal record of a move.
#[derive(Clone)]
pub struct JournalRecord {
    pub operation: String,
    pub device: String,
    pub disk: String,
    pub src_offset: u64,
    pub dst_offset: u64,
    pub size: u64,
    pub block_size: u64,
    pub last_copied: u64,
    pub updated_at: u64,
}

/// The mathematical shape of a journal record.
pub struct JournalRecordV {
    pub operation: Seq<char>,
    pub device: Seq<char>,
    pub disk: Seq<char>,
    pub src_offset: u64,
    pub dst_offset: u64,
    pub size: u64,
    pub block_size: u64,
    pub last_copied: u64,
    pub updated_at: u64,
}

impl View for JournalRecord {
    type V = JournalRecordV;

    open spec fn view(&self) -> JournalRecordV {
        JournalRecordV {
            operation: self.operation@,
            device: self.device@,
            disk: self.disk@,
            src_offset: self.src_offset,
            dst_offset: self.dst_offset,
            size: self.size,
            block_size: self.block_size,
            last_copied: self.last_copied,
            updated_at: self.updated_at,
        }
    }
}

/// The record written on entry to a move: nothing copied yet.
pub fn new_move_record(
    device: &str,
    disk: &str,
    src_offset: u64,
    dst_offset: u64,
    size: u64,
    block_size: u64,
    now: u64,
) -> (r: JournalRecord)
    ensures
        r@ == (JournalRecordV {
            operation: "move"@,
            device: device@,
            disk: disk@,
            src_offset,
            dst_offset,
            size,
            block_size,
            last_copied: 0,
            updated_at: now,
        }),
{
    JournalRecord {
        operation: String::from_str("move"),
        device: device.to_owned(),
        disk: disk.to_owned(),
        src_offset,
        dst_offset,
        size,
        block_size,
        last_copied: 0,
        updated_at: now,
    }
}

impl JournalRecord {
    /// Advance the progress mark.  The mark is monotone: a journal never
    /// claims less progress than it already recorded.
    pub fn set_progress(&mut self, copied: u64, now: u64)
        requires
            copied >= old(self).last_copied,
        ensures
            final(self)@ == (JournalRecordV { last_copied: copied, updated_at: now, ..old(
                self,
            )@ }),
    {
        self.last_copied = copied;
        self.updated_at = now;
    }
}

/// The JSON shape of a journal record, as it rests on disk.
pub open spec fn journal_shape(r: JournalRecordV) -> JsonV {
    JsonV::Obj(
        seq![
            ("operation"@, JsonV::Str(r.operation)),
            ("device"@, JsonV::Str(r.device)),
            ("disk"@, JsonV::Str(r.disk)),
            ("srcOffset"@, JsonV::UInt(r.src_offset)),
            ("dstOffset"@, JsonV::UInt(r.dst_offset)),
            ("size"@, JsonV::UInt(r.size)),
            ("blockSize"@, JsonV::UInt(r.block_size)),
            ("lastCopied"@, JsonV::UInt(r.last_copied)),
            ("updatedAt"@, JsonV::UInt(r.updated_at)),
        ],
    )
}

/// Build the JSON value that the journal file holds.
pub fn journal_value(r: &JournalRecord) -> (v: JsonValue)
    ensures
        v@ == journal_shape(r@),
{
    let fields: Vec<(String, JsonValue)> = vec![
        (String::from_str("operation"), JsonValue::Str(r.operation.clone())),
        (String::from_str("device"), JsonValue::Str(r.device.clone())),
        (String::from_str("disk"), JsonValue::Str(r.disk.clone())),
        (String::from_str("srcOffset"), JsonValue::UInt(r.src_offset)),
        (String::from_str("dstOffset"), JsonValue::UInt(r.dst_offset)),
        (String::from_str("size"), JsonValue::UInt(r.size)),
        (String::from_str("blockSize"), JsonValue::UInt(r.block_size)),
        (String::from_str("lastCopied"), JsonValue::UInt(r.last_copied)),
        (String::from_str("updatedAt"), JsonValue::UInt(r.updated_at)),
    ];
    let v = JsonValue::Obj(fields);
    proof {
        crate::json::lemma_jv_fields(v->Obj_0@);
        assert(v@->Obj_0 =~= journal_shape(r@)->Obj_0);
    }
    v
}

} // verus!
