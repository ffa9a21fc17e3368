//! The request and response model of the engine: one typed struct per
//! recognised action, extracted from the JSON payload with the
//! missing-field rule, and the response record.

use vstd::prelude::*;

use crate::json::{get_spec, read_string, read_string_spec, JsonV, JsonValue};

verus! {

/// The terminal response of one exchange.
pub struct HelperResponse {
    pub ok: bool,
    pub message: Option<String>,
    pub details: Option<JsonValue>,
}

/// A response with `ok` false collapses to its message.
pub fn ok_or_message(response: HelperResponse) -> (r: Result<HelperResponse, String>)
    ensures
        match r {
            Ok(resp) => response.ok && resp == response,
            Err(e) => !response.ok && (match response.message {
                Some(m) => e@ == m@,
                None => e@ == "Helper reported failure."@,
            }),
        },
{
    if response.ok {
        Ok(response)
    } else {
        match response.message {
            Some(m) => Err(m),
            None => Err(String::from_str("Helper reported failure.")),
        }
    }
}

/// An optional string field of a payload: absent when missing or not a
/// string.
pub open spec fn opt_string_spec(payload: JsonV, key: Seq<char>) -> Option<Seq<char>> {
    read_string_spec(payload, key)
}

/// Read an optional string field.
pub fn read_opt_string(payload: &JsonValue, key: &str) -> (r: Option<String>)
    ensures
        match r {
            Some(s) => opt_string_spec(payload@, key@) == Some(s@),
            None => opt_string_spec(payload@, key@) is None,
        },
{
    match payload.get(key) {
        Some(value) => {
            match value.as_str_opt() {
                Some(s) => Some(s.clone()),
                None => None,
            }
        },
        None => None,
    }
}

/// An optional boolean field of a payload.
pub open spec fn opt_bool_spec(payload: JsonV, key: Seq<char>) -> Option<bool> {
    match get_spec(payload, key) {
        Some(JsonV::Bool(b)) => Some(b),
        _ => None,
    }
}

/// Read an optional boolean field.
pub fn read_opt_bool(payload: &JsonValue, key: &str) -> (r: Option<bool>)
    ensures
        r == opt_bool_spec(payload@, key@),
{
    match payload.get(key) {
        Some(value) => {
            match value.as_bool_opt() {
                Some(b) => Some(b),
                None => None,
            }
        },
        None => None,
    }
}

pub struct WipeDeviceRequest {
    pub device_identifier: String,
    pub table_type: String,
    pub format_type: String,
    pub label: String,
}

impl WipeDeviceRequest {
    /// Extract a wipe request from its payload.
    pub fn from_payload(payload: &JsonValue) -> (r: Result<WipeDeviceRequest, String>)
        ensures
            match r {
                Ok(q) => {
                    &&& read_string_spec(payload@, "deviceIdentifier"@) == Some(
                        q.device_identifier@,
                    )
                    &&& read_string_spec(payload@, "tableType"@) == Some(q.table_type@)
                    &&& read_string_spec(payload@, "formatType"@) == Some(q.format_type@)
                    &&& read_string_spec(payload@, "label"@) == Some(q.label@)
                },
                Err(e) => {
                    ||| (read_string_spec(payload@, "deviceIdentifier"@) is None && e@
                        == "Missing field: deviceIdentifier"@)
                    ||| (read_string_spec(payload@, "tableType"@) is None && e@
                        == "Missing field: tableType"@)
                    ||| (read_string_spec(payload@, "formatType"@) is None && e@
                        == "Missing field: formatType"@)
                    ||| (read_string_spec(payload@, "label"@) is None && e@
                        == "Missing field: label"@)
                },
            },
    {
        proof {
            reveal_strlit("Missing field: ");
            reveal_strlit("deviceIdentifier");
            reveal_strlit("tableType");
            reveal_strlit("formatType");
            reveal_strlit("label");
            reveal_strlit("Missing field: deviceIdentifier");
            reveal_strlit("Missing field: tableType");
            reveal_strlit("Missing field: formatType");
            reveal_strlit("Missing field: label");
            assert("Missing field: "@ + "deviceIdentifier"@ =~= "Missing field: deviceIdentifier"@);
            assert("Missing field: "@ + "tableType"@ =~= "Missing field: tableType"@);
            assert("Missing field: "@ + "formatType"@ =~= "Missing field: formatType"@);
            assert("Missing field: "@ + "label"@ =~= "Missing field: label"@);
        }
        let device_identifier = read_string(payload, "deviceIdentifier")?;
        let table_type = read_string(payload, "tableType")?;
        let format_type = read_string(payload, "formatType")?;
        let label = read_string(payload, "label")?;
        Ok(WipeDeviceRequest { device_identifier, table_type, format_type, label })
    }
}

pub struct SecureEraseRequest {
    pub device_identifier: String,
    pub level: u64,
}

pub struct PartitionTableRequest {
    pub device_identifier: String,
    pub table_type: String,
}

pub struct CreatePartitionRequest {
    pub device_identifier: String,
    pub format_type: String,
    pub label: String,
    pub size: String,
}

pub struct DeletePartitionRequest {
    pub partition_identifier: String,
}

pub struct FormatPartitionRequest {
    pub partition_identifier: String,
    pub format_type: String,
    pub label: String,
}

pub struct SetLabelUuidRequest {
    pub partition_identifier: String,
    pub label: Option<String>,
    pub uuid: Option<String>,
}

pub struct CheckPartitionRequest {
    pub partition_identifier: String,
    pub repair: Option<bool>,
}

pub struct ResizePartitionRequest {
    pub partition_identifier: String,
    pub new_size: String,
}

pub struct MovePartitionRequest {
    pub partition_identifier: String,
    pub new_start: String,
}

pub struct CopyPartitionRequest {
    pub source_partition: String,
    pub target_device: String,
}

pub struct FlashImageRequest {
    pub source_path: String,
    pub target_device: String,
    pub verify: Option<bool>,
}

pub struct InspectImageRequest {
    pub source_path: String,
}

pub struct HashImageRequest {
    pub source_path: String,
}

pub struct BackupImageRequest {
    pub source_device: String,
    pub target_path: String,
    pub compress: Option<bool>,
}

pub struct WindowsInstallRequest {
    pub source_path: String,
    pub target_device: String,
    pub label: Option<String>,
    pub tpm_bypass: Option<bool>,
    pub local_account: Option<bool>,
    pub privacy_defaults: Option<bool>,
}

pub struct PreflightRequest {
    pub device_identifier: Option<String>,
    pub partition_identifier: Option<String>,
    pub operation: String,
    pub format_type: Option<String>,
    pub new_size: Option<String>,
}

pub struct ForceUnmountRequest {
    pub device_identifier: Option<String>,
    pub partition_identifier: Option<String>,
}

pub struct ApfsAddVolumeRequest {
    pub container_identifier: String,
    pub name: String,
    pub role: Option<String>,
}

pub struct ApfsDeleteVolumeRequest {
    pub volume_identifier: String,
}

pub struct ApfsVolumeInfo {
    pub identifier: String,
    pub name: String,
    pub roles: Vec<String>,
    pub volume_group_uuid: Option<String>,
    pub volume_group_role: Option<String>,
    pub volume_group_name: Option<String>,
    pub sealed: Option<bool>,
    pub size: u64,
    pub used: u64,
    pub mount_point: Option<String>,
}

pub struct ApfsContainerInfo {
    pub container_identifier: String,
    pub container_uuid: Option<String>,
    pub capacity: Option<u64>,
    pub capacity_free: Option<u64>,
    pub capacity_used: Option<u64>,
    pub volumes: Vec<ApfsVolumeInfo>,
}

pub struct SidecarStatus {
    pub name: String,
    pub found: bool,
    pub path: Option<String>,
    pub version: Option<String>,
}

pub struct PartitionBounds {
    pub offset: u64,
    pub size: u64,
    pub min_start: u64,
    pub max_start: u64,
    pub block_size: u64,
}

pub struct PartitionEntry {
    pub identifier: String,
    pub name: String,
    pub size: u64,
    pub offset: Option<u64>,
    pub content: String,
    pub mount_point: Option<String>,
    pub is_protected: bool,
    pub protection_reason: Option<String>,
    pub fs_type: Option<String>,
}

pub struct PartitionDevice {
    pub identifier: String,
    pub size: u64,
    pub internal: bool,
    pub is_solid_state: bool,
    pub bus_protocol: Option<String>,
    pub content: String,
    pub parent_device: Option<String>,
    pub partitions: Vec<PartitionEntry>,
    pub is_protected: bool,
    pub protection_reason: Option<String>,
}

/// The preferred identifier of a preflight or force-unmount payload:
/// the partition identifier when present, else the device identifier.
pub fn read_target_identifier(payload: &JsonValue) -> (r: Result<String, String>)
    ensures
        match r {
            Ok(s) => (opt_string_spec(payload@, "partitionIdentifier"@) == Some(s@)) || (
            opt_string_spec(payload@, "partitionIdentifier"@) is None && opt_string_spec(
                payload@,
                "deviceIdentifier"@,
            ) == Some(s@)),
            Err(e) => opt_string_spec(payload@, "partitionIdentifier"@) is None
                && opt_string_spec(payload@, "deviceIdentifier"@) is None && e@
                == "Missing device identifier"@,
        },
{
    match read_opt_string(payload, "partitionIdentifier") {
        Some(s) => Ok(s),
        None => {
            match read_opt_string(payload, "deviceIdentifier") {
                Some(s) => Ok(s),
                None => Err(String::from_str("Missing device identifier")),
            }
        },
    }
}

} // verus!
