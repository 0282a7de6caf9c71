//! The payloads carried by `DATA_*` messages. The platform reads and writes them as JSON
//! (camel-case names); here they are plain values.
use vstd::prelude::*;

verus! {

/// `DATA_NOTIFICATION`.
#[derive(Debug, Clone)]
pub struct Notification {
    pub package_name: String,
    pub app_name: String,
    pub title: String,
    pub text: String,
    pub time: i64,
    pub is_locked: bool,
}

/// `DATA_MEDIAPLAY` / `DATA_SUPERISLAND`.
#[derive(Debug, Clone)]
pub struct MediaPayload {
    pub package_name: String,
    pub app_name: String,
    pub title: Option<String>,
    pub text: Option<String>,
    pub time: i64,
    pub is_locked: bool,
    pub media_type: String,
    pub cover_url: Option<String>,
    pub terminate_value: Option<String>,
    pub feature_key_name: Option<String>,
    pub feature_key_value: Option<String>,
    /// Picture name -> picture.
    pub pics: Option<Vec<(String, String)>>,
    pub hash: Option<String>,
    pub param_v2_raw: Option<String>,
    pub changes: Option<MediaPayloadChanges>,
}

/// The changes of a delta media / Super Island payload.
#[derive(Debug, Clone)]
pub struct MediaPayloadChanges {
    pub title: Option<String>,
    pub text: Option<String>,
    pub param_v2_raw: Option<String>,
    pub pics: Option<Vec<(String, String)>>,
    pub pics_removed: Option<Vec<String>>,
}

/// `DATA_MEDIA_CONTROL`.
#[derive(Debug, Clone)]
pub struct MediaControl {
    pub action: String,
    pub result: Option<String>,
}

/// `DATA_CLIPBOARD`.
#[derive(Debug, Clone)]
pub struct ClipboardData {
    pub clipboard_type: String,
    pub content: String,
    pub time: i64,
}

/// `DATA_ICON_REQUEST`.
#[derive(Debug, Clone)]
pub struct IconRequest {
    pub request_type: Option<String>,
    pub package_name: Option<String>,
    pub package_names: Option<Vec<String>>,
    pub time: i64,
}

/// `DATA_ICON_RESPONSE`.
#[derive(Debug, Clone)]
pub struct IconResponse {
    pub response_type: Option<String>,
    pub package_name: Option<String>,
    pub icon_data: Option<String>,
    pub icons: Option<Vec<IconItem>>,
    /// The `missing` value as JSON text.
    pub missing: Option<String>,
    pub time: i64,
}

/// One icon of a batch answer.
#[derive(Debug, Clone)]
pub struct IconItem {
    pub package_name: String,
    pub icon_data: String,
}

/// `DATA_APP_LIST_REQUEST`.
#[derive(Debug, Clone)]
pub struct AppListRequest {
    pub request_type: Option<String>,
    pub scope: String,
    pub time: i64,
}

/// `DATA_APP_LIST_RESPONSE`.
#[derive(Debug, Clone)]
pub struct AppListResponse {
    pub response_type: Option<String>,
    pub scope: String,
    pub total: i32,
    pub apps: Vec<AppInfo>,
    pub time: i64,
}

/// One installed application.
#[derive(Debug, Clone)]
pub struct AppInfo {
    pub package_name: String,
    pub app_name: String,
}

/// `DATA_FTP`.
#[derive(Debug, Clone)]
pub struct FtpMessage {
    pub action: String,
    pub username: Option<String>,
    pub password: Option<String>,
    pub ip_address: Option<String>,
    pub port: Option<u16>,
}

/// `DATA_STATUS`.
#[derive(Debug, Clone)]
pub struct StatusMessage {
    pub original_header: String,
    pub result: String,
    pub error_code: Option<String>,
    pub error_message: Option<String>,
    pub request_id: Option<String>,
    pub action: Option<String>,
    pub hash: Option<String>,
    pub feature_key_value: Option<String>,
}

/// `DATA_APP_LAUNCH`.
#[derive(Debug, Clone)]
pub struct AppLaunch {
    pub action: String,
    pub package_name: String,
    pub display_id: Option<i32>,
}

} // verus!
