//! Request and response records of the QR service, and their default values.

use vstd::prelude::*;
use vstd::string::*;

verus! {

/// An API key that passed authentication.
pub struct AuthenticatedKey {
    pub id: String,
    pub name: String,
    pub is_admin: bool,
}

/// Address of the client, for rate limiting public routes.
pub struct ClientIp(pub String);

/// Optional metadata recorded with a scan of a short URL.
pub struct ScanMeta {
    pub user_agent: Option<String>,
    pub referrer: Option<String>,
}

/// Output format used when a request names none.
pub fn default_format() -> (r: String)
    ensures
        r@ == "png"@,
{
    String::from_str("png")
}

/// Image size used when a request names none.
pub fn default_size() -> (r: u32)
    ensures
        r == 256,
{
    256
}

/// Foreground colour used when a request names none.
pub fn default_fg_color() -> (r: String)
    ensures
        r@ == "#000000"@,
{
    String::from_str("#000000")
}

/// Background colour used when a request names none.
pub fn default_bg_color() -> (r: String)
    ensures
        r@ == "#FFFFFF"@,
{
    String::from_str("#FFFFFF")
}

/// Error-correction level used when a request names none.
pub fn default_error_correction() -> (r: String)
    ensures
        r@ == "M"@,
{
    String::from_str("M")
}

/// Module style used when a request names none.
pub fn default_style() -> (r: String)
    ensures
        r@ == "square"@,
{
    String::from_str("square")
}

/// WiFi encryption used when a template names none.
pub fn default_wifi_encryption() -> (r: String)
    ensures
        r@ == "WPA2"@,
{
    String::from_str("WPA2")
}

/// Requests per window granted to a new API key when none is given.
pub fn default_rate_limit() -> (r: i64)
    ensures
        r == 100,
{
    100
}

/// A request to generate one QR code.
pub struct GenerateRequest {
    pub data: String,
    pub format: String,
    pub size: u32,
    pub fg_color: String,
    pub bg_color: String,
    pub error_correction: String,
    pub style: String,
}

impl GenerateRequest {
    /// A request for `data` with every other field at its default.
    pub fn with_defaults(data: String) -> (r: GenerateRequest)
        ensures
            r.data@ == data@,
            r.format@ == "png"@,
            r.size == 256,
            r.fg_color@ == "#000000"@,
            r.bg_color@ == "#FFFFFF"@,
            r.error_correction@ == "M"@,
            r.style@ == "square"@,
    {
        GenerateRequest {
            data,
            format: default_format(),
            size: default_size(),
            fg_color: default_fg_color(),
            bg_color: default_bg_color(),
            error_correction: default_error_correction(),
            style: default_style(),
        }
    }
}

/// A request to generate several QR codes.
pub struct BatchGenerateRequest {
    pub items: Vec<GenerateRequest>,
}

/// Fields of the WiFi template.
pub struct WifiTemplateRequest {
    pub ssid: String,
    pub password: String,
    pub encryption: String,
    pub hidden: bool,
    pub format: String,
    pub size: u32,
}

/// Fields of the contact-card template.
pub struct VCardTemplateRequest {
    pub name: String,
    pub email: Option<String>,
    pub phone: Option<String>,
    pub org: Option<String>,
    pub title: Option<String>,
    pub url: Option<String>,
    pub format: String,
    pub size: u32,
}

/// Fields of the URL template.
pub struct UrlTemplateRequest {
    pub url: String,
    pub utm_source: Option<String>,
    pub utm_medium: Option<String>,
    pub utm_campaign: Option<String>,
    pub format: String,
    pub size: u32,
}

/// A template request, by template type.
pub enum TemplateRequest {
    Wifi(WifiTemplateRequest),
    VCard(VCardTemplateRequest),
    Url(UrlTemplateRequest),
}

/// A generated QR code.
pub struct QrResponse {
    pub image_base64: String,
    pub share_url: String,
    pub format: String,
    pub size: u32,
    pub data: String,
}

/// The QR codes of a batch.
pub struct BatchQrResponse {
    pub items: Vec<QrResponse>,
    pub total: usize,
}

/// The text found in an uploaded image.
pub struct DecodeResponse {
    pub data: String,
    pub format: String,
}

/// A request to create an API key.
pub struct CreateKeyRequest {
    pub name: String,
    pub rate_limit: i64,
}

/// An API key as listed or created.
pub struct KeyResponse {
    pub id: String,
    pub name: String,
    pub key: Option<String>,
    pub created_at: String,
    pub last_used_at: Option<String>,
    pub requests_count: i64,
    pub rate_limit: i64,
    pub active: bool,
}

/// An error body.
pub struct ApiError {
    pub error: String,
    pub code: String,
    pub status: u16,
}

/// The health report.
pub struct HealthResponse {
    pub status: String,
    pub version: String,
    pub uptime_seconds: u64,
}

/// Reports the service as up, with its version.
pub fn health(version: &str) -> (r: HealthResponse)
    ensures
        r.status@ == "ok"@,
        r.version@ == version@,
        r.uptime_seconds == 0,
{
    HealthResponse { status: String::from_str("ok"), version: version.to_owned(), uptime_seconds: 0 }
}

/// A request to create a tracked QR code behind a short URL.
pub struct CreateTrackedQrRequest {
    pub target_url: String,
    pub format: String,
    pub size: u32,
    pub fg_color: String,
    pub bg_color: String,
    pub error_correction: String,
    pub style: String,
    pub short_code: Option<String>,
    pub expires_at: Option<String>,
}

/// A created tracked QR code.
pub struct TrackedQrResponse {
    pub id: String,
    pub qr_id: String,
    pub short_code: String,
    pub short_url: String,
    pub target_url: String,
    pub scan_count: i64,
    pub expires_at: Option<String>,
    pub created_at: String,
    pub qr: QrResponse,
}

/// One recorded scan.
pub struct ScanEventResponse {
    pub id: String,
    pub scanned_at: String,
    pub user_agent: Option<String>,
    pub referrer: Option<String>,
}

/// Scan statistics of a tracked QR code.
pub struct TrackedQrStatsResponse {
    pub id: String,
    pub short_code: String,
    pub target_url: String,
    pub scan_count: i64,
    pub expires_at: Option<String>,
    pub created_at: String,
    pub recent_scans: Vec<ScanEventResponse>,
}

/// A tracked QR code in a listing.
pub struct TrackedQrListItem {
    pub id: String,
    pub short_code: String,
    pub target_url: String,
    pub scan_count: i64,
    pub expires_at: Option<String>,
    pub created_at: String,
}

/// A page of tracked QR codes.
pub struct TrackedQrListResponse {
    pub items: Vec<TrackedQrListItem>,
    pub total: usize,
}

} // verus!
