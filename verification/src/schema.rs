//! Types for representing analyticsd database contents and what is learned
//! from them.
use crate::category::Category;
use crate::json::JsonValue;
use crate::text::string_of;
use vstd::prelude::*;

verus! {

broadcast use vstd::string::group_string_axioms;

/// A transform definition parsed from the `transform_def` JSON column in config.sqlite.
#[derive(Debug, Clone)]
pub struct TransformDef {
    /// Human-readable name of the transform (e.g. "AppUsage_Aggregate").
    pub name: String,
    /// Unique identifier matching state.sqlite entries.
    pub uuid: String,
    /// Transform type (e.g. "aggregate", "sample").
    pub transform_type: String,
    /// Dimension columns — keys in the aggregation.
    pub dimensions: Vec<Dimension>,
    /// Measure columns — aggregated values.
    pub measures: Vec<Measure>,
}

/// A dimension (grouping key) within a transform definition.
#[derive(Debug, Clone)]
pub struct Dimension {
    /// Column name for this dimension.
    pub name: String,
    /// Data type (e.g. "string", "int").
    pub dim_type: String,
}

/// A measure (aggregated value) within a transform definition.
#[derive(Debug, Clone)]
pub struct Measure {
    /// Column name for this measure.
    pub name: String,
    /// Aggregation function (e.g. "sum", "count").
    pub function: String,
    /// Data type (e.g. "int", "float").
    pub value_type: String,
}

/// A decoded telemetry record produced by joining config and state databases.
#[derive(Debug)]
pub struct DecodedRecord {
    /// Event names associated with this transform.
    pub event_names: Vec<String>,
    /// Name of the transform that produced this record.
    pub transform_name: String,
    /// Telemetry category derived from event name.
    pub category: Category,
    /// Config type: "OptOut" or "Main".
    pub config_type: String,
    /// Whether the config was enabled.
    pub config_enabled: bool,
    /// Labeled field values: dimension names + measure names zipped with their values.
    pub fields: Vec<(String, JsonValue)>,
    /// Number of events aggregated into this record.
    pub event_count: u64,
}

/// Config metadata associated with a transform.
#[derive(Debug, Clone)]
pub struct ConfigInfo {
    /// Config type: "OptOut" or "Main".
    pub config_type: String,
    /// Whether the config is enabled.
    pub config_enabled: bool,
}

/// Information about an event type from config.sqlite.
#[derive(Debug, Clone)]
pub struct EventInfo {
    /// Fully qualified event name.
    pub event_name: String,
    /// Category derived from the event name.
    pub category: Category,
    /// Number of transforms associated with this event.
    pub transform_count: u32,
}

/// High-level summary of collected telemetry.
#[derive(Debug)]
pub struct Summary {
    /// Number of decoded records per category.
    pub category_counts: Vec<(Category, usize)>,
    /// Number of records from OptOut configs.
    pub opt_out_count: usize,
    /// Number of records from Main configs.
    pub main_count: usize,
    /// Total decoded records.
    pub total_records: usize,
    /// Top events by record count.
    pub top_events: Vec<(String, usize)>,
    /// Collection time periods from agg_session.
    pub collection_periods: Vec<CollectionPeriod>,
    /// Device state key-value pairs from queried_states.
    pub queried_states: Vec<(String, String)>,
    /// Extracted insights from the data.
    pub insights: Insights,
}

/// Extracted high-level insights — the "what Apple knows about you" highlights.
#[derive(Debug)]
pub struct Insights {
    /// Apps tracked with name, version, and active seconds.
    pub apps: Vec<AppInsight>,
    /// ML models loaded on-device (name, bundle, compute unit).
    pub ml_models: Vec<MlModelInsight>,
    /// Intelligence views generated (behavioral predictions).
    pub intelligence_views: Vec<String>,
    /// Bluetooth devices found nearby.
    pub bt_devices_found: u64,
    /// WiFi networks scanned.
    pub wifi_scans: usize,
    /// Executable binaries measured by syspolicy.
    pub executables_measured: usize,
    /// Fingerprinted binaries with CDHash and signing ID.
    pub fingerprinted_binaries: Vec<BinaryFingerprint>,
    /// Behavioral profiling domains and item counts.
    pub profiling_items: u64,
    /// Data pipeline: where collected data gets sent.
    pub data_sinks: Vec<SinkInfo>,
    /// Sampling: how many transforms are actively collected vs sampled out.
    pub sampling: SamplingInfo,
    /// Event enrichment rules that inject device state into events.
    pub enrichment_rules: usize,
    /// Total event types defined in config.
    pub total_event_types: usize,
    /// Transforms disabled by Apple (hit budget cap).
    pub budget_disabled: Vec<String>,
    /// Device identity information extracted from telemetry.
    pub device: DeviceInsight,
    /// WiFi link sessions, one per network (by OUI).
    pub wifi_sessions: Vec<WifiSessionInsight>,
    /// Bluetooth scanning per app.
    pub bt_scans: Vec<BluetoothScanInsight>,
    /// Safari browsing profile.
    pub safari: SafariInsight,
    /// Privacy tool awareness.
    pub privacy: PrivacyInsight,
    /// Location tracking profile.
    pub location: LocationInsight,
    /// Legacy security API usage per app.
    pub security_apis: Vec<SecurityApiInsight>,
    /// Photos library profile.
    pub photos: PhotosInsight,
    /// Behavioral feedback domains.
    pub behavioral_domains: Vec<String>,
}

/// Device identity information Apple has collected.
#[derive(Debug, Clone)]
pub struct DeviceInsight {
    /// Platform (e.g. "macOS").
    pub platform: String,
    /// OS version range (e.g. "26.0-26.1").
    pub os_version: String,
    /// Safari version string (e.g. "622.2.11.11.9").
    pub safari_version: String,
    /// WiFi radio technology (e.g. "11AX" = WiFi 6).
    pub wifi_radio: String,
    /// Primary network interface (e.g. "WiFi").
    pub network_interface: String,
    /// Thermal pressure level (e.g. "Nominal").
    pub thermal_state: String,
    /// Low-power mode status.
    pub low_power_mode: String,
    /// Device model hash (opaque identifier from Tips URL).
    pub model_hash: String,
    /// Apple Intelligence locale.
    pub ai_locale: String,
}

/// Where collected data goes.
#[derive(Debug, Clone)]
pub struct SinkInfo {
    /// Sink name (Daily, Never, 90Day, da2).
    pub name: String,
    /// Number of transforms feeding this sink.
    pub transform_count: usize,
}

/// Sampling breakdown across transforms.
#[derive(Debug, Clone, Copy, PartialEq, Eq, Structural)]
pub struct SamplingInfo {
    /// Transforms actively collecting on this device.
    pub collecting: usize,
    /// Transforms this device was sampled OUT of.
    pub sampled_out: usize,
    /// Transforms with no sampling (always collected).
    pub unsampled: usize,
}

/// An app tracked by appUsage.
#[derive(Debug, Clone)]
pub struct AppInsight {
    /// Bundle identifier or description.
    pub name: String,
    /// App version string.
    pub version: String,
    /// Seconds of active (foreground) use.
    pub active_seconds: i64,
    /// Total uptime in seconds.
    pub uptime_seconds: i64,
    /// Whether the app was used in the foreground.
    pub foreground: bool,
    /// Number of times the user switched to this app.
    pub activations: i64,
    /// Number of times the app was launched.
    pub launches: i64,
    /// Short capability indicators: C=clipboard, K=keychain, N=network, S=security.
    pub caps: String,
}

/// A binary fingerprinted by syspolicy ExecutableMeasurement.
#[derive(Debug, Clone)]
pub struct BinaryFingerprint {
    /// Content hash of the binary (CDHash).
    pub cdhash: String,
    /// Code-signing identifier.
    pub signing_id: String,
}

/// An ML model loaded on-device.
#[derive(Debug, Clone)]
pub struct MlModelInsight {
    /// Model name (e.g. "punc_model").
    pub name: String,
    /// Bundle that loaded it.
    pub bundle: String,
    /// Compute unit (CPU, ANE, GPU).
    pub compute_unit: String,
}

/// A collection time period from the agg_session table.
#[derive(Debug, Clone)]
pub struct CollectionPeriod {
    /// Start timestamp (ISO text, e.g. "2026-03-30T00:09:02").
    pub start_timestamp: String,
    /// End boundary timestamp (ISO text).
    pub end_boundary: String,
    /// Period type: 0=daily, 1=weekly, 2=monthly, 3=quarterly.
    pub period_type: i64,
}

/// The label of a period type.
pub open spec fn period_label_text(period_type: i64) -> Seq<char> {
    if period_type == 0 {
        "daily"@
    } else if period_type == 1 {
        "weekly"@
    } else if period_type == 2 {
        "monthly"@
    } else if period_type == 3 {
        "quarterly"@
    } else {
        "unknown"@
    }
}

impl CollectionPeriod {
    /// Returns a human-readable label for the period type.
    pub fn period_label(&self) -> (r: &'static str)
        ensures
            r@ == period_label_text(self.period_type),
    {
        match self.period_type {
            0 => "daily",
            1 => "weekly",
            2 => "monthly",
            3 => "quarterly",
            _ => "unknown",
        }
    }
}

/// A raw row from the transform_states table before decoding.
#[derive(Debug, Clone)]
pub struct TransformStateRow {
    /// The transform UUID linking to config.sqlite.
    pub transform_uuid: String,
    /// JSON array of dimension values.
    pub transform_key: String,
    /// JSON array of measure values.
    pub transform_value: String,
    /// Number of events aggregated.
    pub event_count: u64,
}

/// Everything Apple tracks about a single application.
#[derive(Debug, Clone)]
pub struct AppProfile {
    /// Bundle identifier (e.g. "com.apple.Safari").
    pub bundle_id: String,
    /// App version string.
    pub version: String,
    /// Seconds of active (foreground) use.
    pub active_seconds: i64,
    /// Total uptime in seconds.
    pub uptime_seconds: i64,
    /// Whether the app was used in the foreground.
    pub foreground: bool,
    /// Number of times the user switched to this app.
    pub activations: i64,
    /// Number of times the app was launched.
    pub launches: i64,
    /// Detected capabilities (clipboard, keychain, network access).
    pub capabilities: Vec<AppCapability>,
    /// Fingerprinted binaries associated with this app.
    pub binaries: Vec<BinaryFingerprint>,
    /// Security API calls detected.
    pub security_apis: Vec<String>,
    /// Network transfer information.
    pub network: AppNetworkInfo,
    /// Hardware-related key-value pairs (GPU, CPU, Metal, memory, thermal).
    pub hardware: Vec<(String, String)>,
    /// Total number of telemetry records referencing this app.
    pub record_count: usize,
}

/// Some capability of the list has the given kind.
pub open spec fn has_capability(caps: Seq<AppCapability>, kind: Seq<char>) -> bool {
    exists|i: int| 0 <= i < caps.len() && caps[i].kind@ == kind
}

/// The short capability string of a profile's capabilities and security APIs.
pub open spec fn caps_text(caps: Seq<AppCapability>, security_api_count: nat) -> Seq<char> {
    (if has_capability(caps, "Clipboard"@) {
        seq!['C']
    } else {
        Seq::empty()
    }) + (if has_capability(caps, "Keychain"@) {
        seq!['K']
    } else {
        Seq::empty()
    }) + (if has_capability(caps, "NetworkOutgoing"@) {
        seq!['N']
    } else {
        Seq::empty()
    }) + (if security_api_count > 0 {
        seq!['S']
    } else {
        Seq::empty()
    })
}

/// Whether some capability in the list has the given kind.
pub fn any_capability(caps: &Vec<AppCapability>, kind: &str) -> (r: bool)
    ensures
        r == has_capability(caps@, kind@),
{
    let mut i: usize = 0;
    while i < caps.len()
        invariant
            i <= caps.len(),
            forall|j: int| 0 <= j < i ==> caps@[j].kind@ != kind@,
        decreases caps.len() - i,
    {
        if crate::text::str_eq(caps[i].kind.as_str(), kind) {
            return true;
        }
        i = i + 1;
    }
    false
}

impl AppProfile {
    /// Short capability string: C=clipboard, K=keychain, N=network, S=security.
    pub fn caps_string(&self) -> (s: String)
        ensures
            s@ == caps_text(self.capabilities@, self.security_apis@.len()),
    {
        let mut s = String::new();
        if any_capability(&self.capabilities, "Clipboard") {
            crate::text::push_char(&mut s, 'C');
        }
        if any_capability(&self.capabilities, "Keychain") {
            crate::text::push_char(&mut s, 'K');
        }
        if any_capability(&self.capabilities, "NetworkOutgoing") {
            crate::text::push_char(&mut s, 'N');
        }
        if self.security_apis.len() > 0 {
            crate::text::push_char(&mut s, 'S');
        }
        assert(s@ =~= caps_text(self.capabilities@, self.security_apis@.len()));
        s
    }
}

/// A detected capability for an application.
#[derive(Debug, Clone)]
pub struct AppCapability {
    /// Capability kind: "Clipboard", "Keychain", "NetworkOutgoing".
    pub kind: String,
    /// The event that revealed this capability.
    pub source_event: String,
}

/// Network transfer information for an application.
#[derive(Debug, Clone)]
pub struct AppNetworkInfo {
    /// Network interface type (e.g. "WiFi", "Cellular").
    pub interface: String,
    /// Raw network byte values from records.
    pub bytes_values: Vec<i64>,
}

/// A WiFi link session with one network.
#[derive(Debug, Clone)]
pub struct WifiSessionInsight {
    /// Organizationally unique identifier of the access point.
    pub oui: String,
    /// Country code the network advertised.
    pub country: String,
    /// Frequency band.
    pub band: String,
    /// Whether the network was a personal hotspot.
    pub is_personal_hotspot: bool,
    /// Whether the network used WPA3.
    pub has_wpa3: bool,
    /// Why the device joined.
    pub join_reason: String,
    /// Why the device disconnected.
    pub disconnect_reason: String,
    /// Private MAC address mode.
    pub private_mac_type: String,
    /// Session duration in seconds.
    pub session_duration_secs: i64,
    /// Bytes received.
    pub rx_bytes: i64,
    /// Bytes sent.
    pub tx_bytes: i64,
}

/// Bluetooth scanning by one app.
#[derive(Debug, Clone)]
pub struct BluetoothScanInsight {
    /// Bundle identifier of the scanning app.
    pub bundle_id: String,
    /// Declared use case of the scan.
    pub use_case: String,
    /// Largest number of unique devices found in one session.
    pub max_devices_found: u64,
    /// Largest number of paired devices found in one session.
    pub paired_found: u64,
    /// Number of scan sessions.
    pub scan_count: u64,
}

/// Safari browsing profile.
#[derive(Debug, Clone)]
pub struct SafariInsight {
    /// Default search provider.
    pub search_engine: String,
    /// Region of the user.
    pub user_region: String,
    /// Largest bucketed tab count.
    pub tab_count: u64,
    /// Number of search records.
    pub search_count: u64,
    /// Number of form submission records.
    pub form_submissions: u64,
    /// Distinct webpage locales, in order of appearance.
    pub webpage_locales: Vec<String>,
}

/// Privacy tool awareness.
#[derive(Debug, Clone)]
pub struct PrivacyInsight {
    /// A VPN was connected.
    pub vpn_detected: bool,
    /// A content filter was connected.
    pub content_filter_detected: bool,
    /// A DNS proxy was connected.
    pub dns_proxy_detected: bool,
    /// iCloud Private Relay status.
    pub private_relay_status: String,
    /// Largest DNS stall count.
    pub dns_stalls: i64,
    /// Largest connection failure count.
    pub connection_failures: i64,
}

/// Location tracking profile.
#[derive(Debug, Clone)]
pub struct LocationInsight {
    /// A home location was identified.
    pub home_detected: bool,
    /// Largest WiFi-based location query count.
    pub location_queries: u64,
    /// Total location awareness heartbeats.
    pub heartbeat_count: u64,
    /// Point-of-interest tiles were downloaded.
    pub poi_tile_downloads: bool,
}

/// Legacy security APIs called by one app.
#[derive(Debug, Clone)]
pub struct SecurityApiInsight {
    /// The app.
    pub app: String,
    /// Distinct APIs it called, in order of appearance.
    pub apis: Vec<String>,
}

/// Photos library profile (the analysis progress values, which are
/// fractions, are kept by the program around the library).
#[derive(Debug, Clone)]
pub struct PhotosInsight {
    /// Largest total asset count.
    pub total_assets: u64,
    /// Largest moment count.
    pub moments: u64,
    /// Library size range.
    pub library_size: String,
    /// An Apple Music subscription was seen.
    pub has_apple_music: bool,
    /// iCloud Photos was enabled.
    pub icloud_photos_enabled: bool,
}

/// Device insight with every field empty.
pub open spec fn device_is_empty(d: DeviceInsight) -> bool {
    &&& d.platform@.len() == 0
    &&& d.os_version@.len() == 0
    &&& d.safari_version@.len() == 0
    &&& d.wifi_radio@.len() == 0
    &&& d.network_interface@.len() == 0
    &&& d.thermal_state@.len() == 0
    &&& d.low_power_mode@.len() == 0
    &&& d.model_hash@.len() == 0
    &&& d.ai_locale@.len() == 0
}

impl Default for DeviceInsight {
    fn default() -> (r: Self)
        ensures
            device_is_empty(r),
    {
        DeviceInsight {
            platform: String::new(),
            os_version: String::new(),
            safari_version: String::new(),
            wifi_radio: String::new(),
            network_interface: String::new(),
            thermal_state: String::new(),
            low_power_mode: String::new(),
            model_hash: String::new(),
            ai_locale: String::new(),
        }
    }
}

impl Default for SamplingInfo {
    fn default() -> (r: Self)
        ensures
            r == (SamplingInfo { collecting: 0, sampled_out: 0, unsampled: 0 }),
    {
        SamplingInfo { collecting: 0, sampled_out: 0, unsampled: 0 }
    }
}

impl Default for AppNetworkInfo {
    fn default() -> (r: Self)
        ensures
            r.interface@.len() == 0,
            r.bytes_values@.len() == 0,
    {
        AppNetworkInfo { interface: String::new(), bytes_values: Vec::new() }
    }
}

/// Safari profile with nothing recorded.
pub open spec fn safari_is_empty(s: SafariInsight) -> bool {
    &&& s.search_engine@.len() == 0
    &&& s.user_region@.len() == 0
    &&& s.tab_count == 0
    &&& s.search_count == 0
    &&& s.form_submissions == 0
    &&& s.webpage_locales@.len() == 0
}

impl Default for SafariInsight {
    fn default() -> (r: Self)
        ensures
            safari_is_empty(r),
    {
        SafariInsight {
            search_engine: String::new(),
            user_region: String::new(),
            tab_count: 0,
            search_count: 0,
            form_submissions: 0,
            webpage_locales: Vec::new(),
        }
    }
}

/// Privacy profile with nothing recorded.
pub open spec fn privacy_is_empty(p: PrivacyInsight) -> bool {
    &&& !p.vpn_detected
    &&& !p.content_filter_detected
    &&& !p.dns_proxy_detected
    &&& p.private_relay_status@.len() == 0
    &&& p.dns_stalls == 0
    &&& p.connection_failures == 0
}

impl Default for PrivacyInsight {
    fn default() -> (r: Self)
        ensures
            privacy_is_empty(r),
    {
        PrivacyInsight {
            vpn_detected: false,
            content_filter_detected: false,
            dns_proxy_detected: false,
            private_relay_status: String::new(),
            dns_stalls: 0,
            connection_failures: 0,
        }
    }
}

impl Default for LocationInsight {
    fn default() -> (r: Self)
        ensures
            !r.home_detected && r.location_queries == 0 && r.heartbeat_count == 0
                && !r.poi_tile_downloads,
    {
        LocationInsight {
            home_detected: false,
            location_queries: 0,
            heartbeat_count: 0,
            poi_tile_downloads: false,
        }
    }
}

/// Photos profile with nothing recorded.
pub open spec fn photos_is_empty(p: PhotosInsight) -> bool {
    &&& p.total_assets == 0
    &&& p.moments == 0
    &&& p.library_size@.len() == 0
    &&& !p.has_apple_music
    &&& !p.icloud_photos_enabled
}

impl Default for PhotosInsight {
    fn default() -> (r: Self)
        ensures
            photos_is_empty(r),
    {
        PhotosInsight {
            total_assets: 0,
            moments: 0,
            library_size: String::new(),
            has_apple_music: false,
            icloud_photos_enabled: false,
        }
    }
}

/// Insights with nothing recorded.
pub open spec fn insights_is_empty(i: Insights) -> bool {
    &&& i.apps@.len() == 0
    &&& i.ml_models@.len() == 0
    &&& i.intelligence_views@.len() == 0
    &&& i.bt_devices_found == 0
    &&& i.wifi_scans == 0
    &&& i.executables_measured == 0
    &&& i.fingerprinted_binaries@.len() == 0
    &&& i.profiling_items == 0
    &&& i.data_sinks@.len() == 0
    &&& i.sampling == (SamplingInfo { collecting: 0, sampled_out: 0, unsampled: 0 })
    &&& i.enrichment_rules == 0
    &&& i.total_event_types == 0
    &&& i.budget_disabled@.len() == 0
    &&& device_is_empty(i.device)
    &&& i.wifi_sessions@.len() == 0
    &&& i.bt_scans@.len() == 0
    &&& safari_is_empty(i.safari)
    &&& privacy_is_empty(i.privacy)
    &&& !i.location.home_detected && i.location.location_queries == 0
        && i.location.heartbeat_count == 0 && !i.location.poi_tile_downloads
    &&& i.security_apis@.len() == 0
    &&& photos_is_empty(i.photos)
    &&& i.behavioral_domains@.len() == 0
}

impl Default for Insights {
    fn default() -> (r: Self)
        ensures
            insights_is_empty(r),
    {
        Insights {
            apps: Vec::new(),
            ml_models: Vec::new(),
            intelligence_views: Vec::new(),
            bt_devices_found: 0,
            wifi_scans: 0,
            executables_measured: 0,
            fingerprinted_binaries: Vec::new(),
            profiling_items: 0,
            data_sinks: Vec::new(),
            sampling: SamplingInfo::default(),
            enrichment_rules: 0,
            total_event_types: 0,
            budget_disabled: Vec::new(),
            device: DeviceInsight::default(),
            wifi_sessions: Vec::new(),
            bt_scans: Vec::new(),
            safari: SafariInsight::default(),
            privacy: PrivacyInsight::default(),
            location: LocationInsight::default(),
            security_apis: Vec::new(),
            photos: PhotosInsight::default(),
            behavioral_domains: Vec::new(),
        }
    }
}

/// A fresh profile for a bundle identifier, with nothing recorded yet.
pub fn new_profile(bundle_id: String) -> (p: AppProfile)
    ensures
        p.bundle_id == bundle_id,
        p.version@.len() == 0,
        p.active_seconds == 0 && p.uptime_seconds == 0 && !p.foreground,
        p.activations == 0 && p.launches == 0,
        p.capabilities@.len() == 0 && p.binaries@.len() == 0 && p.security_apis@.len() == 0,
        p.network.interface@.len() == 0 && p.network.bytes_values@.len() == 0,
        p.hardware@.len() == 0,
        p.record_count == 0,
{
    AppProfile {
        bundle_id,
        version: String::new(),
        active_seconds: 0,
        uptime_seconds: 0,
        foreground: false,
        activations: 0,
        launches: 0,
        capabilities: Vec::new(),
        binaries: Vec::new(),
        security_apis: Vec::new(),
        network: AppNetworkInfo::default(),
        hardware: Vec::new(),
        record_count: 0,
    }
}

} // verus!
