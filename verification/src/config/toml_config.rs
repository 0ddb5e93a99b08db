//! The system-wide settings of `/etc/tapauth/config.toml`, their defaults,
//! and the resolution of the fprintd bridge toggle.
use vstd::prelude::*;

verus! {

/// Default configuration path.
pub const DEFAULT_CONFIG_PATH: &'static str = "/etc/tapauth/config.toml";

/// Default PAM authentication session timeout, in seconds.
pub const DEFAULT_PAM_TIMEOUT_SECS: u64 = 120;

/// Default PAM timeout in graphical contexts without a usable conversation,
/// in seconds.
pub const DEFAULT_PAM_GUI_TIMEOUT_SECS: u64 = 30;

/// Default UDP port for authentication.
pub const DEFAULT_UDP_PORT: u16 = 36692;

/// Transports are enabled by default.
pub const DEFAULT_TRANSPORT_ENABLED: bool = true;

/// Marker file installed by the optional fprintd emulation package.
pub const FPRINTD_EMULATION_MARKER_PATH: &'static str = "/usr/share/tapauth/fprintd-emulation.enabled";

/// `Path::exists` (std): whether the file system has an entry at `path`
/// (reading the disk; nothing is stated of the answer).
#[verifier::external_body]
fn path_exists(path: &str) -> bool {
    std::path::Path::new(path).exists()
}

/// The effective bridge setting: an explicit value wins; unset follows the
/// marker file.
pub open spec fn spec_resolve_bridge(explicit: Option<bool>, marker_exists: bool) -> bool {
    match explicit {
        Some(b) => b,
        None => marker_exists,
    }
}

/// Resolves the tri-state `enable_fprintd_bridge` setting: an explicit
/// value always wins; when unset, the bridge is on exactly when the
/// emulation marker exists.
pub fn resolve_enable_fprintd_bridge(explicit: Option<bool>, marker_exists: bool) -> (r: bool)
    ensures
        r == spec_resolve_bridge(explicit, marker_exists),
{
    match explicit {
        Some(b) => b,
        None => marker_exists,
    }
}

/// Whether the fprintd emulation marker file exists on this system.
pub fn fprintd_emulation_marker_exists() -> bool {
    path_exists(FPRINTD_EMULATION_MARKER_PATH)
}

/// Which platform configuration registers the TPM seals keys to.
#[derive(Debug, Clone, Copy, PartialEq, Eq)]
pub enum TpmPcrPolicy {
    /// Secure Boot state and MOK keys (PCRs 7 and 14).
    Standard,
    /// The full boot chain (PCRs 0, 2, 7 and 14).
    Paranoid,
}

impl Default for TpmPcrPolicy {
    fn default() -> (r: Self)
        ensures
            r == TpmPcrPolicy::Standard,
    {
        TpmPcrPolicy::Standard
    }
}

/// The PCR list of each policy.
pub open spec fn spec_pcr_list(p: TpmPcrPolicy) -> &'static str {
    match p {
        TpmPcrPolicy::Standard => "7,14",
        TpmPcrPolicy::Paranoid => "0,2,7,14",
    }
}

/// The description of each policy.
pub open spec fn spec_policy_description(p: TpmPcrPolicy) -> &'static str {
    match p {
        TpmPcrPolicy::Standard => "Protects against modified bootloader/kernel (evil maid attacks). Won't break on updates.",
        TpmPcrPolicy::Paranoid => "Maximum protection - detects any boot chain changes. WILL break on BIOS updates.",
    }
}

impl TpmPcrPolicy {
    /// The PCR list for tpm2-tools, such as `7,14`.
    pub fn pcr_list(&self) -> (r: &'static str)
        ensures
            r == spec_pcr_list(*self),
    {
        match self {
            TpmPcrPolicy::Standard => "7,14",
            TpmPcrPolicy::Paranoid => "0,2,7,14",
        }
    }

    /// What the policy protects against.
    pub fn description(&self) -> (r: &'static str)
        ensures
            r == spec_policy_description(*self),
    {
        match self {
            TpmPcrPolicy::Standard => "Protects against modified bootloader/kernel (evil maid attacks). Won't break on updates.",
            TpmPcrPolicy::Paranoid => "Maximum protection - detects any boot chain changes. WILL break on BIOS updates.",
        }
    }
}

/// System-wide settings.
#[derive(Debug, Clone, Copy, PartialEq, Eq)]
pub struct TapAuthConfig {
    /// How long the PAM module waits for an authentication, in seconds.
    pub pam_operation_timeout_secs: u64,
    /// The wait in graphical contexts that cannot ask for a password.
    pub pam_gui_timeout_secs: u64,
    /// UDP port for authentication.
    pub udp_port: u16,
    /// Whether the local network transport may be used.
    pub enable_network: bool,
    /// Whether the Bluetooth LE transport may be used.
    pub enable_ble: bool,
    /// The fprintd bridge: unset follows the emulation marker.
    pub enable_fprintd_bridge: Option<bool>,
    /// Whether to keep keys in the TPM.
    pub use_tpm: bool,
    /// The TPM sealing policy.
    pub tpm_pcr_policy: TpmPcrPolicy,
}

/// The default settings.
pub open spec fn spec_default_config() -> TapAuthConfig {
    TapAuthConfig {
        pam_operation_timeout_secs: DEFAULT_PAM_TIMEOUT_SECS,
        pam_gui_timeout_secs: DEFAULT_PAM_GUI_TIMEOUT_SECS,
        udp_port: DEFAULT_UDP_PORT,
        enable_network: DEFAULT_TRANSPORT_ENABLED,
        enable_ble: DEFAULT_TRANSPORT_ENABLED,
        enable_fprintd_bridge: None,
        use_tpm: false,
        tpm_pcr_policy: TpmPcrPolicy::Standard,
    }
}

impl Default for TapAuthConfig {
    /// 120 s PAM timeout, 30 s GUI timeout, port 36692, both transports
    /// on, bridge unset, no TPM, standard PCR policy.
    fn default() -> (r: Self)
        ensures
            r == spec_default_config(),
    {
        TapAuthConfig {
            pam_operation_timeout_secs: DEFAULT_PAM_TIMEOUT_SECS,
            pam_gui_timeout_secs: DEFAULT_PAM_GUI_TIMEOUT_SECS,
            udp_port: DEFAULT_UDP_PORT,
            enable_network: DEFAULT_TRANSPORT_ENABLED,
            enable_ble: DEFAULT_TRANSPORT_ENABLED,
            enable_fprintd_bridge: None,
            use_tpm: false,
            tpm_pcr_policy: TpmPcrPolicy::Standard,
        }
    }
}

impl TapAuthConfig {
    /// The effective bridge toggle, resolved against the emulation marker
    /// file on this system: an explicit setting always decides.
    pub fn fprintd_bridge_enabled(&self) -> (r: bool)
        ensures
            self.enable_fprintd_bridge matches Some(b) ==> r == b,
            exists|marker: bool| r == spec_resolve_bridge(self.enable_fprintd_bridge, marker),
    {
        let marker = fprintd_emulation_marker_exists();
        resolve_enable_fprintd_bridge(self.enable_fprintd_bridge, marker)
    }
}

} // verus!
