use vstd::prelude::*;

use crate::domain::capability::{CapabilitySource, NetworkBackend, NodeCapabilities, Sourced};
use crate::domain::config::DaemonConfig;
use crate::domain::error::CoreError;
use crate::domain::health::HealthLevel;
use crate::linux::handles::RuntimeCapabilities;
use crate::text::{decimal, push_decimal, push_str};

verus! {

/// The active-link ceiling that current Linux runtimes are trusted to sustain.
pub const CONSERVATIVE_ACTIVE_PEER_CEILING: u16 = 4;

#[derive(Clone, Copy, Debug, PartialEq, Eq, Structural)]
pub enum SystemSupportLevel {
    FullySupported,
    ClientOnly,
    Degraded,
    Unsupported,
}

#[derive(Clone, Copy, Debug, PartialEq, Eq, Structural)]
pub enum CapabilityDiagnosticLevel {
    Info,
    Warning,
    Error,
}

#[derive(Clone, Debug, PartialEq, Eq)]
pub struct CapabilityDiagnostic {
    pub level: CapabilityDiagnosticLevel,
    pub component: String,
    pub message: String,
}

#[derive(Clone, Debug, PartialEq, Eq)]
pub struct BluetoothControllerReport {
    pub handle: String,
    pub powered: bool,
    pub address: Option<String>,
    pub driver: Option<String>,
}

#[derive(Clone, Debug, PartialEq, Eq)]
pub struct RuntimePrerequisite {
    pub name: String,
    pub available: bool,
    pub detail: String,
}

#[derive(Clone, Debug, PartialEq, Eq)]
pub struct SystemCapabilityReport {
    pub support: SystemSupportLevel,
    pub runtime: RuntimeCapabilities,
    pub bluez_version: Option<String>,
    pub network_backend_version: Option<String>,
    pub controllers: Vec<BluetoothControllerReport>,
    pub panu_available: bool,
    pub nap_available: Option<bool>,
    pub forwarding_available: bool,
    pub forwarding_enabled: Option<bool>,
    pub practical_peer_ceiling: u16,
    pub configured_peer_ceiling: Option<u16>,
    pub effective_peer_ceiling: u16,
    pub kernel_release: Option<String>,
    pub prerequisites: Vec<RuntimePrerequisite>,
    pub diagnostics: Vec<CapabilityDiagnostic>,
}

/// What the support classification looks at.
#[derive(Clone, Copy, Debug, PartialEq, Eq, Structural)]
pub struct SupportInputs {
    pub bluez_available: bool,
    pub network_backend_available: bool,
    pub adapter_present: bool,
    pub powered_adapter: bool,
    pub bnep_available: bool,
    pub panu_available: bool,
    pub nap_available: Option<bool>,
    pub forwarding_available: bool,
}

pub open spec fn support_level(input: SupportInputs) -> SystemSupportLevel {
    if !input.bluez_available || !input.network_backend_available || !input.adapter_present
        || !input.bnep_available {
        SystemSupportLevel::Unsupported
    } else if !input.powered_adapter || input.nap_available is None {
        SystemSupportLevel::Degraded
    } else if input.panu_available && input.nap_available == Some(false) {
        SystemSupportLevel::ClientOnly
    } else if input.panu_available && input.nap_available == Some(true)
        && input.forwarding_available {
        SystemSupportLevel::FullySupported
    } else {
        SystemSupportLevel::Degraded
    }
}

/// Classifies how much of BlueRoute the system can run.
pub fn classify_support(input: SupportInputs) -> (level: SystemSupportLevel)
    ensures
        level == support_level(input),
{
    if !input.bluez_available || !input.network_backend_available || !input.adapter_present
        || !input.bnep_available {
        return SystemSupportLevel::Unsupported;
    }
    if !input.powered_adapter || input.nap_available.is_none() {
        return SystemSupportLevel::Degraded;
    }
    let nap = match input.nap_available {
        Some(value) => value,
        None => false,
    };
    if input.panu_available && !nap {
        return SystemSupportLevel::ClientOnly;
    }
    if input.panu_available && nap && input.forwarding_available {
        return SystemSupportLevel::FullySupported;
    }
    SystemSupportLevel::Degraded
}

pub open spec fn peer_ceiling(configured: Option<u16>) -> u16 {
    match configured {
        Some(value) => if value < 4 {
            value
        } else {
            4
        },
        None => 4,
    }
}

/// The configured active-link ceiling, capped by the conservative runtime ceiling.
pub fn effective_peer_ceiling(configured: Option<u16>) -> (ceiling: u16)
    ensures
        ceiling == peer_ceiling(configured),
        ceiling <= CONSERVATIVE_ACTIVE_PEER_CEILING,
{
    let value = match configured {
        Some(value) => value,
        None => CONSERVATIVE_ACTIVE_PEER_CEILING,
    };
    if value < CONSERVATIVE_ACTIVE_PEER_CEILING {
        value
    } else {
        CONSERVATIVE_ACTIVE_PEER_CEILING
    }
}

pub open spec fn support_text(level: SystemSupportLevel) -> Seq<char> {
    match level {
        SystemSupportLevel::FullySupported =>
            "system satisfies current BlueRoute PANU, NAP, network-backend, and forwarding prerequisites"@,
        SystemSupportLevel::ClientOnly =>
            "system can operate as a PANU client but local NAP hosting is unavailable"@,
        SystemSupportLevel::Degraded =>
            "system has partial BlueRoute support; diagnostics identify the missing or indeterminate capability"@,
        SystemSupportLevel::Unsupported =>
            "system is missing a required BlueRoute runtime service, Bluetooth adapter, or BNEP prerequisite"@,
    }
}

pub fn support_message(level: SystemSupportLevel) -> (message: &'static str)
    ensures
        message@ == support_text(level),
{
    match level {
        SystemSupportLevel::FullySupported => {
            "system satisfies current BlueRoute PANU, NAP, network-backend, and forwarding prerequisites"
        },
        SystemSupportLevel::ClientOnly => {
            "system can operate as a PANU client but local NAP hosting is unavailable"
        },
        SystemSupportLevel::Degraded => {
            "system has partial BlueRoute support; diagnostics identify the missing or indeterminate capability"
        },
        SystemSupportLevel::Unsupported => {
            "system is missing a required BlueRoute runtime service, Bluetooth adapter, or BNEP prerequisite"
        },
    }
}

/// What the Bluetooth stack answered once its system service was reached.
#[derive(Debug, PartialEq, Eq)]
pub struct BluezObservations {
    /// The controllers, or the text of the error that stopped their enumeration.
    pub adapters: Result<Vec<BluetoothControllerReport>, String>,
    /// Whether any managed object offers the NAP server interface, or the error text.
    pub network_server: Result<bool, String>,
}

/// Everything the capability report is built from, as observed on the system.
#[derive(Debug, PartialEq, Eq)]
pub struct CapabilityObservations {
    /// The version printed by the Bluetooth daemon, when one could be run.
    pub bluez_version: Option<String>,
    /// The Bluetooth stack's answers, or the text of the connection error.
    pub bluez: Result<BluezObservations, String>,
    /// The kernel's BNEP support is present.
    pub bnep_available: bool,
    /// The network manager's version query, or the text of the connection error.
    pub network_manager: Result<Result<String, String>, String>,
    /// The kernel forwarding switch when it could be read.
    pub forwarding: Option<bool>,
    pub kernel_release: Option<String>,
    pub bluetooth_sysfs_present: bool,
}

/// A diagnostic as (level, component, message).
pub type DiagnosticView = (CapabilityDiagnosticLevel, Seq<char>, Seq<char>);

pub open spec fn diagnostic_view(diagnostic: CapabilityDiagnostic) -> DiagnosticView {
    (diagnostic.level, diagnostic.component@, diagnostic.message@)
}

pub open spec fn diagnostics_view(diagnostics: Seq<CapabilityDiagnostic>) -> Seq<DiagnosticView> {
    diagnostics.map_values(|d: CapabilityDiagnostic| diagnostic_view(d))
}

/// One diagnostic when `condition` holds, none otherwise.
pub open spec fn diagnostic_if(
    condition: bool,
    level: CapabilityDiagnosticLevel,
    component: Seq<char>,
    message: Seq<char>,
) -> Seq<DiagnosticView> {
    if condition {
        seq![(level, component, message)]
    } else {
        Seq::empty()
    }
}

pub open spec fn observed_adapters(observations: CapabilityObservations) -> Seq<BluetoothControllerReport> {
    match observations.bluez {
        Ok(bluez) => match bluez.adapters {
            Ok(adapters) => adapters@,
            Err(_) => Seq::empty(),
        },
        Err(_) => Seq::empty(),
    }
}

pub open spec fn any_powered(adapters: Seq<BluetoothControllerReport>) -> bool {
    exists|i: int| 0 <= i < adapters.len() && (#[trigger] adapters[i]).powered
}

pub open spec fn observed_nap(observations: CapabilityObservations) -> Option<bool> {
    match observations.bluez {
        Ok(bluez) => match bluez.network_server {
            Ok(value) => Some(value && observations.bnep_available && any_powered(
                observed_adapters(observations),
            )),
            Err(_) => None,
        },
        Err(_) => Some(false),
    }
}

pub open spec fn observed_panu(observations: CapabilityObservations) -> bool {
    observations.bluez is Ok && any_powered(observed_adapters(observations))
        && observations.bnep_available
}

pub open spec fn observed_backend_version(observations: CapabilityObservations) -> Option<Seq<char>> {
    match observations.network_manager {
        Ok(Ok(version)) => Some(version@),
        _ => None,
    }
}

pub open spec fn error_text<T>(result: Result<T, String>) -> Seq<char> {
    match result {
        Ok(_) => Seq::empty(),
        Err(text) => text@,
    }
}

/// The diagnostics about the Bluetooth stack, its adapters and BNEP.
pub open spec fn bluetooth_diagnostics(observations: CapabilityObservations) -> Seq<DiagnosticView> {
    let bluez_available = observations.bluez is Ok;
    let adapters = observed_adapters(observations);
    let powered = any_powered(adapters);
    let adapters_failed = match observations.bluez {
        Ok(bluez) => bluez.adapters is Err,
        Err(_) => false,
    };
    diagnostic_if(
        observations.bluez_version is None,
        CapabilityDiagnosticLevel::Warning,
        "bluez"@,
        "BlueZ daemon version could not be determined from known bluetoothd locations or PATH"@,
    ) + diagnostic_if(
        !bluez_available,
        CapabilityDiagnosticLevel::Error,
        "bluez"@,
        "BlueZ system service is unavailable: "@ + error_text(observations.bluez),
    ) + diagnostic_if(
        adapters_failed,
        CapabilityDiagnosticLevel::Error,
        "bluetooth"@,
        "Bluetooth adapters could not be enumerated: "@ + match observations.bluez {
            Ok(bluez) => error_text(bluez.adapters),
            Err(_) => Seq::empty(),
        },
    ) + diagnostic_if(
        adapters.len() == 0 && bluez_available,
        CapabilityDiagnosticLevel::Error,
        "bluetooth"@,
        "BlueZ is running but no Bluetooth adapter is exposed"@,
    ) + diagnostic_if(
        adapters.len() != 0 && !powered,
        CapabilityDiagnosticLevel::Warning,
        "bluetooth"@,
        "Bluetooth adapter is present but no adapter is powered"@,
    ) + diagnostic_if(
        !observations.bnep_available,
        CapabilityDiagnosticLevel::Error,
        "bluetooth-pan"@,
        "Linux BNEP runtime support is not present at /sys/module/bnep"@,
    )
}

/// The diagnostics about the PAN roles.
pub open spec fn pan_diagnostics(observations: CapabilityObservations) -> Seq<DiagnosticView> {
    let bluez_available = observations.bluez is Ok;
    let powered = any_powered(observed_adapters(observations));
    let nap_failed = match observations.bluez {
        Ok(bluez) => bluez.network_server is Err,
        Err(_) => false,
    };
    diagnostic_if(
        nap_failed,
        CapabilityDiagnosticLevel::Warning,
        "nap"@,
        "NAP capability could not be determined from BlueZ managed objects: "@ + match observations.bluez {
            Ok(bluez) => error_text(bluez.network_server),
            Err(_) => Seq::empty(),
        },
    ) + diagnostic_if(
        observed_nap(observations) == Some(false) && bluez_available && powered,
        CapabilityDiagnosticLevel::Info,
        "nap"@,
        "local NAP server capability is unavailable; this node may still operate as a PANU client"@,
    ) + diagnostic_if(
        observed_panu(observations),
        CapabilityDiagnosticLevel::Info,
        "panu"@,
        "PANU prerequisites are present; remote peer compatibility is evaluated when connecting"@,
    )
}

/// The diagnostics about the network backend, forwarding and the peer ceiling.
pub open spec fn network_diagnostics(config: DaemonConfig, observations: CapabilityObservations) -> Seq<
    DiagnosticView,
> {
    let configured = config.topology.max_active_links;
    diagnostic_if(
        observations.network_manager is Err,
        CapabilityDiagnosticLevel::Error,
        "network-backend"@,
        "NetworkManager system service is unavailable: "@ + error_text(observations.network_manager),
    ) + diagnostic_if(
        match observations.network_manager {
            Ok(version) => version is Err,
            Err(_) => false,
        },
        CapabilityDiagnosticLevel::Warning,
        "network-backend"@,
        "NetworkManager version could not be queried: "@ + match observations.network_manager {
            Ok(version) => error_text(version),
            Err(_) => Seq::empty(),
        },
    ) + diagnostic_if(
        observations.forwarding is None,
        CapabilityDiagnosticLevel::Warning,
        "forwarding"@,
        "kernel IPv4 forwarding control is unavailable or unreadable"@,
    ) + diagnostic_if(
        match configured {
            Some(value) => value > 4,
            None => false,
        },
        CapabilityDiagnosticLevel::Warning,
        "peer-ceiling"@,
        "configured active-link ceiling exceeds the conservative runtime ceiling of "@ + decimal(4)
            + "; the effective ceiling is "@ + decimal(peer_ceiling(configured) as nat),
    )
}

/// The diagnostics of the report in the order they are found, before the summary.
pub open spec fn found_diagnostics(config: DaemonConfig, observations: CapabilityObservations) -> Seq<
    DiagnosticView,
> {
    bluetooth_diagnostics(observations) + pan_diagnostics(observations) + network_diagnostics(
        config,
        observations,
    )
}

/// The level of the summary diagnostic for a support level.
pub open spec fn summary_level(support: SystemSupportLevel) -> CapabilityDiagnosticLevel {
    match support {
        SystemSupportLevel::Unsupported => CapabilityDiagnosticLevel::Error,
        SystemSupportLevel::Degraded => CapabilityDiagnosticLevel::Warning,
        _ => CapabilityDiagnosticLevel::Info,
    }
}

/// The support inputs that the observations give.
pub open spec fn observed_support_inputs(observations: CapabilityObservations) -> SupportInputs {
    SupportInputs {
        bluez_available: observations.bluez is Ok,
        network_backend_available: observations.network_manager is Ok,
        adapter_present: observed_adapters(observations).len() != 0,
        powered_adapter: any_powered(observed_adapters(observations)),
        bnep_available: observations.bnep_available,
        panu_available: observed_panu(observations),
        nap_available: observed_nap(observations),
        forwarding_available: observations.forwarding is Some,
    }
}

/// The prerequisites as (name, available, detail).
pub open spec fn prerequisite_views(prerequisites: Seq<RuntimePrerequisite>) -> Seq<(Seq<char>, bool, Seq<char>)> {
    prerequisites.map_values(|p: RuntimePrerequisite| (p.name@, p.available, p.detail@))
}

pub open spec fn expected_prerequisites(observations: CapabilityObservations) -> Seq<(Seq<char>, bool, Seq<char>)> {
    seq![
        ("bluetooth-sysfs"@, observations.bluetooth_sysfs_present, "/sys/class/bluetooth"@),
        ("bnep"@, observations.bnep_available, "/sys/module/bnep"@),
        ("ipv4-forwarding-control"@, observations.forwarding is Some, "/proc/sys/net/ipv4/ip_forward"@),
        ("bluez-system-service"@, observations.bluez is Ok, "org.bluez"@),
        ("networkmanager-system-service"@, observations.network_manager is Ok, "org.freedesktop.NetworkManager"@),
    ]
}

/// Where the connection ceiling came from: the configuration when it is within the
/// conservative ceiling, the conservative default otherwise.
pub open spec fn ceiling_source(configured: Option<u16>) -> CapabilitySource {
    match configured {
        Some(value) => if value <= 4 {
            CapabilitySource::Configured
        } else {
            CapabilitySource::ConservativeDefault
        },
        None => CapabilitySource::ConservativeDefault,
    }
}

pub open spec fn opt_text(value: Option<String>) -> Option<Seq<char>> {
    match value {
        Some(text) => Some(text@),
        None => None,
    }
}

fn diagnostic(level: CapabilityDiagnosticLevel, component: &str, message: String) -> (d: CapabilityDiagnostic)
    ensures
        diagnostic_view(d) == (level, component@, message@),
{
    CapabilityDiagnostic { level, component: String::from_str(component), message }
}

fn prefixed(prefix: &str, detail: &str) -> (text: String)
    ensures
        text@ == prefix@ + detail@,
{
    let mut text = String::from_str(prefix);
    push_str(&mut text, detail);
    text
}

fn prerequisite(name: &str, available: bool, detail: &str) -> (p: RuntimePrerequisite)
    ensures
        (p.name@, p.available, p.detail@) == (name@, available, detail@),
{
    RuntimePrerequisite { name: String::from_str(name), available, detail: String::from_str(detail) }
}

proof fn lemma_push_view(before: Seq<CapabilityDiagnostic>, d: CapabilityDiagnostic)
    ensures
        diagnostics_view(before.push(d)) == diagnostics_view(before).push(diagnostic_view(d)),
{
    assert(diagnostics_view(before.push(d)) =~= diagnostics_view(before).push(diagnostic_view(d)));
}

fn push_diagnostic_if(
    diagnostics: &mut Vec<CapabilityDiagnostic>,
    condition: bool,
    level: CapabilityDiagnosticLevel,
    component: &str,
    message: String,
)
    ensures
        diagnostics_view(final(diagnostics)@) == diagnostics_view(old(diagnostics)@) + diagnostic_if(
            condition,
            level,
            component@,
            message@,
        ),
{
    if condition {
        let d = diagnostic(level, component, message);
        proof {
            lemma_push_view(diagnostics@, d);
        }
        diagnostics.push(d);
        assert(diagnostics_view(diagnostics@) =~= diagnostics_view(old(diagnostics)@) + seq![
            diagnostic_view(d),
        ]);
    } else {
        assert(diagnostics_view(diagnostics@) =~= diagnostics_view(old(diagnostics)@) + Seq::<
            DiagnosticView,
        >::empty());
    }
}

fn error_or_empty<T>(result: &Result<T, String>) -> (text: &str)
    ensures
        text@ == error_text(*result),
{
    match result {
        Ok(_) => {
            proof {
                reveal_strlit("");
            }
            ""
        },
        Err(text) => text.as_str(),
    }
}

/// The Bluetooth part: the controllers, whether one is powered, and the NAP server answer.
fn observe_bluetooth(
    bluez_version: &Option<String>,
    bluez: Result<BluezObservations, String>,
    bnep_available: bool,
    diagnostics: &mut Vec<CapabilityDiagnostic>,
    Ghost(obs): Ghost<CapabilityObservations>,
) -> (result: (Vec<BluetoothControllerReport>, bool, Option<Result<bool, String>>))
    requires
        obs.bluez_version == *bluez_version,
        obs.bluez == bluez,
        obs.bnep_available == bnep_available,
    ensures
        diagnostics_view(final(diagnostics)@) == diagnostics_view(old(diagnostics)@)
            + bluetooth_diagnostics(obs),
        result.0@ == observed_adapters(obs),
        result.1 == any_powered(observed_adapters(obs)),
        result.2 == match obs.bluez {
            Ok(observed) => Some(observed.network_server),
            Err(_) => None::<Result<bool, String>>,
        },
{
    push_diagnostic_if(
        diagnostics,
        bluez_version.is_none(),
        CapabilityDiagnosticLevel::Warning,
        "bluez",
        String::from_str(
            "BlueZ daemon version could not be determined from known bluetoothd locations or PATH",
        ),
    );
    let bluez_available = bluez.is_ok();
    push_diagnostic_if(
        diagnostics,
        !bluez_available,
        CapabilityDiagnosticLevel::Error,
        "bluez",
        prefixed("BlueZ system service is unavailable: ", error_or_empty(&bluez)),
    );
    let (adapters_result, server_result) = match bluez {
        Ok(observed) => (Some(observed.adapters), Some(observed.network_server)),
        Err(_) => (None, None),
    };
    let adapters_failed = match &adapters_result {
        Some(Err(_)) => true,
        _ => false,
    };
    let failure = match &adapters_result {
        Some(result) => error_or_empty(result),
        None => "",
    };
    push_diagnostic_if(
        diagnostics,
        adapters_failed,
        CapabilityDiagnosticLevel::Error,
        "bluetooth",
        prefixed("Bluetooth adapters could not be enumerated: ", failure),
    );
    let controllers: Vec<BluetoothControllerReport> = match adapters_result {
        Some(Ok(adapters)) => adapters,
        _ => Vec::new(),
    };
    let mut powered_adapter = false;
    let mut i: usize = 0;
    while i < controllers.len()
        invariant
            i <= controllers@.len(),
            powered_adapter == exists|j: int| 0 <= j < i && (#[trigger] controllers@[j]).powered,
        decreases controllers@.len() - i,
    {
        if controllers[i].powered {
            powered_adapter = true;
        }
        i += 1;
    }
    push_diagnostic_if(
        diagnostics,
        controllers.len() == 0 && bluez_available,
        CapabilityDiagnosticLevel::Error,
        "bluetooth",
        String::from_str("BlueZ is running but no Bluetooth adapter is exposed"),
    );
    push_diagnostic_if(
        diagnostics,
        controllers.len() != 0 && !powered_adapter,
        CapabilityDiagnosticLevel::Warning,
        "bluetooth",
        String::from_str("Bluetooth adapter is present but no adapter is powered"),
    );
    push_diagnostic_if(
        diagnostics,
        !bnep_available,
        CapabilityDiagnosticLevel::Error,
        "bluetooth-pan",
        String::from_str("Linux BNEP runtime support is not present at /sys/module/bnep"),
    );
    assert(diagnostics_view(diagnostics@) =~= diagnostics_view(old(diagnostics)@)
        + bluetooth_diagnostics(obs));
    (controllers, powered_adapter, server_result)
}

/// The PAN part: whether the NAP and PANU roles are available.
fn observe_pan(
    server_result: Option<Result<bool, String>>,
    bnep_available: bool,
    powered_adapter: bool,
    diagnostics: &mut Vec<CapabilityDiagnostic>,
    Ghost(obs): Ghost<CapabilityObservations>,
) -> (result: (Option<bool>, bool))
    requires
        server_result == match obs.bluez {
            Ok(observed) => Some(observed.network_server),
            Err(_) => None::<Result<bool, String>>,
        },
        obs.bnep_available == bnep_available,
        powered_adapter == any_powered(observed_adapters(obs)),
    ensures
        diagnostics_view(final(diagnostics)@) == diagnostics_view(old(diagnostics)@)
            + pan_diagnostics(obs),
        result.0 == observed_nap(obs),
        result.1 == observed_panu(obs),
{
    let bluez_available = server_result.is_some();
    let nap_failed = match &server_result {
        Some(Err(_)) => true,
        _ => false,
    };
    let failure = match &server_result {
        Some(result) => error_or_empty(result),
        None => "",
    };
    push_diagnostic_if(
        diagnostics,
        nap_failed,
        CapabilityDiagnosticLevel::Warning,
        "nap",
        prefixed("NAP capability could not be determined from BlueZ managed objects: ", failure),
    );
    let nap_available: Option<bool> = match server_result {
        Some(Ok(value)) => Some(value && bnep_available && powered_adapter),
        Some(Err(_)) => None,
        None => Some(false),
    };
    let nap_unavailable = match nap_available {
        Some(value) => !value,
        None => false,
    };
    push_diagnostic_if(
        diagnostics,
        nap_unavailable && bluez_available && powered_adapter,
        CapabilityDiagnosticLevel::Info,
        "nap",
        String::from_str(
            "local NAP server capability is unavailable; this node may still operate as a PANU client",
        ),
    );
    let panu_available = bluez_available && powered_adapter && bnep_available;
    push_diagnostic_if(
        diagnostics,
        panu_available,
        CapabilityDiagnosticLevel::Info,
        "panu",
        String::from_str(
            "PANU prerequisites are present; remote peer compatibility is evaluated when connecting",
        ),
    );
    assert(diagnostics_view(diagnostics@) =~= diagnostics_view(old(diagnostics)@) + pan_diagnostics(
        obs,
    ));
    (nap_available, panu_available)
}

/// The network part: whether the network manager answered, its version, and the ceiling note.
fn observe_network(
    config: &DaemonConfig,
    network_manager: Result<Result<String, String>, String>,
    forwarding_available: bool,
    diagnostics: &mut Vec<CapabilityDiagnostic>,
    Ghost(obs): Ghost<CapabilityObservations>,
) -> (result: (bool, Option<String>))
    requires
        obs.network_manager == network_manager,
        forwarding_available == obs.forwarding is Some,
    ensures
        diagnostics_view(final(diagnostics)@) == diagnostics_view(old(diagnostics)@)
            + network_diagnostics(*config, obs),
        result.0 == obs.network_manager is Ok,
        opt_text(result.1) == observed_backend_version(obs),
{
    push_diagnostic_if(
        diagnostics,
        network_manager.is_err(),
        CapabilityDiagnosticLevel::Error,
        "network-backend",
        prefixed("NetworkManager system service is unavailable: ", error_or_empty(&network_manager)),
    );
    let (available, version_result) = match network_manager {
        Ok(version) => (true, Some(version)),
        Err(_) => (false, None),
    };
    let version_failed = match &version_result {
        Some(Err(_)) => true,
        _ => false,
    };
    let failure = match &version_result {
        Some(result) => error_or_empty(result),
        None => "",
    };
    push_diagnostic_if(
        diagnostics,
        version_failed,
        CapabilityDiagnosticLevel::Warning,
        "network-backend",
        prefixed("NetworkManager version could not be queried: ", failure),
    );
    let version = match version_result {
        Some(Ok(version)) => Some(version),
        _ => None,
    };
    push_diagnostic_if(
        diagnostics,
        !forwarding_available,
        CapabilityDiagnosticLevel::Warning,
        "forwarding",
        String::from_str("kernel IPv4 forwarding control is unavailable or unreadable"),
    );
    let configured = config.topology.max_active_links;
    let effective = effective_peer_ceiling(configured);
    let exceeds = match configured {
        Some(value) => value > CONSERVATIVE_ACTIVE_PEER_CEILING,
        None => false,
    };
    let mut message = String::from_str(
        "configured active-link ceiling exceeds the conservative runtime ceiling of ",
    );
    push_decimal(&mut message, CONSERVATIVE_ACTIVE_PEER_CEILING as u64);
    push_str(&mut message, "; the effective ceiling is ");
    push_decimal(&mut message, effective as u64);
    push_diagnostic_if(diagnostics, exceeds, CapabilityDiagnosticLevel::Warning, "peer-ceiling", message);
    assert(diagnostics_view(diagnostics@) =~= diagnostics_view(old(diagnostics)@)
        + network_diagnostics(*config, obs));
    (available, version)
}

/// Builds the system capability report from what was observed on the system, after checking
/// the configuration.
pub fn capability_report(config: &DaemonConfig, observations: CapabilityObservations) -> (result:
    Result<SystemCapabilityReport, CoreError>)
    ensures
        result is Ok <==> config.validation_failure() is None,
        match result {
            Ok(report) => {
                &&& report.support == support_level(observed_support_inputs(observations))
                &&& diagnostics_view(report.diagnostics@) == seq![
                    (summary_level(report.support), "summary"@, support_text(report.support)),
                ] + found_diagnostics(*config, observations)
                &&& report.controllers@ == observed_adapters(observations)
                &&& report.panu_available == observed_panu(observations)
                &&& report.nap_available == observed_nap(observations)
                &&& report.forwarding_available == observations.forwarding is Some
                &&& report.forwarding_enabled == observations.forwarding
                &&& report.practical_peer_ceiling == CONSERVATIVE_ACTIVE_PEER_CEILING
                &&& report.configured_peer_ceiling == config.topology.max_active_links
                &&& report.effective_peer_ceiling == peer_ceiling(config.topology.max_active_links)
                &&& opt_text(report.bluez_version) == opt_text(observations.bluez_version)
                &&& opt_text(report.network_backend_version) == observed_backend_version(observations)
                &&& opt_text(report.kernel_release) == opt_text(observations.kernel_release)
                &&& prerequisite_views(report.prerequisites@) == expected_prerequisites(observations)
                &&& report.runtime.bluez_available == observations.bluez is Ok
                &&& report.runtime.network_backend == (if observations.network_manager is Ok {
                    Some(NetworkBackend::NetworkManager)
                } else {
                    None
                })
                &&& report.runtime.node.adapter_usable == Some(Sourced {
                    value: any_powered(observed_adapters(observations)),
                    source: CapabilitySource::Discovered,
                })
                &&& report.runtime.node.panu == Some(Sourced {
                    value: observed_panu(observations),
                    source: CapabilitySource::Discovered,
                })
                &&& report.runtime.node.nap == match observed_nap(observations) {
                    Some(value) => Some(Sourced { value, source: CapabilitySource::Discovered }),
                    None => None,
                }
                &&& report.runtime.node.routing == Some(Sourced {
                    value: observations.forwarding is Some,
                    source: CapabilitySource::Discovered,
                })
                &&& report.runtime.node.connection_policy_ceiling == Some(Sourced {
                    value: peer_ceiling(config.topology.max_active_links),
                    source: ceiling_source(config.topology.max_active_links),
                })
                &&& report.runtime.node.network_backend == (if observations.network_manager is Ok {
                    Some(Sourced {
                        value: NetworkBackend::NetworkManager,
                        source: CapabilitySource::Discovered,
                    })
                } else {
                    None
                })
                &&& report.runtime.node.link_quality is None
                &&& report.runtime.node.power_state is None
                &&& report.runtime.node.has_internet is None
                &&& report.runtime.node.willing_to_share_internet is None
            },
            Err(error) => config.validation_failure() == Some(error.spec_kind()),
        },
{
    match config.validate() {
        Ok(()) => {},
        Err(error) => return Err(error),
    }
    let ghost obs = observations;
    let CapabilityObservations {
        bluez_version,
        bluez,
        bnep_available,
        network_manager,
        forwarding,
        kernel_release,
        bluetooth_sysfs_present,
    } = observations;
    let mut diagnostics: Vec<CapabilityDiagnostic> = Vec::new();
    let (controllers, powered_adapter, server_result) = observe_bluetooth(
        &bluez_version,
        bluez,
        bnep_available,
        &mut diagnostics,
        Ghost(obs),
    );
    let bluez_available = server_result.is_some();
    let (nap_available, panu_available) = observe_pan(
        server_result,
        bnep_available,
        powered_adapter,
        &mut diagnostics,
        Ghost(obs),
    );
    let forwarding_available = forwarding.is_some();
    let (network_manager_available, network_backend_version) = observe_network(
        config,
        network_manager,
        forwarding_available,
        &mut diagnostics,
        Ghost(obs),
    );
    assert(diagnostics_view(diagnostics@) =~= found_diagnostics(*config, obs));
    let practical_peer_ceiling = CONSERVATIVE_ACTIVE_PEER_CEILING;
    let configured_peer_ceiling = config.topology.max_active_links;
    let effective = effective_peer_ceiling(configured_peer_ceiling);

    let mut prerequisites: Vec<RuntimePrerequisite> = Vec::new();
    prerequisites.push(prerequisite("bluetooth-sysfs", bluetooth_sysfs_present, "/sys/class/bluetooth"));
    prerequisites.push(prerequisite("bnep", bnep_available, "/sys/module/bnep"));
    prerequisites.push(
        prerequisite("ipv4-forwarding-control", forwarding_available, "/proc/sys/net/ipv4/ip_forward"),
    );
    prerequisites.push(prerequisite("bluez-system-service", bluez_available, "org.bluez"));
    prerequisites.push(
        prerequisite(
            "networkmanager-system-service",
            network_manager_available,
            "org.freedesktop.NetworkManager",
        ),
    );
    assert(prerequisite_views(prerequisites@) =~= expected_prerequisites(obs));

    let source = match configured_peer_ceiling {
        Some(value) => if value <= practical_peer_ceiling {
            CapabilitySource::Configured
        } else {
            CapabilitySource::ConservativeDefault
        },
        None => CapabilitySource::ConservativeDefault,
    };
    let mut node = NodeCapabilities::unknown();
    node.adapter_usable = Some(Sourced::new(powered_adapter, CapabilitySource::Discovered));
    node.panu = Some(Sourced::new(panu_available, CapabilitySource::Discovered));
    node.nap = match nap_available {
        Some(value) => Some(Sourced::new(value, CapabilitySource::Discovered)),
        None => None,
    };
    node.routing = Some(Sourced::new(forwarding_available, CapabilitySource::Discovered));
    node.connection_policy_ceiling = Some(Sourced::new(effective, source));
    if network_manager_available {
        node.network_backend = Some(
            Sourced::new(NetworkBackend::NetworkManager, CapabilitySource::Discovered),
        );
    }
    let runtime = RuntimeCapabilities {
        bluez_available,
        network_backend: if network_manager_available {
            Some(NetworkBackend::NetworkManager)
        } else {
            None
        },
        node,
    };
    let support = classify_support(
        SupportInputs {
            bluez_available,
            network_backend_available: network_manager_available,
            adapter_present: controllers.len() != 0,
            powered_adapter,
            bnep_available,
            panu_available,
            nap_available,
            forwarding_available,
        },
    );
    let level = match support {
        SystemSupportLevel::Unsupported => CapabilityDiagnosticLevel::Error,
        SystemSupportLevel::Degraded => CapabilityDiagnosticLevel::Warning,
        _ => CapabilityDiagnosticLevel::Info,
    };
    let summary = diagnostic(level, "summary", String::from_str(support_message(support)));
    let ghost before = diagnostics@;
    diagnostics.insert(0, summary);
    assert(diagnostics_view(diagnostics@) =~= seq![diagnostic_view(summary)] + diagnostics_view(before));
    Ok(
        SystemCapabilityReport {
            support,
            runtime,
            bluez_version,
            network_backend_version,
            controllers,
            panu_available,
            nap_available,
            forwarding_available,
            forwarding_enabled: forwarding,
            practical_peer_ceiling,
            configured_peer_ceiling,
            effective_peer_ceiling: effective,
            kernel_release,
            prerequisites,
            diagnostics,
        },
    )
}

/// The daemon's health for a support level: healthy when fully supported or client-only,
/// degraded when degraded, in error when unsupported.
pub fn support_health(level: SystemSupportLevel) -> (health: HealthLevel)
    ensures
        health == match level {
            SystemSupportLevel::FullySupported | SystemSupportLevel::ClientOnly => HealthLevel::Healthy,
            SystemSupportLevel::Degraded => HealthLevel::Degraded,
            SystemSupportLevel::Unsupported => HealthLevel::Error,
        },
{
    match level {
        SystemSupportLevel::FullySupported | SystemSupportLevel::ClientOnly => HealthLevel::Healthy,
        SystemSupportLevel::Degraded => HealthLevel::Degraded,
        SystemSupportLevel::Unsupported => HealthLevel::Error,
    }
}

/// How the support level follows from what the system offers: it is unsupported exactly when
/// BlueZ, the network backend, an adapter or BNEP is missing; fully supported exactly when, in
/// addition, an adapter is powered, the node can be a PANU and a NAP and IPv4 forwarding is
/// available; client-only exactly when, with a powered adapter, the node can be a PANU but
/// not a NAP; and degraded otherwise.
pub proof fn lemma_support_level_by_prerequisites(input: SupportInputs)
    ensures
        ({
            let base = input.bluez_available && input.network_backend_available
                && input.adapter_present && input.bnep_available;
            &&& (support_level(input) == SystemSupportLevel::Unsupported) == !base
            &&& (support_level(input) == SystemSupportLevel::FullySupported) == (base
                && input.powered_adapter && input.panu_available && input.nap_available == Some(true)
                && input.forwarding_available)
            &&& (support_level(input) == SystemSupportLevel::ClientOnly) == (base
                && input.powered_adapter && input.panu_available && input.nap_available == Some(false))
            &&& (support_level(input) == SystemSupportLevel::Degraded) == (base && !(
                input.powered_adapter && input.panu_available && input.nap_available == Some(true)
                    && input.forwarding_available) && !(input.powered_adapter && input.panu_available
                && input.nap_available == Some(false)))
        }),
{
}

} // verus!
