//! What a gateway reports, and how its failures are described.
use vstd::prelude::*;
use vstd::string::StringExecFns;
use crate::state::DeviceId;
use crate::store::StateError;

verus! {

/// Health of a gateway connection.
#[derive(Debug)]
pub struct GatewayHealth {
    pub reachable: bool,
    pub response_time_ms: u64,
    pub connected_devices: u32,
    pub last_error: Option<String>,
}

/// Why a gateway operation failed.
#[derive(Debug)]
pub enum GatewayError {
    DeviceNotFound(DeviceId),
    DeviceUnreachable(DeviceId),
    NetworkError(String),
    InvalidStateType,
    Timeout,
    AuthenticationFailed,
    InternalError(String),
}

/// Which gateway to run against.
#[derive(Debug)]
pub enum GatewayType {
    Dummy { scenario: String },
    Dirigera { host: String, token: String },
}

/// How to reach a gateway. The timeout is in milliseconds.
#[derive(Debug)]
pub struct GatewayConfig {
    pub gateway_type: GatewayType,
    pub dirigera_host: Option<String>,
    pub access_token: Option<String>,
    pub timeout_ms: u64,
}

impl GatewayConfig {
    /// The dummy gateway with the basic home scenario, no hub, and a ten-second timeout.
    pub fn default_config() -> (res: GatewayConfig)
        ensures
            res.gateway_type matches GatewayType::Dummy { scenario } && scenario@ == "basic_home"@,
            res.dirigera_host is None,
            res.access_token is None,
            res.timeout_ms == 10000,
    {
        GatewayConfig {
            gateway_type: GatewayType::Dummy { scenario: String::from_str("basic_home") },
            dirigera_host: None,
            access_token: None,
            timeout_ms: 10000,
        }
    }
}

/// The human-readable description of a gateway error.
pub open spec fn gateway_error_text(e: GatewayError) -> Seq<char> {
    match e {
        GatewayError::DeviceNotFound(id) => "Device not found: "@ + id@,
        GatewayError::DeviceUnreachable(id) => "Device unreachable: "@ + id@,
        GatewayError::NetworkError(m) => "Network error: "@ + m@,
        GatewayError::InvalidStateType => "Invalid state for device type"@,
        GatewayError::Timeout => "Gateway timeout"@,
        GatewayError::AuthenticationFailed => "Authentication failed"@,
        GatewayError::InternalError(m) => "Gateway internal error: "@ + m@,
    }
}

/// Describes a gateway error.
pub fn gateway_error_message(e: &GatewayError) -> (res: String)
    ensures
        res@ == gateway_error_text(*e),
{
    match e {
        GatewayError::DeviceNotFound(id) => String::from_str("Device not found: ").concat(id.as_str()),
        GatewayError::DeviceUnreachable(id) => String::from_str("Device unreachable: ").concat(id.as_str()),
        GatewayError::NetworkError(m) => String::from_str("Network error: ").concat(m.as_str()),
        GatewayError::InvalidStateType => String::from_str("Invalid state for device type"),
        GatewayError::Timeout => String::from_str("Gateway timeout"),
        GatewayError::AuthenticationFailed => String::from_str("Authentication failed"),
        GatewayError::InternalError(m) => String::from_str("Gateway internal error: ").concat(m.as_str()),
    }
}

/// The human-readable description of a store error.
pub open spec fn state_error_text(e: StateError) -> Seq<char> {
    match e {
        StateError::DeviceNotFound(id) => "Device not found: "@ + id@,
        StateError::GroupAlreadyExists(n) => "Device group already exists: "@ + n@,
        StateError::GroupNotFound(n) => "Device group not found: "@ + n@,
    }
}

/// Describes a store error.
pub fn state_error_message(e: &StateError) -> (res: String)
    ensures
        res@ == state_error_text(*e),
{
    match e {
        StateError::DeviceNotFound(id) => String::from_str("Device not found: ").concat(id.as_str()),
        StateError::GroupAlreadyExists(n) => String::from_str("Device group already exists: ").concat(n.as_str()),
        StateError::GroupNotFound(n) => String::from_str("Device group not found: ").concat(n.as_str()),
    }
}

} // verus!
