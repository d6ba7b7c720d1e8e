//! Simulation control vocabulary shared with the host's backtester:
//! tick precision, log levels, data sources, and pattern verification
//! status.

use vstd::prelude::*;

verus! {

/// Tick precision levels.
#[derive(Clone, Copy, Debug, PartialEq, Eq, Structural)]
pub enum TickPrecision {
    Millisecond,
    Microsecond,
    Nanosecond,
}

impl TickPrecision {
    /// Multiplier from a tick timestamp at this precision to
    /// nanoseconds.
    pub fn multiplier(&self) -> (r: u64)
        ensures
            self == TickPrecision::Millisecond ==> r == 1_000_000,
            self == TickPrecision::Microsecond ==> r == 1_000,
            self == TickPrecision::Nanosecond ==> r == 1,
    {
        match self {
            TickPrecision::Millisecond => 1_000_000,
            TickPrecision::Microsecond => 1_000,
            TickPrecision::Nanosecond => 1,
        }
    }

    /// The precision's name.
    pub fn name(&self) -> (r: &'static str)
        ensures
            self == TickPrecision::Millisecond ==> r@ == "millisecond"@,
            self == TickPrecision::Microsecond ==> r@ == "microsecond"@,
            self == TickPrecision::Nanosecond ==> r@ == "nanosecond"@,
    {
        match self {
            TickPrecision::Millisecond => "millisecond",
            TickPrecision::Microsecond => "microsecond",
            TickPrecision::Nanosecond => "nanosecond",
        }
    }
}

/// Log levels for simulation output.
#[derive(Clone, Copy, Debug, PartialEq, Eq, Structural)]
pub enum LogLevel {
    Error,
    Warn,
    Info,
    Debug,
    Trace,
}

/// Data source types.
#[derive(Clone, Copy, Debug, PartialEq, Eq, Structural)]
pub enum DataSourceType {
    Local,
    S3,
    Database,
    WebSocket,
}

/// Data source configuration.
pub struct DataSource {
    pub source_type: DataSourceType,
    pub connection_string: String,
    pub auth_token: Option<String>,
    pub compression: bool,
}

/// Verification status of a pattern's return target.
#[derive(Clone, Copy, Debug, PartialEq, Eq, Structural)]
pub enum VerificationStatus {
    Pending,
    InProgress,
    Verified,
    Failed,
    Exceeded,
}

/// A pattern's return target and what backtesting verified, in basis
/// points.
pub struct PatternVerification {
    pub component_id: u16,
    pub component_name: String,
    pub roi_target_bps: u32,
    pub alpha_half_life_weeks: u32,
    pub primary_constraint: String,
    pub verified_roi_bps: u32,
    pub verification_status: VerificationStatus,
}

impl PatternVerification {
    pub fn new(component_id: u16, component_name: String, roi_target_bps: u32,
        half_life_weeks: u32, constraint: String) -> (r: Self)
        ensures
            r.component_id == component_id,
            r.roi_target_bps == roi_target_bps,
            r.alpha_half_life_weeks == half_life_weeks,
            r.verified_roi_bps == 0,
            r.verification_status == VerificationStatus::Pending,
    {
        PatternVerification {
            component_id,
            component_name,
            roi_target_bps,
            alpha_half_life_weeks: half_life_weeks,
            primary_constraint: constraint,
            verified_roi_bps: 0,
            verification_status: VerificationStatus::Pending,
        }
    }

    /// Record a verification result.
    pub fn update_results(&mut self, verified_roi_bps: u32, status: VerificationStatus)
        ensures
            final(self).verified_roi_bps == verified_roi_bps,
            final(self).verification_status == status,
            final(self).component_id == old(self).component_id,
            final(self).roi_target_bps == old(self).roi_target_bps,
    {
        self.verified_roi_bps = verified_roi_bps;
        self.verification_status = status;
    }

    /// Whether the verified return meets the target.
    pub fn is_target_met(&self) -> (r: bool)
        ensures
            r == (self.verified_roi_bps >= self.roi_target_bps),
    {
        self.verified_roi_bps >= self.roi_target_bps
    }
}

/// The default pattern verification targets.
pub fn get_default_pattern_verifications() -> (r: Vec<PatternVerification>)
    ensures
        r@.len() == 3,
        r@[0].component_id == 51,
        r@[1].roi_target_bps == 120,
        r@[2].alpha_half_life_weeks == 8,
{
    let mut r: Vec<PatternVerification> = Vec::new();
    r.push(PatternVerification::new(51, "HT Inference".to_owned(), 50, 6,
        "Provider Latency".to_owned()));
    r.push(PatternVerification::new(68, "Steam Prop".to_owned(), 120, 4,
        "Account Limiting".to_owned()));
    r.push(PatternVerification::new(75, "Velocity Conv".to_owned(), 220, 8,
        "Model Complexity".to_owned()));
    r
}

} // verus!
