//! The value types of the reporting subsystem: a registration request, a
//! capture directive, and a fault signature, together with the mathematical
//! models their contracts speak of.
use vstd::prelude::*;
use crate::time::Timestamp;

verus! {

/// Registration handshake payload, consumed once at process start.
pub struct RegisterRequest {
    pub application: String,
    pub version: String,
}

/// What diagnostic artifacts the remote service should gather for a fault;
/// only ever embedded inside a `FaultSignature`.
pub struct CaptureRequest {
    pub log_file_location: String,
    pub capture: Vec<String>,
    pub environment: Vec<String>,
}

/// Mathematical model of a `CaptureRequest`.
pub ghost struct CaptureModel {
    pub log_file_location: Seq<char>,
    pub capture: Seq<Seq<char>>,
    pub environment: Seq<Seq<char>>,
}

pub open spec fn strs_view(s: Seq<String>) -> Seq<Seq<char>> {
    s.map_values(|x: String| x@)
}

impl View for CaptureRequest {
    type V = CaptureModel;

    open spec fn view(&self) -> CaptureModel {
        CaptureModel {
            log_file_location: self.log_file_location@,
            capture: strs_view(self.capture@),
            environment: strs_view(self.environment@),
        }
    }
}

impl CaptureModel {
    /// Every field present and non-empty.
    pub open spec fn wf(self) -> bool {
        &&& self.log_file_location.len() > 0
        &&& self.capture.len() > 0
        &&& self.environment.len() > 0
    }
}

/// A synthetic fault report: constructed by a builder, logged, submitted to
/// the remote service once, then discarded.
pub struct FaultSignature {
    pub application_name: String,
    pub fault_code: String,
    pub type_field: String,
    pub severity: String,
    pub description: String,
    pub timestamp: Timestamp,
    pub capture_request: CaptureRequest,
}

/// Mathematical model of a `FaultSignature`.
pub ghost struct FaultModel {
    pub application_name: Seq<char>,
    pub fault_code: Seq<char>,
    pub type_field: Seq<char>,
    pub severity: Seq<char>,
    pub description: Seq<char>,
    pub timestamp: Timestamp,
    pub capture_request: CaptureModel,
}

impl View for FaultSignature {
    type V = FaultModel;

    open spec fn view(&self) -> FaultModel {
        FaultModel {
            application_name: self.application_name@,
            fault_code: self.fault_code@,
            type_field: self.type_field@,
            severity: self.severity@,
            description: self.description@,
            timestamp: self.timestamp,
            capture_request: self.capture_request@,
        }
    }
}

impl FaultModel {
    /// The invariant every built signature satisfies: all fields non-empty, a
    /// recognised severity word, and a calendar-valid timestamp.
    pub open spec fn wf(self) -> bool {
        &&& self.application_name.len() > 0
        &&& self.fault_code.len() > 0
        &&& self.type_field.len() > 0
        &&& (self.severity == "Warning"@ || self.severity == "Error"@ || self.severity
            == "Critical"@)
        &&& self.description.len() > 0
        &&& self.timestamp.wf()
        &&& self.capture_request.wf()
    }
}

} // verus!
