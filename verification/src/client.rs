//! Reporting client and dispatch core: the remote service's base address,
//! the shared HTTP transport handle, the two endpoint actions, and the latch
//! that makes registration a once-only step.
use vstd::prelude::*;
use crate::models::RegisterRequest;
use crate::json::{serialize_register, spec_ser_register, serialize_fault, spec_ser_fault, spec_ser_fault_pretty};
use crate::chars::chars_to_string;
use crate::builders::{Trigger, build_fault, spec_build_fault};
use crate::models::FaultSignature;
use crate::relay::{OutcomeEntry, SeverityTag, outgoing_entry};
use crate::time::Timestamp;

verus! {

#[verifier::external_type_specification]
#[verifier::external_body]
pub struct ExClient(reqwest::Client);

/// Relies on `reqwest::Client::new`: builds a fresh HTTP handle with default
/// settings; nothing about its value is needed.
#[verifier::external_body]
fn fresh_http() -> reqwest::Client {
    reqwest::Client::new()
}

/// Owns the remote service's base address and the HTTP transport the I/O
/// shell posts through. Shareable across background units: the address is
/// read-only and the transport synchronises itself.
pub struct HdsClient {
    pub http: reqwest::Client,
    pub base_url: String,
}

impl HdsClient {
    /// A client against the default local service address.
    pub fn new() -> (c: HdsClient)
        ensures
            c.base_url@ == "http://localhost:5005"@,
    {
        HdsClient { http: fresh_http(), base_url: String::from_str("http://localhost:5005") }
    }

    /// A client against a caller-chosen base address.
    pub fn with_base_url(base: String) -> (c: HdsClient)
        ensures
            c.base_url@ == base@,
    {
        HdsClient { http: fresh_http(), base_url: base }
    }

    /// The registration endpoint under the base address.
    pub fn register_url(&self) -> (u: String)
        ensures
            u@ == self.base_url@ + "/api/v1/apps/register"@,
    {
        let mut u = self.base_url.clone();
        u.append("/api/v1/apps/register");
        u
    }

    /// The fault-report endpoint under the base address.
    pub fn fault_url(&self) -> (u: String)
        ensures
            u@ == self.base_url@ + "/api/v1/faults/report"@,
    {
        let mut u = self.base_url.clone();
        u.append("/api/v1/faults/report");
        u
    }
}

/// One HTTP POST the I/O shell must perform on the core's behalf.
pub struct HttpPost {
    pub url: String,
    pub body: String,
}

/// The reporting core: the client handle plus the registration latch. No
/// hidden globals — whoever owns the core owns the subsystem's state.
pub struct Core {
    pub client: HdsClient,
    registered_flag: bool,
}

impl Core {
    /// Whether the registration handshake has been dispatched.
    pub closed spec fn is_registered(self) -> bool {
        self.registered_flag
    }

    /// The client handle the core carries.
    pub closed spec fn spec_client(self) -> HdsClient {
        self.client
    }
}

impl Core {
    /// A fresh core; nothing dispatched yet.
    pub fn new(client: HdsClient) -> (c: Core)
        ensures
            !c.is_registered(),
            c.spec_client() == client,
    {
        Core { client, registered_flag: false }
    }

    /// The registration handshake, attempted exactly once: the first call
    /// yields the POST the shell must run and latches the core; every later
    /// call yields nothing.
    pub fn registration(&mut self, name: &str, version: &str) -> (a: Option<HttpPost>)
        ensures
            final(self).is_registered(),
            final(self).spec_client() == old(self).spec_client(),
            old(self).is_registered() ==> a is None,
            !old(self).is_registered() ==> (a matches Some(p) && p.url@ == old(
                self,
            ).spec_client().base_url@ + "/api/v1/apps/register"@ && p.body@ == spec_ser_register(
                name@,
                version@,
            )),
    {
        if self.registered_flag {
            return None;
        }
        self.registered_flag = true;
        let req = RegisterRequest {
            application: String::from_str(name),
            version: String::from_str(version),
        };
        let chars = serialize_register(&req);
        let body = chars_to_string(&chars);
        let url = self.client.register_url();
        Some(HttpPost { url, body })
    }

    /// Stage one fault report: the built signature, the info entry to show
    /// before dispatch, and the POST the shell must run in the background.
    /// Only a registered core may trigger reports.
    pub fn trigger(&self, t: Trigger, now: Timestamp) -> (r: (FaultSignature, OutcomeEntry, HttpPost))
        requires
            self.is_registered(),
            now.wf(),
        ensures
            r.0@ == spec_build_fault(t, now),
            r.0@.wf(),
            r.1.severity_tag == SeverityTag::Info,
            r.1.text@ == "Outgoing Fault:\n"@ + spec_ser_fault_pretty(r.0@),
            r.2.url@ == self.spec_client().base_url@ + "/api/v1/faults/report"@,
            r.2.body@ == spec_ser_fault(r.0@),
    {
        let f = build_fault(t, now);
        let e = outgoing_entry(&f);
        let chars = serialize_fault(&f);
        let body = chars_to_string(&chars);
        let url = self.client.fault_url();
        (f, e, HttpPost { url, body })
    }
}

/// How many registration handshakes go out over `calls` successive
/// `registration` calls, starting from a core whose latch reads `start`.
pub open spec fn spec_registrations_issued(start: bool, calls: nat) -> int
    decreases calls,
{
    if calls == 0 {
        0
    } else {
        (if !start {
            1int
        } else {
            0int
        }) + spec_registrations_issued(true, (calls - 1) as nat)
    }
}

/// Registration happens exactly once per core lifetime: over any number of
/// `registration` calls on a fresh core, exactly one handshake goes out —
/// and none at all on a core already latched.
pub proof fn lemma_registration_once(calls: nat)
    ensures
        calls > 0 ==> spec_registrations_issued(false, calls) == 1,
        spec_registrations_issued(true, calls) == 0,
    decreases calls,
{
    if calls > 0 {
        lemma_registration_once((calls - 1) as nat);
    }
}

} // verus!
