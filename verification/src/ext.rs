//! What the scheduler module reports about itself: its manifest, its
//! health and its metrics.

use vstd::prelude::*;

use crate::types::strs;

verus! {

/// The kind of a module.
#[derive(Debug, Clone, Copy, PartialEq, Eq, Structural)]
pub enum ModuleKind {
    /// A module that the platform itself provides.
    Platform,
}

/// A capability that a module provides.
#[derive(Debug, Clone)]
pub struct Capability {
    pub name: String,
    pub version: String,
    pub description: String,
}

/// A module's description of itself.
#[derive(Debug, Clone)]
pub struct Manifest {
    pub id: String,
    pub description: String,
    pub version: String,
    pub kind: ModuleKind,
    pub provides: Vec<Capability>,
    /// Modules that this one requires.
    pub requires: Vec<String>,
    /// Tools that this module offers to agents.
    pub agent_tools: Vec<String>,
    pub required_roles: Vec<String>,
}

/// The health of the module.
#[derive(Debug, Clone)]
pub enum Health {
    Healthy,
    Degraded { reason: String },
    Down { reason: String },
}

/// A named measurement.
#[derive(Debug, Clone)]
pub struct Metric {
    pub name: String,
    pub value: i64,
    pub labels: Vec<(String, String)>,
}

/// The scheduler's manifest, at the given package version.
pub fn scheduler_manifest(version: &str) -> (m: Manifest)
    ensures
        m.id@ == "convergio-scheduler"@,
        m.description@ == "Policy-based task scheduling with capability matching"@,
        m.version@ == version@,
        m.kind == ModuleKind::Platform,
        m.provides@.len() == 1,
        m.provides@[0].name@ == "scheduling-policy"@,
        m.provides@[0].version@ == "1.0"@,
        m.provides@[0].description@ == "Intelligent task assignment to mesh peers"@,
        m.requires@.len() == 0,
        m.agent_tools@.len() == 0,
        strs(m.required_roles@) == seq!["orchestrator"@, "all"@],
{
    let mut provides: Vec<Capability> = Vec::new();
    provides.push(
        Capability {
            name: String::from_str("scheduling-policy"),
            version: String::from_str("1.0"),
            description: String::from_str("Intelligent task assignment to mesh peers"),
        },
    );
    let mut required_roles: Vec<String> = Vec::new();
    required_roles.push(String::from_str("orchestrator"));
    required_roles.push(String::from_str("all"));
    let m = Manifest {
        id: String::from_str("convergio-scheduler"),
        description: String::from_str("Policy-based task scheduling with capability matching"),
        version: String::from_str(version),
        kind: ModuleKind::Platform,
        provides,
        requires: Vec::new(),
        agent_tools: Vec::new(),
        required_roles,
    };
    assert(strs(m.required_roles@) =~= seq!["orchestrator"@, "all"@]);
    m
}

/// The health that a probe of the database shows: `Err` carries the error
/// of getting a connection, `Ok` whether the policy table could be read.
pub open spec fn health_reason(probe: Result<bool, Seq<char>>) -> Option<Seq<char>> {
    match probe {
        Ok(true) => None,
        Ok(false) => Some("scheduler_policies table inaccessible"@),
        Err(e) => Some("pool error: "@ + e),
    }
}

/// The module's health after probing the database: healthy when the policy
/// table can be read, degraded when it cannot, down without a connection.
pub fn health_from_probe(probe: Result<bool, String>) -> (h: Health)
    ensures
        probe == Ok::<bool, String>(true) <==> h is Healthy,
        probe == Ok::<bool, String>(false) <==> h is Degraded,
        probe is Err <==> h is Down,
        h matches Health::Degraded { reason } ==> Some(reason@) == health_reason(
            match probe {
                Ok(b) => Ok(b),
                Err(e) => Err(e@),
            },
        ),
        h matches Health::Down { reason } ==> Some(reason@) == health_reason(
            match probe {
                Ok(b) => Ok(b),
                Err(e) => Err(e@),
            },
        ),
{
    match probe {
        Ok(true) => Health::Healthy,
        Ok(false) => Health::Degraded { reason: String::from_str("scheduler_policies table inaccessible") },
        Err(e) => {
            let reason = String::from_str("pool error: ").concat(e.as_str());
            Health::Down { reason }
        },
    }
}

/// The metrics for a count of recorded decisions: one total when the count
/// could be read, none otherwise.
pub fn decision_metrics(total: Option<i64>) -> (metrics: Vec<Metric>)
    ensures
        total is None ==> metrics@.len() == 0,
        total matches Some(n) ==> {
            &&& metrics@.len() == 1
            &&& metrics@[0].name@ == "scheduler.decisions.total"@
            &&& metrics@[0].value == n
            &&& metrics@[0].labels@.len() == 0
        },
{
    let mut out: Vec<Metric> = Vec::new();
    if let Some(n) = total {
        out.push(
            Metric {
                name: String::from_str("scheduler.decisions.total"),
                value: n,
                labels: Vec::new(),
            },
        );
    }
    out
}

} // verus!
