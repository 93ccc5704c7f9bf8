//! Data types for the scheduler policy engine.

use vstd::prelude::*;

verus! {

/// One whole unit of a fraction, in parts per million.
pub const PPM: u64 = 1_000_000;

/// The character sequences of a list of strings.
pub open spec fn strs(v: Seq<String>) -> Seq<Seq<char>> {
    v.map_values(|s: String| s@)
}

/// The character sequence of an optional string.
pub open spec fn opt_str(o: Option<String>) -> Option<Seq<char>> {
    match o {
        Some(s) => Some(s@),
        None => None,
    }
}

/// The integer value of an optional integer.
pub open spec fn opt_int(o: Option<i64>) -> Option<int> {
    match o {
        Some(v) => Some(v as int),
        None => None,
    }
}

/// A request to schedule a task on the best available peer.
#[derive(Debug, Clone)]
pub struct SchedulingRequest {
    pub task_id: i64,
    pub plan_id: i64,
    /// Required capabilities: "gpu", "voice", "compute", etc.
    pub required_capabilities: Vec<String>,
    /// Preferred locality: "local", "studio-mac", etc.
    pub preferred_locality: Option<String>,
    /// Privacy level: "public", "org", "private".
    pub privacy_level: String,
    /// Maximum cost budget, in micro-USD.
    pub max_cost_usd: Option<i64>,
    /// Tier hint: "t1", "t2", "t3", "t4".
    pub tier_hint: Option<String>,
}

/// The mathematical content of a [`SchedulingRequest`].
pub struct RequestView {
    pub task_id: int,
    pub plan_id: int,
    pub required_capabilities: Seq<Seq<char>>,
    pub preferred_locality: Option<Seq<char>>,
    pub privacy_level: Seq<char>,
    pub max_cost_usd: Option<int>,
    pub tier_hint: Option<Seq<char>>,
}

impl View for SchedulingRequest {
    type V = RequestView;

    open spec fn view(&self) -> RequestView {
        RequestView {
            task_id: self.task_id as int,
            plan_id: self.plan_id as int,
            required_capabilities: strs(self.required_capabilities@),
            preferred_locality: opt_str(self.preferred_locality),
            privacy_level: self.privacy_level@,
            max_cost_usd: opt_int(self.max_cost_usd),
            tier_hint: opt_str(self.tier_hint),
        }
    }
}

/// A scored candidate peer for a scheduling request.
///
/// `score` is the weighted total in parts per million; the four
/// components are fractions in parts per million.
#[derive(Debug, Clone)]
pub struct PeerCandidate {
    pub peer_name: String,
    pub score: i64,
    pub capabilities_match: u64,
    pub cost_score: u64,
    pub load_score: u64,
    pub locality_bonus: u64,
}

/// The mathematical content of a [`PeerCandidate`].
pub struct CandidateView {
    pub peer_name: Seq<char>,
    pub score: int,
    pub capabilities_match: int,
    pub cost_score: int,
    pub load_score: int,
    pub locality_bonus: int,
}

impl View for PeerCandidate {
    type V = CandidateView;

    open spec fn view(&self) -> CandidateView {
        CandidateView {
            peer_name: self.peer_name@,
            score: self.score as int,
            capabilities_match: self.capabilities_match as int,
            cost_score: self.cost_score as int,
            load_score: self.load_score as int,
            locality_bonus: self.locality_bonus as int,
        }
    }
}

/// The views of a list of candidates.
pub open spec fn candidates_view(v: Seq<PeerCandidate>) -> Seq<CandidateView> {
    v.map_values(|c: PeerCandidate| c@)
}

impl PeerCandidate {
    /// An exact copy of this candidate.
    pub fn duplicate(&self) -> (c: PeerCandidate)
        ensures
            c@ == self@,
    {
        PeerCandidate {
            peer_name: self.peer_name.clone(),
            score: self.score,
            capabilities_match: self.capabilities_match,
            cost_score: self.cost_score,
            load_score: self.load_score,
            locality_bonus: self.locality_bonus,
        }
    }
}

/// The result of scheduling: which peer was chosen and why.
#[derive(Debug, Clone)]
pub struct SchedulingDecision {
    pub task_id: i64,
    pub assigned_peer: String,
    pub assigned_tier: String,
    /// Estimated cost, in micro-USD.
    pub estimated_cost: i64,
    pub reason: String,
    pub alternatives: Vec<PeerCandidate>,
}

/// The mathematical content of a [`SchedulingDecision`].
#[verifier::ext_equal]
pub struct DecisionView {
    pub task_id: int,
    pub assigned_peer: Seq<char>,
    pub assigned_tier: Seq<char>,
    pub estimated_cost: int,
    pub reason: Seq<char>,
    pub alternatives: Seq<CandidateView>,
}

impl View for SchedulingDecision {
    type V = DecisionView;

    open spec fn view(&self) -> DecisionView {
        DecisionView {
            task_id: self.task_id as int,
            assigned_peer: self.assigned_peer@,
            assigned_tier: self.assigned_tier@,
            estimated_cost: self.estimated_cost as int,
            reason: self.reason@,
            alternatives: candidates_view(self.alternatives@),
        }
    }
}

/// Configurable weights for the scoring formula, in parts per million.
#[derive(Debug, Clone)]
pub struct SchedulerPolicy {
    pub id: i64,
    pub name: String,
    /// Weight for capability match (default 400_000).
    pub weight_capability: i32,
    /// Weight for cost score (default 200_000).
    pub weight_cost: i32,
    /// Weight for load score (default 200_000).
    pub weight_load: i32,
    /// Weight for locality bonus (default 200_000).
    pub weight_locality: i32,
    /// Whether to enforce privacy constraints.
    pub privacy_enforce: bool,
}

/// The mathematical content of a [`SchedulerPolicy`].
pub struct PolicyView {
    pub id: int,
    pub name: Seq<char>,
    pub weight_capability: int,
    pub weight_cost: int,
    pub weight_load: int,
    pub weight_locality: int,
    pub privacy_enforce: bool,
}

impl View for SchedulerPolicy {
    type V = PolicyView;

    open spec fn view(&self) -> PolicyView {
        PolicyView {
            id: self.id as int,
            name: self.name@,
            weight_capability: self.weight_capability as int,
            weight_cost: self.weight_cost as int,
            weight_load: self.weight_load as int,
            weight_locality: self.weight_locality as int,
            privacy_enforce: self.privacy_enforce,
        }
    }
}

} // verus!
