//! Policy engine: scoring and selection of peers.

use vstd::prelude::*;

use crate::types::{
    candidates_view, opt_int, opt_str, strs, CandidateView, PeerCandidate, PolicyView, RequestView,
    SchedulerPolicy, SchedulingRequest, PPM,
};

verus! {

/// The default scheduling policy, as a view.
pub open spec fn default_policy_view() -> PolicyView {
    PolicyView {
        id: 0,
        name: "default"@,
        weight_capability: 400_000,
        weight_cost: 200_000,
        weight_load: 200_000,
        weight_locality: 200_000,
        privacy_enforce: true,
    }
}

/// How many entries of `required` (counted with repetition) occur in `caps`.
pub open spec fn matched_count(required: Seq<Seq<char>>, caps: Seq<Seq<char>>) -> nat
    decreases required.len(),
{
    if required.len() == 0 {
        0
    } else {
        matched_count(required.drop_last(), caps) + if caps.contains(required.last()) {
            1nat
        } else {
            0nat
        }
    }
}

/// The capability-match fraction: the share of required capabilities that
/// the peer has, rounded down; a request that requires nothing matches fully.
pub open spec fn capabilities_match_for(required: Seq<Seq<char>>, caps: Seq<Seq<char>>) -> int {
    if required.len() == 0 {
        PPM as int
    } else {
        (matched_count(required, caps) * PPM) as int / required.len() as int
    }
}

/// Estimated cost of a tier, in micro-USD.
pub open spec fn tier_cost(tier: Option<Seq<char>>) -> int {
    match tier {
        Some(t) => if t == "t1"@ {
            10_000
        } else if t == "t2"@ {
            50_000
        } else if t == "t3"@ {
            200_000
        } else if t == "t4"@ {
            1_000_000
        } else {
            100_000
        },
        None => 100_000,
    }
}

/// The cost fraction: `1 - estimated / budget`, floored at zero and rounded
/// down, when a positive budget is given; one half otherwise.
pub open spec fn cost_score_for(max_cost: Option<int>, tier: Option<Seq<char>>) -> int {
    match max_cost {
        Some(m) => if m > 0 {
            if tier_cost(tier) >= m {
                0
            } else {
                (m - tier_cost(tier)) * (PPM as int) / m
            }
        } else {
            PPM as int / 2
        },
        None => PPM as int / 2,
    }
}

/// The load fraction: one minus the load clamped to `[0, PPM]`.
pub open spec fn load_score_for(load: int) -> int {
    if load < 0 {
        PPM as int
    } else if load > PPM {
        0
    } else {
        PPM - load
    }
}

/// The locality bonus: a whole unit when the peer is the preferred locality.
pub open spec fn locality_bonus_for(preferred: Option<Seq<char>>, peer_name: Seq<char>) -> int {
    if preferred == Some(peer_name) {
        PPM as int
    } else {
        0
    }
}

/// The weighted sum of the four components, scaled back to parts per
/// million and rounded down.
pub open spec fn total_score(
    policy: PolicyView,
    capabilities_match: int,
    cost_score: int,
    load_score: int,
    locality_bonus: int,
) -> int {
    (policy.weight_capability * capabilities_match + policy.weight_cost * cost_score
        + policy.weight_load * load_score + policy.weight_locality * locality_bonus) / (PPM as int)
}

/// The candidate that scoring `peer_name` yields.
pub open spec fn candidate_for(
    peer_name: Seq<char>,
    peer_caps: Seq<Seq<char>>,
    peer_load: int,
    request: RequestView,
    policy: PolicyView,
) -> CandidateView {
    let cm = capabilities_match_for(request.required_capabilities, peer_caps);
    let cs = cost_score_for(request.max_cost_usd, request.tier_hint);
    let ls = load_score_for(peer_load);
    let lb = locality_bonus_for(request.preferred_locality, peer_name);
    CandidateView {
        peer_name,
        score: total_score(policy, cm, cs, ls, lb),
        capabilities_match: cm,
        cost_score: cs,
        load_score: ls,
        locality_bonus: lb,
    }
}

/// A row of the policy table, with the weights in parts per million and
/// the privacy flag as an integer.
#[derive(Debug, Clone)]
pub struct PolicyRow {
    pub id: i64,
    pub name: String,
    pub weight_capability: i32,
    pub weight_cost: i32,
    pub weight_load: i32,
    pub weight_locality: i32,
    pub privacy_enforce: i32,
}

/// The mathematical content of a [`PolicyRow`].
pub struct PolicyRowView {
    pub id: int,
    pub name: Seq<char>,
    pub weight_capability: int,
    pub weight_cost: int,
    pub weight_load: int,
    pub weight_locality: int,
    pub privacy_enforce: int,
}

impl View for PolicyRow {
    type V = PolicyRowView;

    open spec fn view(&self) -> PolicyRowView {
        PolicyRowView {
            id: self.id as int,
            name: self.name@,
            weight_capability: self.weight_capability as int,
            weight_cost: self.weight_cost as int,
            weight_load: self.weight_load as int,
            weight_locality: self.weight_locality as int,
            privacy_enforce: self.privacy_enforce as int,
        }
    }
}

/// The policy that a stored row describes: any non-zero flag enforces privacy.
pub open spec fn policy_of_row(r: PolicyRowView) -> PolicyView {
    PolicyView {
        id: r.id,
        name: r.name,
        weight_capability: r.weight_capability,
        weight_cost: r.weight_cost,
        weight_load: r.weight_load,
        weight_locality: r.weight_locality,
        privacy_enforce: r.privacy_enforce != 0,
    }
}

/// The row that stores a policy: privacy enforcement is stored as 1 or 0.
pub open spec fn row_of_policy(p: PolicyView) -> PolicyRowView {
    PolicyRowView {
        id: p.id,
        name: p.name,
        weight_capability: p.weight_capability,
        weight_cost: p.weight_cost,
        weight_load: p.weight_load,
        weight_locality: p.weight_locality,
        privacy_enforce: if p.privacy_enforce {
            1
        } else {
            0
        },
    }
}

/// The policy that a lookup found, or the default policy when the lookup
/// found no row.
pub fn policy_from_row(row: Option<PolicyRow>) -> (p: SchedulerPolicy)
    ensures
        p@ == match row {
            Some(r) => policy_of_row(r@),
            None => default_policy_view(),
        },
{
    match row {
        Some(r) => SchedulerPolicy {
            id: r.id,
            name: r.name,
            weight_capability: r.weight_capability,
            weight_cost: r.weight_cost,
            weight_load: r.weight_load,
            weight_locality: r.weight_locality,
            privacy_enforce: r.privacy_enforce != 0,
        },
        None => default_policy(),
    }
}

/// The row under which a policy is stored.
pub fn policy_row(policy: &SchedulerPolicy) -> (r: PolicyRow)
    ensures
        r@ == row_of_policy(policy@),
{
    PolicyRow {
        id: policy.id,
        name: policy.name.clone(),
        weight_capability: policy.weight_capability,
        weight_cost: policy.weight_cost,
        weight_load: policy.weight_load,
        weight_locality: policy.weight_locality,
        privacy_enforce: if policy.privacy_enforce {
            1
        } else {
            0
        },
    }
}

/// Reading back the row under which a policy is stored gives the policy.
pub proof fn lemma_stored_policy_round_trip(p: PolicyView)
    ensures
        policy_of_row(row_of_policy(p)) == p,
{
}

/// At most all required capabilities are matched.
pub proof fn lemma_matched_count_bounded(required: Seq<Seq<char>>, caps: Seq<Seq<char>>)
    ensures
        matched_count(required, caps) <= required.len(),
    decreases required.len(),
{
    if required.len() > 0 {
        lemma_matched_count_bounded(required.drop_last(), caps);
    }
}

/// Every component of a candidate is a fraction between zero and one whole
/// unit, and the locality bonus is either nothing or a whole unit.
pub proof fn lemma_candidate_components_bounded(
    peer_name: Seq<char>,
    peer_caps: Seq<Seq<char>>,
    peer_load: int,
    request: RequestView,
    policy: PolicyView,
)
    ensures
        ({
            let c = candidate_for(peer_name, peer_caps, peer_load, request, policy);
            &&& 0 <= c.capabilities_match <= PPM
            &&& 0 <= c.cost_score <= PPM
            &&& 0 <= c.load_score <= PPM
            &&& c.locality_bonus == 0 || c.locality_bonus == PPM
        }),
{
    let required = request.required_capabilities;
    if required.len() > 0 {
        let m = matched_count(required, peer_caps);
        lemma_matched_count_bounded(required, peer_caps);
        assert(0 <= (m * PPM) as int / required.len() as int <= PPM) by (nonlinear_arith)
            requires
                m <= required.len(),
                required.len() > 0,
        ;
    }
    match request.max_cost_usd {
        Some(m) => if m > 0 {
            let est = tier_cost(request.tier_hint);
            if est < m {
                assert(0 <= (m - est) * (PPM as int) / m <= PPM) by (nonlinear_arith)
                    requires
                        0 < est < m,
                ;
            }
        },
        None => {},
    }
}

/// A peer that has every required capability matches fully.
pub proof fn lemma_all_capabilities_match(required: Seq<Seq<char>>, caps: Seq<Seq<char>>)
    requires
        forall|i: int| 0 <= i < required.len() ==> caps.contains(#[trigger] required[i]),
    ensures
        capabilities_match_for(required, caps) == PPM,
{
    lemma_matched_count_all(required, caps);
    if required.len() > 0 {
        assert((required.len() * PPM) as int / required.len() as int == PPM) by (nonlinear_arith)
            requires
                required.len() > 0,
        ;
    }
}

proof fn lemma_matched_count_all(required: Seq<Seq<char>>, caps: Seq<Seq<char>>)
    requires
        forall|i: int| 0 <= i < required.len() ==> caps.contains(#[trigger] required[i]),
    ensures
        matched_count(required, caps) == required.len(),
    decreases required.len(),
{
    if required.len() > 0 {
        let t = required.drop_last();
        assert forall|i: int| 0 <= i < t.len() implies caps.contains(#[trigger] t[i]) by {
            assert(t[i] == required[i]);
        }
        lemma_matched_count_all(t, caps);
        assert(caps.contains(required[required.len() - 1]));
    }
}

proof fn lemma_matched_count_none(required: Seq<Seq<char>>, caps: Seq<Seq<char>>)
    requires
        forall|i: int| 0 <= i < required.len() ==> !caps.contains(#[trigger] required[i]),
    ensures
        matched_count(required, caps) == 0,
    decreases required.len(),
{
    if required.len() > 0 {
        let t = required.drop_last();
        assert forall|i: int| 0 <= i < t.len() implies !caps.contains(#[trigger] t[i]) by {
            assert(t[i] == required[i]);
        }
        lemma_matched_count_none(t, caps);
        assert(!caps.contains(required[required.len() - 1]));
    }
}

/// A peer that has none of the (some) required capabilities does not match
/// at all.
pub proof fn lemma_no_capabilities_match(required: Seq<Seq<char>>, caps: Seq<Seq<char>>)
    requires
        required.len() > 0,
        forall|i: int| 0 <= i < required.len() ==> !caps.contains(#[trigger] required[i]),
    ensures
        capabilities_match_for(required, caps) == 0,
{
    lemma_matched_count_none(required, caps);
}

/// Of two peers that differ only in name, the preferred locality gets the
/// whole locality bonus, the other none, and the preferred one's score is
/// higher by exactly the locality weight.
pub proof fn lemma_locality_bonus(
    local: Seq<char>,
    remote: Seq<char>,
    peer_caps: Seq<Seq<char>>,
    peer_load: int,
    request: RequestView,
    policy: PolicyView,
)
    requires
        request.preferred_locality == Some(local),
        remote != local,
    ensures
        candidate_for(local, peer_caps, peer_load, request, policy).locality_bonus == PPM,
        candidate_for(remote, peer_caps, peer_load, request, policy).locality_bonus == 0,
        candidate_for(local, peer_caps, peer_load, request, policy).score == candidate_for(
            remote,
            peer_caps,
            peer_load,
            request,
            policy,
        ).score + policy.weight_locality,
{
    let r = candidate_for(remote, peer_caps, peer_load, request, policy);
    let base = policy.weight_capability * r.capabilities_match + policy.weight_cost * r.cost_score
        + policy.weight_load * r.load_score;
    let d = PPM as int;
    let w = policy.weight_locality;
    vstd::arithmetic::div_mod::lemma_fundamental_div_mod(base, d);
    let q = base / d;
    let m = base % d;
    assert(base + w * d == (q + w) * d + m) by (nonlinear_arith)
        requires
            base == d * q + m,
    ;
    vstd::arithmetic::div_mod::lemma_fundamental_div_mod_converse(base + w * d, d, q + w, m);
}

/// With a positive budget above the tier's estimated cost `e`, a peer's cost
/// score is `(budget - e) / budget` in parts per million, rounded down: it
/// is the largest `c` with `c * budget <= (budget - e) * PPM`. With a positive
/// budget at or below `e` it is zero, and without a positive budget it is
/// one half.
pub proof fn lemma_cost_score_against_budget(
    peer_name: Seq<char>,
    peer_caps: Seq<Seq<char>>,
    peer_load: int,
    request: RequestView,
    policy: PolicyView,
)
    ensures
        ({
            let c = candidate_for(peer_name, peer_caps, peer_load, request, policy).cost_score;
            let e = tier_cost(request.tier_hint);
            let m = match request.max_cost_usd {
                Some(m) => m,
                None => 0,
            };
            &&& request.max_cost_usd is Some && m > e ==> c * m <= (m - e) * (PPM as int) && (m
                - e) * (PPM as int) < (c + 1) * m
            &&& request.max_cost_usd is Some && 0 < m <= e ==> c == 0
            &&& m <= 0 ==> c == PPM / 2
        }),
{
    let e = tier_cost(request.tier_hint);
    if let Some(m) = request.max_cost_usd {
        if m > e {
            let a = (m - e) * (PPM as int);
            vstd::arithmetic::div_mod::lemma_fundamental_div_mod(a, m);
            let q = a / m;
            assert(q * m <= a && a < (q + 1) * m) by (nonlinear_arith)
                requires
                    a == m * q + a % m,
                    0 <= a % m < m,
            ;
        }
    }
}

/// For the same tier, a larger positive budget never gives a smaller cost
/// score.
pub proof fn lemma_cost_score_grows_with_budget(
    tier: Option<Seq<char>>,
    smaller: int,
    larger: int,
)
    requires
        0 < smaller <= larger,
    ensures
        cost_score_for(Some(smaller), tier) <= cost_score_for(Some(larger), tier),
{
    let e = tier_cost(tier);
    let p = PPM as int;
    if smaller > e {
        let a1 = (smaller - e) * p;
        let a2 = (larger - e) * p;
        vstd::arithmetic::div_mod::lemma_fundamental_div_mod(a1, smaller);
        vstd::arithmetic::div_mod::lemma_fundamental_div_mod(a2, larger);
        let q1 = a1 / smaller;
        let q2 = a2 / larger;
        assert(q1 * smaller <= a1) by (nonlinear_arith)
            requires
                a1 == smaller * q1 + a1 % smaller,
                0 <= a1 % smaller,
        ;
        assert(q1 * larger <= a2) by (nonlinear_arith)
            requires
                q1 * smaller <= (smaller - e) * p,
                0 < smaller <= larger,
                e >= 0,
                p > 0,
                a2 == (larger - e) * p,
        ;
        assert(q1 <= q2) by (nonlinear_arith)
            requires
                q1 * larger <= a2,
                a2 == larger * q2 + a2 % larger,
                a2 % larger < larger,
                larger > 0,
        ;
    }
}

/// The total score is the weighted sum of the four components scaled back
/// to parts per million and rounded down: the largest `s` with
/// `s * PPM <= sum`.
pub proof fn lemma_score_is_weighted_sum(
    peer_name: Seq<char>,
    peer_caps: Seq<Seq<char>>,
    peer_load: int,
    request: RequestView,
    policy: PolicyView,
)
    ensures
        ({
            let c = candidate_for(peer_name, peer_caps, peer_load, request, policy);
            let sum = policy.weight_capability * c.capabilities_match + policy.weight_cost
                * c.cost_score + policy.weight_load * c.load_score + policy.weight_locality
                * c.locality_bonus;
            &&& c.score * (PPM as int) <= sum
            &&& sum < (c.score + 1) * (PPM as int)
        }),
{
    let c = candidate_for(peer_name, peer_caps, peer_load, request, policy);
    let sum = policy.weight_capability * c.capabilities_match + policy.weight_cost * c.cost_score
        + policy.weight_load * c.load_score + policy.weight_locality * c.locality_bonus;
    let d = PPM as int;
    vstd::arithmetic::div_mod::lemma_fundamental_div_mod(sum, d);
    let q = sum / d;
    assert(q * d <= sum && sum < (q + 1) * d) by (nonlinear_arith)
        requires
            sum == d * q + sum % d,
            0 <= sum % d < d,
    ;
}

/// The load score is one whole unit minus the load, where the load is
/// clamped to lie between zero and one whole unit.
pub proof fn lemma_load_score(
    peer_name: Seq<char>,
    peer_caps: Seq<Seq<char>>,
    peer_load: int,
    request: RequestView,
    policy: PolicyView,
)
    ensures
        ({
            let c = candidate_for(peer_name, peer_caps, peer_load, request, policy);
            &&& 0 <= peer_load <= PPM ==> c.load_score == PPM - peer_load
            &&& peer_load < 0 ==> c.load_score == PPM
            &&& peer_load > PPM ==> c.load_score == 0
        }),
{
}

/// A peer gets the locality bonus exactly when the request prefers it.
pub proof fn lemma_locality_bonus_exact(
    peer_name: Seq<char>,
    peer_caps: Seq<Seq<char>>,
    peer_load: int,
    request: RequestView,
    policy: PolicyView,
)
    ensures
        candidate_for(peer_name, peer_caps, peer_load, request, policy).locality_bonus == if request.preferred_locality
            == Some(peer_name) {
            PPM as int
        } else {
            0
        },
        candidate_for(peer_name, peer_caps, peer_load, request, policy).peer_name == peer_name,
{
}

/// The number of required capabilities that the peer has is the length of
/// the required list filtered by membership in the peer's capabilities.
proof fn lemma_matched_count_is_filter_len(required: Seq<Seq<char>>, caps: Seq<Seq<char>>)
    ensures
        matched_count(required, caps) == required.filter(|r: Seq<char>| caps.contains(r)).len(),
    decreases required.len(),
{
    reveal(Seq::filter);
    if required.len() > 0 {
        lemma_matched_count_is_filter_len(required.drop_last(), caps);
    }
}

/// With something required, the capability match is the share of the
/// required capabilities (counted with repetition) that the peer has, in
/// parts per million, rounded down.
pub proof fn lemma_capabilities_match_share(
    peer_name: Seq<char>,
    peer_caps: Seq<Seq<char>>,
    peer_load: int,
    request: RequestView,
    policy: PolicyView,
)
    ensures
        ({
            let c = candidate_for(peer_name, peer_caps, peer_load, request, policy).capabilities_match;
            let req = request.required_capabilities;
            let k = req.filter(|r: Seq<char>| peer_caps.contains(r)).len() as int;
            &&& req.len() > 0 ==> c * req.len() <= k * (PPM as int) && k * (PPM as int) < (c + 1)
                * req.len()
            &&& req.len() == 0 ==> c == PPM
        }),
{
    let req = request.required_capabilities;
    lemma_matched_count_is_filter_len(req, peer_caps);
    if req.len() > 0 {
        let n = req.len() as int;
        let a = (matched_count(req, peer_caps) * PPM) as int;
        vstd::arithmetic::div_mod::lemma_fundamental_div_mod(a, n);
        let q = a / n;
        assert(q * n <= a && a < (q + 1) * n) by (nonlinear_arith)
            requires
                a == n * q + a % n,
                0 <= a % n < n,
        ;
    }
}

/// Reading a stored row gives each weight from the row's field of the same
/// name, and privacy is enforced exactly when the stored flag is non-zero;
/// storing a policy writes each weight to the field of the same name and the
/// flag as 1 or 0.
pub proof fn lemma_row_fields_correspond(r: PolicyRowView, p: PolicyView)
    ensures
        policy_of_row(r).id == r.id,
        policy_of_row(r).name == r.name,
        policy_of_row(r).weight_capability == r.weight_capability,
        policy_of_row(r).weight_cost == r.weight_cost,
        policy_of_row(r).weight_load == r.weight_load,
        policy_of_row(r).weight_locality == r.weight_locality,
        policy_of_row(r).privacy_enforce <==> r.privacy_enforce != 0,
        row_of_policy(p).id == p.id,
        row_of_policy(p).name == p.name,
        row_of_policy(p).weight_capability == p.weight_capability,
        row_of_policy(p).weight_cost == p.weight_cost,
        row_of_policy(p).weight_load == p.weight_load,
        row_of_policy(p).weight_locality == p.weight_locality,
        p.privacy_enforce ==> row_of_policy(p).privacy_enforce == 1,
        !p.privacy_enforce ==> row_of_policy(p).privacy_enforce == 0,
{
}

/// Return the default scheduling policy.
pub fn default_policy() -> (p: SchedulerPolicy)
    ensures
        p@ == default_policy_view(),
{
    SchedulerPolicy {
        id: 0,
        name: String::from_str("default"),
        weight_capability: 400_000,
        weight_cost: 200_000,
        weight_load: 200_000,
        weight_locality: 200_000,
        privacy_enforce: true,
    }
}

/// Whether `caps` holds a string equal to `cap`.
pub(crate) fn contains_capability(caps: &[String], cap: &String) -> (found: bool)
    ensures
        found == strs(caps@).contains(cap@),
{
    let mut i: usize = 0;
    while i < caps.len()
        invariant
            0 <= i <= caps@.len(),
            forall|j: int| 0 <= j < i ==> caps@[j]@ != cap@,
        decreases caps@.len() - i,
    {
        if caps[i] == *cap {
            proof {
                assert(strs(caps@)[i as int] == cap@);
            }
            return true;
        }
        i = i + 1;
    }
    proof {
        if strs(caps@).contains(cap@) {
            let k = choose|k: int| 0 <= k < strs(caps@).len() && strs(caps@)[k] == cap@;
            assert(caps@[k]@ == cap@);
        }
    }
    false
}

/// The capability-match fraction of a peer for the required capabilities.
fn capabilities_match(required: &Vec<String>, peer_caps: &[String]) -> (m: u64)
    ensures
        m == capabilities_match_for(strs(required@), strs(peer_caps@)),
        m <= PPM,
{
    let n = required.len();
    if n == 0 {
        return PPM;
    }
    let mut matched: u64 = 0;
    let mut i: usize = 0;
    while i < n
        invariant
            n == required@.len(),
            0 <= i <= n,
            matched == matched_count(strs(required@).take(i as int), strs(peer_caps@)),
            matched <= i,
        decreases n - i,
    {
        let hit = contains_capability(peer_caps, &required[i]);
        proof {
            let s = strs(required@);
            assert(s.take(i + 1).drop_last() =~= s.take(i as int));
            assert(s.take(i + 1).last() == required@[i as int]@);
        }
        if hit {
            matched = matched + 1;
        }
        i = i + 1;
    }
    proof {
        assert(strs(required@).take(n as int) =~= strs(required@));
        assert(matched * PPM <= n * PPM) by (nonlinear_arith)
            requires
                matched <= n,
        ;
        assert((matched * PPM) / (n as int) <= PPM) by (nonlinear_arith)
            requires
                matched * PPM <= n * PPM,
                n > 0,
        ;
    }
    let r = (matched as u128 * PPM as u128) / (n as u128);
    r as u64
}


/// Estimate the cost of a tier, in micro-USD.
fn estimate_tier_cost(tier: &Option<String>) -> (c: u64)
    ensures
        c == tier_cost(opt_str(*tier)),
{
    match tier {
        Some(t) => {
            if *t == String::from_str("t1") {
                10_000
            } else if *t == String::from_str("t2") {
                50_000
            } else if *t == String::from_str("t3") {
                200_000
            } else if *t == String::from_str("t4") {
                1_000_000
            } else {
                100_000
            }
        },
        None => 100_000,
    }
}

/// The cost fraction for a budget and a tier hint.
fn cost_score(max_cost: Option<i64>, tier: &Option<String>) -> (s: u64)
    ensures
        s == cost_score_for(opt_int(max_cost), opt_str(*tier)),
        s <= PPM,
{
    match max_cost {
        Some(m) => {
            if m > 0 {
                let est = estimate_tier_cost(tier);
                if est >= m as u64 {
                    0
                } else {
                    let m_u = m as u64;
                    proof {
                        let a = m_u - est;
                        assert(a * PPM <= m_u * PPM) by (nonlinear_arith)
                            requires
                                a <= m_u,
                        ;
                        assert((a * PPM) / (m_u as int) <= PPM) by (nonlinear_arith)
                            requires
                                a * PPM <= m_u * PPM,
                                m_u > 0,
                        ;
                    }
                    let r = ((m_u - est) as u128 * PPM as u128) / (m_u as u128);
                    r as u64
                }
            } else {
                PPM / 2
            }
        },
        None => PPM / 2,
    }
}

/// The load fraction: one minus the load clamped to a whole unit.
fn load_score(peer_load: i64) -> (s: u64)
    ensures
        s == load_score_for(peer_load as int),
        s <= PPM,
{
    if peer_load < 0 {
        PPM
    } else if peer_load > PPM as i64 {
        0
    } else {
        PPM - peer_load as u64
    }
}

/// Floor division of a negative number by a positive one, through the
/// magnitude of the dividend.
proof fn lemma_floor_div_negative(s: int, d: int)
    requires
        s < 0,
        d > 0,
    ensures
        s / d == -((-s + d - 1) / d),
{
    let a = -s;
    let q = (a + d - 1) / d;
    let r = (a + d - 1) % d;
    vstd::arithmetic::div_mod::lemma_fundamental_div_mod(a + d - 1, d);
    assert(a + d - 1 == d * q + r);
    assert(s == (-q) * d + (d - 1 - r)) by (nonlinear_arith)
        requires
            a + d - 1 == d * q + r,
            s == -a,
    ;
    vstd::arithmetic::div_mod::lemma_fundamental_div_mod_converse(s, d, -q, d - 1 - r);
}

/// The weighted total of the four components, in parts per million.
fn weighted_total(
    policy: &SchedulerPolicy,
    capabilities_match: u64,
    cost_score: u64,
    load_score: u64,
    locality_bonus: u64,
) -> (t: i64)
    requires
        capabilities_match <= PPM,
        cost_score <= PPM,
        load_score <= PPM,
        locality_bonus <= PPM,
    ensures
        t == total_score(policy@, capabilities_match as int, cost_score as int, load_score as int, locality_bonus as int),
{
    let wc = policy.weight_capability as i64;
    let wo = policy.weight_cost as i64;
    let wl = policy.weight_load as i64;
    let wb = policy.weight_locality as i64;
    let cm = capabilities_match as i64;
    let cs = cost_score as i64;
    let ls = load_score as i64;
    let lb = locality_bonus as i64;
    proof {
        assert forall|w: int, c: int|
            -0x8000_0000 <= w <= 0x7fff_ffff && 0 <= c <= 1_000_000 implies
            -0x8000_0000 * 1_000_000 <= #[trigger] (w * c) <= 0x7fff_ffff * 1_000_000 by {
            assert(-0x8000_0000 * 1_000_000 <= w * c <= 0x7fff_ffff * 1_000_000) by (nonlinear_arith)
                requires
                    -0x8000_0000 <= w <= 0x7fff_ffff,
                    0 <= c <= 1_000_000,
            ;
        }
        assert(-0x8000_0000 * 1_000_000 <= wc * cm <= 0x7fff_ffff * 1_000_000);
        assert(-0x8000_0000 * 1_000_000 <= wo * cs <= 0x7fff_ffff * 1_000_000);
        assert(-0x8000_0000 * 1_000_000 <= wl * ls <= 0x7fff_ffff * 1_000_000);
        assert(-0x8000_0000 * 1_000_000 <= wb * lb <= 0x7fff_ffff * 1_000_000);
    }
    let sum: i64 = wc * cm + wo * cs + wl * ls + wb * lb;
    if sum >= 0 {
        (sum as u64 / PPM) as i64
    } else {
        proof {
            lemma_floor_div_negative(sum as int, PPM as int);
        }
        let q = ((-sum) as u64 + (PPM - 1)) / PPM;
        -(q as i64)
    }
}

/// Score a peer for a scheduling request using the given policy weights.
///
/// `peer_load` is the peer's load in parts per million; it is clamped to
/// `[0, PPM]` before use.
pub fn score_peer(
    peer_name: &str,
    peer_caps: &[String],
    peer_load: i64,
    request: &SchedulingRequest,
    policy: &SchedulerPolicy,
) -> (c: PeerCandidate)
    ensures
        c@ == candidate_for(peer_name@, strs(peer_caps@), peer_load as int, request@, policy@),
{
    let capabilities_match = capabilities_match(&request.required_capabilities, peer_caps);
    let cost_score = cost_score(request.max_cost_usd, &request.tier_hint);
    let load_score = load_score(peer_load);
    let name = String::from_str(peer_name);
    let locality_bonus: u64 = match &request.preferred_locality {
        Some(loc) => if *loc == name {
            PPM
        } else {
            0
        },
        None => 0,
    };
    let score = weighted_total(policy, capabilities_match, cost_score, load_score, locality_bonus);
    PeerCandidate {
        peer_name: name,
        score,
        capabilities_match,
        cost_score,
        load_score,
        locality_bonus,
    }
}


/// Whether `s[i]` is the candidate that selection picks: its score is the
/// highest, and no later candidate reaches it (the last of equal maxima).
pub open spec fn is_best_at(s: Seq<CandidateView>, i: int) -> bool {
    &&& 0 <= i < s.len()
    &&& forall|j: int| 0 <= j < s.len() ==> s[j].score <= s[i].score
    &&& forall|j: int| i < j < s.len() ==> s[j].score < s[i].score
}

/// At most one position of a list is the best one.
pub proof fn lemma_best_is_unique(s: Seq<CandidateView>, i: int, j: int)
    requires
        is_best_at(s, i),
        is_best_at(s, j),
    ensures
        i == j,
{
    if i < j {
        assert(s[j].score < s[i].score);
        assert(s[i].score <= s[j].score);
    } else if j < i {
        assert(s[i].score < s[j].score);
        assert(s[j].score <= s[i].score);
    }
}

/// The index of the best candidate of a non-empty list.
fn best_index(candidates: &Vec<PeerCandidate>) -> (b: usize)
    requires
        candidates@.len() > 0,
    ensures
        is_best_at(candidates_view(candidates@), b as int),
{
    let ghost s = candidates_view(candidates@);
    let mut b: usize = 0;
    let mut i: usize = 1;
    while i < candidates.len()
        invariant
            s == candidates_view(candidates@),
            1 <= i <= candidates@.len(),
            is_best_at(s.take(i as int), b as int),
        decreases candidates@.len() - i,
    {
        if candidates[i].score >= candidates[b].score {
            b = i;
        }
        i = i + 1;
    }
    assert(s.take(i as int) =~= s);
    b
}

/// Select the best peer from a list of scored candidates: the one with the
/// highest score, the last one among equals; `None` for an empty list.
pub fn select_best(candidates: Vec<PeerCandidate>) -> (best: Option<PeerCandidate>)
    ensures
        best is None <==> candidates@.len() == 0,
        best matches Some(c) ==> exists|i: int|
            is_best_at(candidates_view(candidates@), i) && c@ == candidates@[i]@,
{
    if candidates.len() == 0 {
        return None;
    }
    let b = best_index(&candidates);
    let mut rest = candidates;
    let c = rest.remove(b);
    Some(c)
}

} // verus!
