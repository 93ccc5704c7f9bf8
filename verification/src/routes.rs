//! The decisions behind the scheduler's HTTP API: assigning a task to the
//! best peer, grouping the capabilities of peers, and the history limit.

use vstd::prelude::*;

use crate::policy::{candidate_for, contains_capability, is_best_at, score_peer, select_best};
use crate::text::{fixed3, percent, push_fixed3, push_percent};
use crate::types::{
    candidates_view, strs, CandidateView, DecisionView, PeerCandidate, PolicyView, RequestView,
    SchedulerPolicy, SchedulingDecision, SchedulingRequest, PPM,
};

verus! {

/// Why no decision could be made.
#[derive(Debug, Clone, Copy, PartialEq, Eq, Structural)]
pub enum DecideError {
    /// No peer with capabilities is known.
    NoPeers,
    /// No candidate could be selected.
    NoMatch,
}

/// The names and capability lists of peers, as character sequences.
pub open spec fn peers_view(peers: Seq<(String, Vec<String>)>) -> Seq<(Seq<char>, Seq<Seq<char>>)> {
    peers.map_values(|p: (String, Vec<String>)| (p.0@, strs(p.1@)))
}

/// The candidates that scoring every peer at zero load yields, in order.
pub open spec fn peer_candidates(
    peers: Seq<(Seq<char>, Seq<Seq<char>>)>,
    request: RequestView,
    policy: PolicyView,
) -> Seq<CandidateView> {
    Seq::new(peers.len(), |i: int| candidate_for(peers[i].0, peers[i].1, 0, request, policy))
}

/// The human-readable reason of a decision, such as
/// `score 0.750, caps 100%`.
pub open spec fn reason_text(score: int, capabilities_match: nat) -> Seq<char> {
    "score "@ + fixed3(score) + ", caps "@ + percent(capabilities_match) + "%"@
}

/// The estimated cost, in micro-USD: the cost fraction of the budget (one
/// tenth of a USD when none is given), rounded toward zero.
pub open spec fn estimated_cost_for(cost_score: int, max_cost: Option<int>) -> int {
    let m = match max_cost {
        Some(m) => m,
        None => 100_000,
    };
    if m >= 0 {
        cost_score * m / (PPM as int)
    } else {
        -((cost_score * (-m)) / (PPM as int))
    }
}

/// The tier of a decision: the request's hint, `t2` when there is none.
pub open spec fn assigned_tier_for(tier_hint: Option<Seq<char>>) -> Seq<char> {
    match tier_hint {
        Some(t) => t,
        None => "t2"@,
    }
}

/// The candidates whose peer is not `name`, in order.
pub open spec fn others(cands: Seq<CandidateView>, name: Seq<char>) -> Seq<CandidateView> {
    cands.filter(|c: CandidateView| c.peer_name != name)
}

/// The decision that assigns the task of `request` to candidate `b`.
pub open spec fn decision_for(request: RequestView, cands: Seq<CandidateView>, b: int) -> DecisionView {
    DecisionView {
        task_id: request.task_id,
        assigned_peer: cands[b].peer_name,
        assigned_tier: assigned_tier_for(request.tier_hint),
        estimated_cost: estimated_cost_for(cands[b].cost_score, request.max_cost_usd),
        reason: reason_text(cands[b].score, cands[b].capabilities_match as nat),
        alternatives: others(cands, cands[b].peer_name),
    }
}

/// With a positive budget, the estimated cost of a candidate lies between
/// zero and the budget.
pub proof fn lemma_estimated_cost_within_budget(cost_score: int, max_cost: int)
    requires
        0 <= cost_score <= PPM,
        max_cost > 0,
    ensures
        0 <= estimated_cost_for(cost_score, Some(max_cost)) <= max_cost,
{
    assert(0 <= cost_score * max_cost / (PPM as int) <= max_cost) by (nonlinear_arith)
        requires
            0 <= cost_score <= PPM,
            max_cost > 0,
    ;
}

/// No alternative of a decision is the assigned peer, and every candidate
/// of another peer is an alternative.
pub proof fn lemma_alternatives_exclude_assigned(
    request: RequestView,
    cands: Seq<CandidateView>,
    b: int,
)
    requires
        0 <= b < cands.len(),
    ensures
        forall|i: int|
            0 <= i < decision_for(request, cands, b).alternatives.len() ==> (
            #[trigger] decision_for(request, cands, b).alternatives[i]).peer_name
                != decision_for(request, cands, b).assigned_peer,
        forall|i: int|
            0 <= i < cands.len() && cands[i].peer_name != cands[b].peer_name ==> decision_for(
                request,
                cands,
                b,
            ).alternatives.contains(#[trigger] cands[i]),
{
    broadcast use vstd::seq_lib::group_filter_ensures;

    let name = cands[b].peer_name;
    let pred = |c: CandidateView| c.peer_name != name;
    assert forall|i: int| 0 <= i < cands.filter(pred).len() implies (#[trigger] cands.filter(
        pred,
    )[i]).peer_name != name by {
        cands.lemma_filter_pred(pred, i);
    }
    assert forall|i: int| 0 <= i < cands.len() && cands[i].peer_name != name implies cands.filter(
        pred,
    ).contains(#[trigger] cands[i]) by {
        cands.lemma_filter_contains(pred, i);
    }
}

/// The fields of a decision for the best candidate `b`: the task of the
/// request; the peer of candidate `b`; the tier hint of the request, or
/// `t2` without one; and the cost fraction of candidate `b` applied to the
/// budget (one tenth of a USD when none is given), rounded toward zero.
pub proof fn lemma_decision_fields(request: RequestView, cands: Seq<CandidateView>, b: int)
    requires
        0 <= b < cands.len(),
    ensures
        ({
            let d = decision_for(request, cands, b);
            let cs = cands[b].cost_score;
            let m = match request.max_cost_usd {
                Some(m) => m,
                None => 100_000,
            };
            let p = PPM as int;
            &&& d.task_id == request.task_id
            &&& d.assigned_peer == cands[b].peer_name
            &&& request.tier_hint matches Some(t) ==> d.assigned_tier == t
            &&& request.tier_hint is None ==> d.assigned_tier == "t2"@
            &&& cs >= 0 && m >= 0 ==> d.estimated_cost * p <= cs * m && cs * m < (d.estimated_cost + 1) * p
            &&& cs >= 0 && m < 0 ==> -d.estimated_cost * p <= cs * (-m) && cs * (-m) < (-d.estimated_cost + 1) * p
        }),
{
    let cs = cands[b].cost_score;
    let m = match request.max_cost_usd {
        Some(m) => m,
        None => 100_000,
    };
    let p = PPM as int;
    if cs >= 0 {
        let a = if m >= 0 { cs * m } else { cs * (-m) };
        assert(a >= 0) by (nonlinear_arith)
            requires
                cs >= 0,
                a == cs * m || a == cs * (-m),
                (m >= 0 ==> a == cs * m),
                (m < 0 ==> a == cs * (-m)),
        ;
        vstd::arithmetic::div_mod::lemma_fundamental_div_mod(a, p);
        let q = a / p;
        assert(q * p <= a && a < (q + 1) * p) by (nonlinear_arith)
            requires
                a == p * q + a % p,
                0 <= a % p < p,
        ;
    }
}

/// The estimated cost of a decision, in micro-USD.
fn estimated_cost(cost_score: u64, max_cost: Option<i64>) -> (c: i64)
    requires
        cost_score <= PPM,
    ensures
        c == estimated_cost_for(cost_score as int, crate::types::opt_int(max_cost)),
{
    let m: i64 = match max_cost {
        Some(m) => m,
        None => 100_000,
    };
    let mag: u128 = if m >= 0 {
        m as u128
    } else {
        (-(m as i128)) as u128
    };
    proof {
        assert(cost_score * mag <= PPM * mag) by (nonlinear_arith)
            requires
                cost_score <= PPM,
        ;
        assert((cost_score * mag) / (PPM as int) <= mag) by (nonlinear_arith)
            requires
                cost_score * mag <= PPM * mag,
        ;
    }
    let q: u128 = (cost_score as u128 * mag) / (PPM as u128);
    if m >= 0 {
        q as i64
    } else {
        (-(q as i128)) as i64
    }
}

/// The reason text of a decision.
fn decision_reason(score: i64, capabilities_match: u64) -> (r: String)
    ensures
        r@ == reason_text(score as int, capabilities_match as nat),
{
    let mut r = String::from_str("score ");
    push_fixed3(&mut r, score);
    r.append(", caps ");
    push_percent(&mut r, capabilities_match);
    r.append("%");
    proof {
        assert(r@ =~= reason_text(score as int, capabilities_match as nat));
    }
    r
}

/// Copies of the candidates whose peer is not `name`, in order.
fn other_candidates(cands: &Vec<PeerCandidate>, name: &String) -> (alts: Vec<PeerCandidate>)
    ensures
        candidates_view(alts@) == others(candidates_view(cands@), name@),
{
    let ghost s = candidates_view(cands@);
    let mut alts: Vec<PeerCandidate> = Vec::new();
    let mut i: usize = 0;
    while i < cands.len()
        invariant
            s == candidates_view(cands@),
            0 <= i <= cands@.len(),
            candidates_view(alts@) == others(s.take(i as int), name@),
        decreases cands@.len() - i,
    {
        proof {
            reveal(Seq::filter);
            assert(s.take(i + 1).drop_last() =~= s.take(i as int));
        }
        if cands[i].peer_name != *name {
            let c = cands[i].duplicate();
            alts.push(c);
            assert(candidates_view(alts@) =~= others(s.take(i as int), name@).push(s[i as int]));
        } else {
            assert(s[i as int].peer_name == name@);
        }
        i = i + 1;
    }
    assert(s.take(i as int) =~= s);
    alts
}

/// Decide which peer gets the task of `request`: every peer is scored at
/// zero load under `policy`, the best candidate is assigned, and the others
/// are listed as alternatives.
pub fn decide(
    request: &SchedulingRequest,
    policy: &SchedulerPolicy,
    peers: &Vec<(String, Vec<String>)>,
) -> (r: Result<SchedulingDecision, DecideError>)
    ensures
        r is Err <==> peers@.len() == 0,
        r matches Err(e) ==> e == DecideError::NoPeers,
        r matches Ok(d) ==> exists|b: int|
            is_best_at(peer_candidates(peers_view(peers@), request@, policy@), b)
                && d@ == decision_for(
                request@,
                peer_candidates(peers_view(peers@), request@, policy@),
                b,
            ),
{
    if peers.len() == 0 {
        return Err(DecideError::NoPeers);
    }
    let ghost cs = peer_candidates(peers_view(peers@), request@, policy@);
    let mut candidates: Vec<PeerCandidate> = Vec::new();
    let mut copies: Vec<PeerCandidate> = Vec::new();
    let mut i: usize = 0;
    while i < peers.len()
        invariant
            cs == peer_candidates(peers_view(peers@), request@, policy@),
            0 <= i <= peers@.len(),
            candidates_view(candidates@) == cs.take(i as int),
            candidates_view(copies@) == cs.take(i as int),
        decreases peers@.len() - i,
    {
        let c = score_peer(peers[i].0.as_str(), peers[i].1.as_slice(), 0, request, policy);
        let d = c.duplicate();
        let ghost old_candidates = candidates@;
        let ghost old_copies = copies@;
        candidates.push(c);
        copies.push(d);
        proof {
            assert(cs[i as int] == c@);
            assert(candidates_view(old_candidates).len() == i);
            assert(candidates_view(old_copies).len() == i);
            assert(candidates_view(candidates@) =~= cs.take(i + 1));
            assert(candidates_view(copies@) =~= cs.take(i + 1));
        }
        i = i + 1;
    }
    assert(cs.take(i as int) =~= cs);
    let best = match select_best(copies) {
        Some(b) => b,
        None => return Err(DecideError::NoMatch),
    };
    let ghost b = choose|b: int| is_best_at(cs, b) && best@ == copies@[b]@;
    proof {
        let p = peers_view(peers@)[b];
        crate::policy::lemma_candidate_components_bounded(p.0, p.1, 0, request@, policy@);
        assert(candidates_view(copies@)[b] == cs[b]);
        assert(best@ == cs[b]);
    }
    let assigned_tier = match &request.tier_hint {
        Some(t) => t.clone(),
        None => String::from_str("t2"),
    };
    let estimated_cost = estimated_cost(best.cost_score, request.max_cost_usd);
    let reason = decision_reason(best.score, best.capabilities_match);
    let alternatives = other_candidates(&candidates, &best.peer_name);
    let d = SchedulingDecision {
        task_id: request.task_id,
        assigned_peer: best.peer_name,
        assigned_tier,
        estimated_cost,
        reason,
        alternatives,
    };
    proof {
        assert(best@ == cs[b]);
        assert(d@ =~= decision_for(request@, cs, b));
    }
    Ok(d)
}


/// The peer names of capability rows, as character sequences.
pub open spec fn row_peers(rows: Seq<(String, String)>) -> Seq<Seq<char>> {
    rows.map_values(|r: (String, String)| r.0@)
}

/// The capability rows as pairs of character sequences.
pub open spec fn rows_view(rows: Seq<(String, String)>) -> Seq<(Seq<char>, Seq<char>)> {
    rows.map_values(|r: (String, String)| (r.0@, r.1@))
}

/// The capabilities that the rows give to `peer` are exactly the rows whose
/// peer is `peer`, in row order, each taken by its capability: every such
/// row contributes one entry, and no other row does.
pub proof fn lemma_capabilities_of_rows(rows: Seq<(Seq<char>, Seq<char>)>, peer: Seq<char>)
    ensures
        capabilities_of(rows, peer) == rows.filter(|r: (Seq<char>, Seq<char>)| r.0 == peer).map_values(
            |r: (Seq<char>, Seq<char>)| r.1,
        ),
    decreases rows.len(),
{
    reveal(Seq::filter);
    if rows.len() > 0 {
        lemma_capabilities_of_rows(rows.drop_last(), peer);
        let pred = |r: (Seq<char>, Seq<char>)| r.0 == peer;
        let f = |r: (Seq<char>, Seq<char>)| r.1;
        let sub = rows.drop_last().filter(pred);
        if rows.last().0 == peer {
            assert(sub.push(rows.last()).map_values(f) =~= sub.map_values(f).push(rows.last().1));
        }
    }
}

/// The distinct entries of `s`, each at the position of its first occurrence.
pub open spec fn distinct_in_order(s: Seq<Seq<char>>) -> Seq<Seq<char>>
    decreases s.len(),
{
    if s.len() == 0 {
        Seq::empty()
    } else {
        let prefix = distinct_in_order(s.drop_last());
        if prefix.contains(s.last()) {
            prefix
        } else {
            prefix.push(s.last())
        }
    }
}

/// The capabilities that the rows give to `peer`, in row order.
pub open spec fn capabilities_of(rows: Seq<(Seq<char>, Seq<char>)>, peer: Seq<char>) -> Seq<Seq<char>>
    decreases rows.len(),
{
    if rows.len() == 0 {
        Seq::empty()
    } else {
        let prefix = capabilities_of(rows.drop_last(), peer);
        if rows.last().0 == peer {
            prefix.push(rows.last().1)
        } else {
            prefix
        }
    }
}

/// The names of `distinct_in_order(s)` are exactly those of `s`, each once.
pub proof fn lemma_distinct_in_order(s: Seq<Seq<char>>)
    ensures
        distinct_in_order(s).no_duplicates(),
        forall|x: Seq<char>| #[trigger] distinct_in_order(s).contains(x) <==> s.contains(x),
    decreases s.len(),
{
    if s.len() > 0 {
        let t = s.drop_last();
        let l = s.last();
        let p = distinct_in_order(t);
        lemma_distinct_in_order(t);
        assert(s =~= t.push(l));
        assert forall|x: Seq<char>| s.contains(x) <==> (t.contains(x) || x == l) by {
            if s.contains(x) && x != l {
                let k = choose|k: int| 0 <= k < s.len() && s[k] == x;
                assert(k != s.len() - 1);
                assert(t[k] == x);
            }
            if t.contains(x) {
                let k = choose|k: int| 0 <= k < t.len() && t[k] == x;
                assert(s[k] == x);
            }
            if x == l {
                assert(s[s.len() - 1] == x);
            }
        }
        if !p.contains(l) {
            let q = p.push(l);
            assert forall|x: Seq<char>| q.contains(x) <==> (p.contains(x) || x == l) by {
                if q.contains(x) && x != l {
                    let k = choose|k: int| 0 <= k < q.len() && q[k] == x;
                    assert(k != q.len() - 1);
                    assert(p[k] == x);
                }
                if p.contains(x) {
                    let k = choose|k: int| 0 <= k < p.len() && p[k] == x;
                    assert(q[k] == x);
                }
                if x == l {
                    assert(q[q.len() - 1] == x);
                }
            }
            assert forall|a: int, b: int| 0 <= a < q.len() && 0 <= b < q.len() && a != b implies q[a] != q[b] by {
                if a == q.len() - 1 {
                    assert(p[b] == q[b]);
                } else if b == q.len() - 1 {
                    assert(p[a] == q[a]);
                } else {
                    assert(p[a] == q[a] && p[b] == q[b]);
                }
            }
        }
    }
}

/// Group capability rows `(peer, capability)` by peer: one entry per peer,
/// in the order in which the peers first occur, each with its capabilities
/// in row order.
///
/// The distinct peer names are collected first, in row order, and each
/// name's capabilities are then gathered by a pass over the rows, so the
/// result has a fixed order: peers as they first occur.
pub fn group_capabilities(rows: &Vec<(String, String)>) -> (peers: Vec<(String, Vec<String>)>)
    ensures
        peers_view(peers@) == distinct_in_order(row_peers(rows@)).map_values(
            |p: Seq<char>| (p, capabilities_of(rows_view(rows@), p)),
        ),
{
    let ghost names_all = row_peers(rows@);
    let ghost rv = rows_view(rows@);
    let mut names: Vec<String> = Vec::new();
    let mut i: usize = 0;
    while i < rows.len()
        invariant
            names_all == row_peers(rows@),
            0 <= i <= rows@.len(),
            strs(names@) == distinct_in_order(names_all.take(i as int)),
        decreases rows@.len() - i,
    {
        proof {
            assert(names_all.take(i + 1).drop_last() =~= names_all.take(i as int));
            assert(names_all.take(i + 1).last() == rows@[i as int].0@);
        }
        if !contains_capability(names.as_slice(), &rows[i].0) {
            let n = rows[i].0.clone();
            names.push(n);
            assert(strs(names@) =~= distinct_in_order(names_all.take(i + 1)));
        }
        i = i + 1;
    }
    assert(names_all.take(i as int) =~= names_all);
    let ghost d = distinct_in_order(names_all);
    let mut peers: Vec<(String, Vec<String>)> = Vec::new();
    let mut j: usize = 0;
    while j < names.len()
        invariant
            names_all == row_peers(rows@),
            rv == rows_view(rows@),
            d == distinct_in_order(names_all),
            strs(names@) == d,
            0 <= j <= names@.len(),
            peers_view(peers@) == d.take(j as int).map_values(
                |p: Seq<char>| (p, capabilities_of(rv, p)),
            ),
        decreases names@.len() - j,
    {
        let name = &names[j];
        let mut caps: Vec<String> = Vec::new();
        let mut k: usize = 0;
        while k < rows.len()
            invariant
                rv == rows_view(rows@),
                0 <= k <= rows@.len(),
                strs(caps@) == capabilities_of(rv.take(k as int), name@),
            decreases rows@.len() - k,
        {
            proof {
                assert(rv.take(k + 1).drop_last() =~= rv.take(k as int));
                assert(rv.take(k + 1).last() == (rows@[k as int].0@, rows@[k as int].1@));
            }
            if rows[k].0 == *name {
                let c = rows[k].1.clone();
                caps.push(c);
                assert(strs(caps@) =~= capabilities_of(rv.take(k + 1), name@));
            }
            k = k + 1;
        }
        assert(rv.take(k as int) =~= rv);
        let ghost old_peers = peers@;
        let ghost caps_view = caps@;
        peers.push((name.clone(), caps));
        proof {
            assert(strs(names@)[j as int] == name@);
            assert(peers_view(peers@) =~= d.take(j + 1).map_values(
                |p: Seq<char>| (p, capabilities_of(rv, p)),
            )) by {
                assert(peers_view(old_peers) == d.take(j as int).map_values(
                    |p: Seq<char>| (p, capabilities_of(rv, p)),
                ));
                assert(peers_view(old_peers).len() == j);
                assert(strs(caps_view) == capabilities_of(rv, name@));
                assert(peers@[j as int].0@ == name@);
                assert(peers@[j as int].1@ == caps_view);
                assert(peers_view(peers@)[j as int] == (name@, capabilities_of(rv, name@)));
                assert(d[j as int] == name@);
                let f = |p: Seq<char>| (p, capabilities_of(rv, p));
                assert forall|m: int| 0 <= m <= j implies peers_view(peers@)[m] == d.take(j + 1).map_values(f)[m] by {
                    if m < j {
                        assert(peers@[m] == old_peers[m]);
                        assert(peers_view(old_peers)[m] == d.take(j as int).map_values(f)[m]);
                    }
                }
            }
        }
        j = j + 1;
    }
    assert(d.take(j as int) =~= d);
    peers
}

/// Query parameters of the decision history.
#[derive(Debug, Clone)]
pub struct HistoryQuery {
    pub limit: Option<i64>,
}

/// The number of history entries to return: the requested limit, 20 when
/// none is given, and never more than 100.
pub open spec fn history_limit_for(limit: Option<i64>) -> int {
    match limit {
        Some(l) => if l < 100 {
            l as int
        } else {
            100
        },
        None => 20,
    }
}

/// The history limit is the requested limit capped at 100, and 20 when no
/// limit is requested.
pub proof fn lemma_history_limit(limit: i64)
    ensures
        limit <= 100 ==> history_limit_for(Some(limit)) == limit,
        limit >= 100 ==> history_limit_for(Some(limit)) == 100,
        history_limit_for(None) == 20,
{
}

/// The number of history entries that `query` asks for.
pub fn history_limit(query: &HistoryQuery) -> (l: i64)
    ensures
        l == history_limit_for(query.limit),
        l <= 100,
{
    let l = match query.limit {
        Some(l) => l,
        None => 20,
    };
    if l < 100 {
        l
    } else {
        100
    }
}

} // verus!
