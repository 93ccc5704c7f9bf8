use convergio_scheduler::policy::{
    default_policy, policy_from_row, policy_row, score_peer, select_best, PolicyRow,
};
use convergio_scheduler::types::{PeerCandidate, SchedulingRequest, PPM};

fn sample_request() -> SchedulingRequest {
    SchedulingRequest {
        task_id: 1,
        plan_id: 1,
        required_capabilities: vec!["gpu".into(), "voice".into()],
        preferred_locality: None,
        privacy_level: "public".into(),
        // 1.0 USD
        max_cost_usd: Some(1_000_000),
        tier_hint: Some("t2".into()),
    }
}

fn candidate(name: &str, score: i64) -> PeerCandidate {
    PeerCandidate {
        peer_name: name.into(),
        score,
        capabilities_match: PPM,
        cost_score: 500_000,
        load_score: 300_000,
        locality_bonus: 0,
    }
}

#[test]
fn test_score_peer_all_caps_match() {
    let policy = default_policy();
    let req = sample_request();
    let caps: Vec<String> = vec!["gpu".into(), "voice".into(), "compute".into()];
    // load 0.2
    let c = score_peer("darwin-m4", &caps, 200_000, &req, &policy);
    assert_eq!(c.capabilities_match, PPM);
    assert!(c.score > 700_000, "expected high score, got {}", c.score);
}

#[test]
fn test_score_peer_no_caps() {
    let policy = default_policy();
    let req = sample_request();
    let caps: Vec<String> = vec![];
    // load 0.5
    let c = score_peer("linux-a100", &caps, 500_000, &req, &policy);
    assert_eq!(c.capabilities_match, 0);
    assert!(c.score < 400_000, "expected low score, got {}", c.score);
}

#[test]
fn test_select_best() {
    let candidates = vec![
        PeerCandidate {
            peer_name: "peer-a".into(),
            score: 600_000,
            capabilities_match: PPM,
            cost_score: 500_000,
            load_score: 300_000,
            locality_bonus: 0,
        },
        PeerCandidate {
            peer_name: "peer-b".into(),
            score: 900_000,
            capabilities_match: PPM,
            cost_score: 800_000,
            load_score: 800_000,
            locality_bonus: PPM,
        },
    ];
    let best = select_best(candidates).unwrap();
    assert_eq!(best.peer_name, "peer-b");
}

#[test]
fn test_default_policy_weights_sum_to_one() {
    let p = default_policy();
    let sum = p.weight_capability as i64 + p.weight_cost as i64 + p.weight_load as i64
        + p.weight_locality as i64;
    assert_eq!(sum, PPM as i64);
}

#[test]
fn test_locality_bonus() {
    let policy = default_policy();
    let mut req = sample_request();
    req.preferred_locality = Some("darwin-m4".into());
    let caps: Vec<String> = vec!["gpu".into(), "voice".into()];
    let local = score_peer("darwin-m4", &caps, 200_000, &req, &policy);
    let remote = score_peer("linux-a100", &caps, 200_000, &req, &policy);
    assert!(local.locality_bonus > remote.locality_bonus);
    assert!(local.score > remote.score);
}

#[test]
fn score_components_exact_values() {
    let policy = default_policy();
    let req = sample_request();
    let caps: Vec<String> = vec!["gpu".into(), "voice".into(), "compute".into()];
    let c = score_peer("darwin-m4", &caps, 200_000, &req, &policy);
    assert_eq!(c.peer_name, "darwin-m4");
    assert_eq!(c.cost_score, 950_000);
    assert_eq!(c.load_score, 800_000);
    assert_eq!(c.locality_bonus, 0);
    // 0.4 * 1 + 0.2 * 0.95 + 0.2 * 0.8 + 0.2 * 0
    assert_eq!(c.score, 750_000);
}

#[test]
fn partial_capability_match_rounds_down() {
    let policy = default_policy();
    let mut req = sample_request();
    req.required_capabilities = vec!["gpu".into(), "voice".into(), "npu".into()];
    let caps: Vec<String> = vec!["voice".into()];
    let c = score_peer("p", &caps, 0, &req, &policy);
    assert_eq!(c.capabilities_match, 333_333);
}

#[test]
fn repeated_requirements_count_each_time() {
    let policy = default_policy();
    let mut req = sample_request();
    req.required_capabilities = vec!["gpu".into(), "gpu".into(), "npu".into(), "tpu".into()];
    let caps: Vec<String> = vec!["gpu".into()];
    let c = score_peer("p", &caps, 0, &req, &policy);
    assert_eq!(c.capabilities_match, 500_000);
}

#[test]
fn nothing_required_matches_fully() {
    let policy = default_policy();
    let mut req = sample_request();
    req.required_capabilities = vec![];
    let c = score_peer("p", &[], 0, &req, &policy);
    assert_eq!(c.capabilities_match, PPM);
}

#[test]
fn tier_costs_against_one_dollar_budget() {
    let policy = default_policy();
    let cases: Vec<(Option<&str>, u64)> = vec![
        (Some("t1"), 990_000),
        (Some("t2"), 950_000),
        (Some("t3"), 800_000),
        (Some("t4"), 0),
        (Some("t9"), 900_000),
        (None, 900_000),
    ];
    for (tier, expected) in cases {
        let mut req = sample_request();
        req.tier_hint = tier.map(|t| t.to_string());
        let c = score_peer("p", &[], 0, &req, &policy);
        assert_eq!(c.cost_score, expected, "tier {:?}", tier);
    }
}

#[test]
fn cost_score_without_positive_budget_is_one_half() {
    let policy = default_policy();
    for budget in [None, Some(0), Some(-5_000_000)] {
        let mut req = sample_request();
        req.max_cost_usd = budget;
        let c = score_peer("p", &[], 0, &req, &policy);
        assert_eq!(c.cost_score, 500_000);
    }
}

#[test]
fn budget_below_tier_cost_scores_zero() {
    let policy = default_policy();
    let mut req = sample_request();
    // 0.04 USD budget, t2 costs 0.05
    req.max_cost_usd = Some(40_000);
    let c = score_peer("p", &[], 0, &req, &policy);
    assert_eq!(c.cost_score, 0);
}

#[test]
fn load_is_clamped() {
    let policy = default_policy();
    let req = sample_request();
    assert_eq!(score_peer("p", &[], -300_000, &req, &policy).load_score, PPM);
    assert_eq!(score_peer("p", &[], 2_500_000, &req, &policy).load_score, 0);
    assert_eq!(score_peer("p", &[], 250_000, &req, &policy).load_score, 750_000);
}

#[test]
fn negative_weights_round_down() {
    let mut policy = default_policy();
    policy.weight_capability = -1;
    policy.weight_cost = 0;
    policy.weight_load = 0;
    policy.weight_locality = 0;
    let req = sample_request();
    let caps: Vec<String> = vec!["gpu".into(), "voice".into()];
    let c = score_peer("p", &caps, 0, &req, &policy);
    // -1 * 1_000_000 / 1_000_000
    assert_eq!(c.score, -1);
    policy.weight_capability = -3;
    req_with_half_match(&policy);
}

fn req_with_half_match(policy: &convergio_scheduler::types::SchedulerPolicy) {
    let mut req = sample_request();
    req.required_capabilities = vec!["gpu".into(), "npu".into()];
    let caps: Vec<String> = vec!["gpu".into()];
    let c = score_peer("p", &caps, 0, &req, policy);
    // -3 * 500_000 / 1_000_000 = -1.5, rounded down to -2
    assert_eq!(c.score, -2);
}

#[test]
fn select_best_of_nothing_is_none() {
    assert!(select_best(vec![]).is_none());
}

#[test]
fn select_best_prefers_the_last_of_equal_scores() {
    let best = select_best(vec![
        candidate("a", 5),
        candidate("b", 9),
        candidate("c", 9),
        candidate("d", 1),
    ])
    .unwrap();
    assert_eq!(best.peer_name, "c");
}

#[test]
fn default_policy_values() {
    let p = default_policy();
    assert_eq!(p.id, 0);
    assert_eq!(p.name, "default");
    assert_eq!(p.weight_capability, 400_000);
    assert_eq!(p.weight_cost, 200_000);
    assert_eq!(p.weight_load, 200_000);
    assert_eq!(p.weight_locality, 200_000);
    assert!(p.privacy_enforce);
}

#[test]
fn missing_policy_row_gives_default() {
    let p = policy_from_row(None);
    assert_eq!(p.name, "default");
    assert_eq!(p.weight_capability, 400_000);
}

#[test]
fn stored_policy_reads_back() {
    let mut policy = default_policy();
    policy.weight_capability = 600_000;
    policy.weight_cost = 100_000;
    policy.weight_load = 200_000;
    policy.weight_locality = 100_000;
    policy.privacy_enforce = false;
    let row = policy_row(&policy);
    assert_eq!(row.privacy_enforce, 0);
    let loaded = policy_from_row(Some(row));
    assert_eq!(loaded.name, "default");
    assert_eq!(loaded.weight_capability, 600_000);
    assert_eq!(loaded.weight_cost, 100_000);
    assert_eq!(loaded.weight_load, 200_000);
    assert_eq!(loaded.weight_locality, 100_000);
    assert!(!loaded.privacy_enforce);
}

#[test]
fn any_nonzero_privacy_flag_enforces() {
    let row = PolicyRow {
        id: 7,
        name: "strict".into(),
        weight_capability: 1,
        weight_cost: 2,
        weight_load: 3,
        weight_locality: 4,
        privacy_enforce: -2,
    };
    let p = policy_from_row(Some(row));
    assert_eq!(p.id, 7);
    assert!(p.privacy_enforce);
    assert_eq!(policy_row(&p).privacy_enforce, 1);
}
