use convergio_scheduler::policy::default_policy;
use convergio_scheduler::routes::{
    decide, group_capabilities, history_limit, DecideError, HistoryQuery,
};
use convergio_scheduler::types::SchedulingRequest;

fn request() -> SchedulingRequest {
    SchedulingRequest {
        task_id: 42,
        plan_id: 7,
        required_capabilities: vec!["gpu".into(), "voice".into()],
        preferred_locality: None,
        privacy_level: "public".into(),
        max_cost_usd: Some(1_000_000),
        tier_hint: Some("t2".into()),
    }
}

fn peer(name: &str, caps: &[&str]) -> (String, Vec<String>) {
    (name.to_string(), caps.iter().map(|c| c.to_string()).collect())
}

#[test]
fn decide_without_peers_fails() {
    let r = decide(&request(), &default_policy(), &vec![]);
    assert_eq!(r.err(), Some(DecideError::NoPeers));
}

#[test]
fn decide_assigns_the_best_peer() {
    let peers = vec![
        peer("linux-a100", &["gpu"]),
        peer("darwin-m4", &["gpu", "voice"]),
        peer("pi", &[]),
    ];
    let d = decide(&request(), &default_policy(), &peers).unwrap();
    assert_eq!(d.task_id, 42);
    assert_eq!(d.assigned_peer, "darwin-m4");
    assert_eq!(d.assigned_tier, "t2");
    // 0.4 + 0.2 * 0.95 + 0.2 * 1 = 0.79
    assert_eq!(d.reason, "score 0.790, caps 100%");
    // 0.95 of a 1.0 USD budget
    assert_eq!(d.estimated_cost, 950_000);
    let names: Vec<&str> = d.alternatives.iter().map(|c| c.peer_name.as_str()).collect();
    assert_eq!(names, vec!["linux-a100", "pi"]);
    assert_eq!(d.alternatives[0].score, 590_000);
    assert_eq!(d.alternatives[0].capabilities_match, 500_000);
}

#[test]
fn decide_defaults_tier_and_budget() {
    let mut req = request();
    req.tier_hint = None;
    req.max_cost_usd = None;
    req.required_capabilities = vec!["gpu".into(), "voice".into(), "npu".into()];
    let peers = vec![peer("solo", &["gpu"])];
    let d = decide(&req, &default_policy(), &peers).unwrap();
    assert_eq!(d.assigned_peer, "solo");
    assert_eq!(d.assigned_tier, "t2");
    // half of the default 0.1 USD
    assert_eq!(d.estimated_cost, 50_000);
    // 0.4 * 0.333333 + 0.2 * 0.5 + 0.2 * 1 = 0.4333332
    assert_eq!(d.reason, "score 0.433, caps 33%");
    assert!(d.alternatives.is_empty());
}

#[test]
fn decide_ties_go_to_the_later_peer() {
    let peers = vec![peer("a", &["gpu", "voice"]), peer("b", &["voice", "gpu"])];
    let d = decide(&request(), &default_policy(), &peers).unwrap();
    assert_eq!(d.assigned_peer, "b");
    assert_eq!(d.alternatives.len(), 1);
    assert_eq!(d.alternatives[0].peer_name, "a");
}

#[test]
fn decide_drops_every_candidate_named_like_the_assigned_peer() {
    let peers = vec![peer("a", &["gpu", "voice"]), peer("b", &[]), peer("a", &[])];
    let d = decide(&request(), &default_policy(), &peers).unwrap();
    assert_eq!(d.assigned_peer, "a");
    let names: Vec<&str> = d.alternatives.iter().map(|c| c.peer_name.as_str()).collect();
    assert_eq!(names, vec!["b"]);
}

#[test]
fn decide_reason_of_a_negative_score() {
    let mut policy = default_policy();
    policy.weight_capability = -2_000_000;
    policy.weight_cost = 0;
    policy.weight_load = 0;
    policy.weight_locality = 0;
    let peers = vec![peer("a", &["gpu"])];
    let d = decide(&request(), &policy, &peers).unwrap();
    // -2 * 0.5 = -1.0
    assert_eq!(d.reason, "score -1.000, caps 50%");
}

#[test]
fn decide_with_negative_budget() {
    let mut req = request();
    req.max_cost_usd = Some(-3);
    let d = decide(&req, &default_policy(), &vec![peer("a", &[])]).unwrap();
    // one half of -3 micro-USD, rounded toward zero
    assert_eq!(d.estimated_cost, -1);
}

#[test]
fn grouping_keeps_first_occurrence_order() {
    let rows: Vec<(String, String)> = vec![
        ("b".into(), "gpu".into()),
        ("a".into(), "voice".into()),
        ("b".into(), "npu".into()),
        ("c".into(), "gpu".into()),
        ("a".into(), "gpu".into()),
    ];
    let g = group_capabilities(&rows);
    assert_eq!(
        g,
        vec![
            ("b".to_string(), vec!["gpu".to_string(), "npu".to_string()]),
            ("a".to_string(), vec!["voice".to_string(), "gpu".to_string()]),
            ("c".to_string(), vec!["gpu".to_string()]),
        ]
    );
}

#[test]
fn grouping_nothing_gives_nothing() {
    assert!(group_capabilities(&vec![]).is_empty());
}

#[test]
fn history_limit_defaults_and_caps() {
    assert_eq!(history_limit(&HistoryQuery { limit: None }), 20);
    assert_eq!(history_limit(&HistoryQuery { limit: Some(5) }), 5);
    assert_eq!(history_limit(&HistoryQuery { limit: Some(100) }), 100);
    assert_eq!(history_limit(&HistoryQuery { limit: Some(500) }), 100);
    assert_eq!(history_limit(&HistoryQuery { limit: Some(-1) }), -1);
}

#[test]
fn decide_reason_rounds_halves_away_from_zero() {
    let mut policy = default_policy();
    policy.weight_capability = 2_500;
    policy.weight_cost = 0;
    policy.weight_load = 0;
    policy.weight_locality = 0;
    let peers = vec![peer("a", &["gpu", "voice"])];
    let d = decide(&request(), &policy, &peers).unwrap();
    // 0.0025 is written with three decimals as 0.003
    assert_eq!(d.reason, "score 0.003, caps 100%");
    policy.weight_capability = -2_500;
    let d = decide(&request(), &policy, &peers).unwrap();
    assert_eq!(d.reason, "score -0.003, caps 100%");
}

#[test]
fn decide_reason_percent_rounds_halves_to_even() {
    let mut req = request();
    req.required_capabilities = (0..8).map(|i| format!("c{}", i)).collect();
    // one of eight: 12.5 %
    let d = decide(&req, &default_policy(), &vec![peer("a", &["c0"])]).unwrap();
    assert!(d.reason.ends_with(", caps 12%"), "{}", d.reason);
}
