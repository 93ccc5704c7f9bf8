use convergio_scheduler::ext::{
    decision_metrics, health_from_probe, scheduler_manifest, Health, ModuleKind,
};
use convergio_scheduler::mcp_defs::scheduler_tools;
use convergio_scheduler::schema::migrations;

#[test]
fn migrations_are_ordered() {
    let m = migrations();
    for (i, mig) in m.iter().enumerate() {
        assert_eq!(mig.version, (i + 1) as u32);
    }
}

#[test]
fn migration_creates_both_tables() {
    let m = migrations();
    assert_eq!(m.len(), 1);
    assert_eq!(m[0].description, "scheduler policies and decision history");
    assert!(m[0].up.contains("CREATE TABLE IF NOT EXISTS scheduler_policies"));
    assert!(m[0].up.contains("CREATE TABLE IF NOT EXISTS scheduling_decisions"));
}

#[test]
fn tools_are_decide_policy_history() {
    let tools = scheduler_tools();
    let names: Vec<&str> = tools.iter().map(|t| t.name.as_str()).collect();
    assert_eq!(
        names,
        vec!["cvg_scheduler_decide", "cvg_scheduler_get_policy", "cvg_scheduler_history"]
    );
    assert_eq!(tools[0].method, "POST");
    assert_eq!(tools[0].path, "/api/scheduler/decide");
    assert_eq!(tools[0].min_ring, "trusted");
    assert_eq!(tools[1].method, "GET");
    assert_eq!(tools[2].path, "/api/scheduler/history");
    assert_eq!(tools[2].min_ring, "community");
    assert!(tools.iter().all(|t| t.path_params.is_empty()));
}

#[test]
fn tool_schemas_are_json() {
    let tools = scheduler_tools();
    let decide: serde_json::Value = serde_json::from_str(&tools[0].input_schema).unwrap();
    assert_eq!(decide["required"][0], "task_id");
    assert_eq!(decide["properties"]["task_id"]["type"], "string");
    let empty: serde_json::Value = serde_json::from_str(&tools[1].input_schema).unwrap();
    assert_eq!(empty["type"], "object");
    assert!(empty["properties"].as_object().unwrap().is_empty());
}

#[test]
fn manifest_describes_the_scheduler() {
    let m = scheduler_manifest("1.2.3");
    assert_eq!(m.id, "convergio-scheduler");
    assert_eq!(m.version, "1.2.3");
    assert_eq!(m.kind, ModuleKind::Platform);
    assert_eq!(m.provides.len(), 1);
    assert_eq!(m.provides[0].name, "scheduling-policy");
    assert_eq!(m.provides[0].version, "1.0");
    assert!(m.requires.is_empty());
    assert!(m.agent_tools.is_empty());
    assert_eq!(m.required_roles, vec!["orchestrator".to_string(), "all".to_string()]);
}

#[test]
fn health_follows_the_probe() {
    assert!(matches!(health_from_probe(Ok(true)), Health::Healthy));
    match health_from_probe(Ok(false)) {
        Health::Degraded { reason } => assert_eq!(reason, "scheduler_policies table inaccessible"),
        _ => panic!("expected degraded"),
    }
    match health_from_probe(Err("timed out".to_string())) {
        Health::Down { reason } => assert_eq!(reason, "pool error: timed out"),
        _ => panic!("expected down"),
    }
}

#[test]
fn metrics_report_the_decision_count() {
    assert!(decision_metrics(None).is_empty());
    let m = decision_metrics(Some(12));
    assert_eq!(m.len(), 1);
    assert_eq!(m[0].name, "scheduler.decisions.total");
    assert_eq!(m[0].value, 12);
    assert!(m[0].labels.is_empty());
}

#[test]
fn migrations_apply_cleanly() {
    let conn = rusqlite::Connection::open_in_memory().unwrap();
    let mut applied = 0;
    for mig in migrations() {
        conn.execute_batch(mig.up).unwrap();
        applied += 1;
    }
    assert_eq!(applied, 1);
    for table in ["scheduler_policies", "scheduling_decisions"] {
        let n: i64 = conn
            .query_row(
                "SELECT COUNT(*) FROM sqlite_master WHERE type = 'table' AND name = ?1",
                [table],
                |r| r.get(0),
            )
            .unwrap();
        assert_eq!(n, 1, "table {}", table);
    }
}
