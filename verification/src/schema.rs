//! Database migrations for the scheduler tables.

use vstd::prelude::*;

verus! {

/// A versioned schema change.
#[derive(Debug, Clone)]
pub struct Migration {
    pub version: u32,
    pub description: &'static str,
    pub up: &'static str,
}

/// The description of the first migration.
pub const POLICIES_AND_HISTORY: &'static str = "scheduler policies and decision history";

/// The SQL of the first migration: the policy table and the decision history.
pub const POLICIES_AND_HISTORY_SQL: &'static str = "
            CREATE TABLE IF NOT EXISTS scheduler_policies (
                id               INTEGER PRIMARY KEY AUTOINCREMENT,
                name             TEXT    NOT NULL UNIQUE,
                weight_capability REAL   NOT NULL DEFAULT 0.4,
                weight_cost      REAL    NOT NULL DEFAULT 0.2,
                weight_load      REAL    NOT NULL DEFAULT 0.2,
                weight_locality  REAL    NOT NULL DEFAULT 0.2,
                privacy_enforce  INTEGER NOT NULL DEFAULT 1,
                created_at       TEXT    NOT NULL DEFAULT (datetime('now'))
            );

            CREATE TABLE IF NOT EXISTS scheduling_decisions (
                id             INTEGER PRIMARY KEY AUTOINCREMENT,
                task_id        INTEGER NOT NULL,
                plan_id        INTEGER NOT NULL,
                assigned_peer  TEXT    NOT NULL,
                assigned_tier  TEXT    NOT NULL,
                estimated_cost REAL    NOT NULL DEFAULT 0,
                reason         TEXT    NOT NULL DEFAULT '',
                decided_at     TEXT    NOT NULL DEFAULT (datetime('now'))
            );
            CREATE INDEX IF NOT EXISTS idx_sched_decisions_task
                ON scheduling_decisions(task_id);
            CREATE INDEX IF NOT EXISTS idx_sched_decisions_plan
                ON scheduling_decisions(plan_id);
        ";

/// The scheduler's migrations, numbered from 1 in order.
pub fn migrations() -> (m: Vec<Migration>)
    ensures
        m@.len() == 1,
        forall|i: int| 0 <= i < m@.len() ==> m@[i].version == i + 1,
        m@[0].description@ == POLICIES_AND_HISTORY@,
        m@[0].up@ == POLICIES_AND_HISTORY_SQL@,
{
    let mut m: Vec<Migration> = Vec::new();
    m.push(Migration { version: 1, description: POLICIES_AND_HISTORY, up: POLICIES_AND_HISTORY_SQL });
    m
}

} // verus!
