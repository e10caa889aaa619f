use backend::health::{
    cluster_health_report, compute_check, connectivity_report, count_alive, frontend_check,
    trial_compute_check, ConnectivityProbe, HealthCheck, HealthReport, HealthStatus,
};

fn nodes(alive: &[&str]) -> Result<Vec<String>, String> {
    Ok(alive.iter().map(|s| s.to_string()).collect())
}

fn parts(c: &HealthCheck) -> (&str, &str, &str) {
    (c.name.as_str(), c.status.as_str(), c.message.as_str())
}

#[test]
fn alive_counting() {
    assert_eq!(count_alive(&vec!["true".into(), "false".into(), "True".into(), "true".into()]), 2);
}

#[test]
fn frontend_checks() {
    assert_eq!(parts(&frontend_check(&nodes(&[]))), ("Frontend Nodes", "critical", "No FE nodes found"));
    assert_eq!(parts(&frontend_check(&nodes(&["true", "true"]))), ("Frontend Nodes", "ok", "All 2 FE nodes are online"));
    assert_eq!(parts(&frontend_check(&nodes(&["true", "false", "false"]))), ("Frontend Nodes", "warning", "1/3 FE nodes are online"));
    assert_eq!(parts(&frontend_check(&nodes(&["false"]))), ("Frontend Nodes", "critical", "No FE nodes are online"));
    assert_eq!(parts(&frontend_check(&Err("timeout".into()))), ("Frontend Nodes", "critical", "Failed to check FE nodes: timeout"));
}

#[test]
fn compute_checks() {
    assert_eq!(parts(&compute_check(false, &nodes(&[]))), ("Compute Nodes", "ok", "All 0 BE nodes are online"));
    assert_eq!(parts(&compute_check(true, &nodes(&["true", "false"]))), ("Compute Nodes", "warning", "1/2 CN nodes are online"));
    assert_eq!(parts(&compute_check(false, &nodes(&["no"]))), ("Compute Nodes", "critical", "No BE nodes are online"));
    assert_eq!(parts(&compute_check(true, &Err("e".into()))), ("Compute Nodes", "warning", "Failed to check CN nodes: e"));
}

#[test]
fn trial_compute_checks() {
    assert_eq!(parts(&trial_compute_check(false, &nodes(&[]))), ("Compute Nodes", "warning", "No BE nodes found"));
    assert_eq!(parts(&trial_compute_check(true, &nodes(&["true"]))), ("Compute Nodes", "ok", "All 1 CN nodes are online"));
    assert_eq!(parts(&trial_compute_check(false, &nodes(&["true", "x"]))), ("Compute Nodes", "warning", "1/2BE nodes are online"));
    assert_eq!(parts(&trial_compute_check(false, &nodes(&["x"]))), ("Compute Nodes", "critical", "No BE nodes are online"));
}

#[test]
fn overall_status_is_worst_check() {
    let r = cluster_health_report(false, &nodes(&["true"]), &nodes(&["true"]));
    assert_eq!(r.status, HealthStatus::Healthy);
    let r = cluster_health_report(false, &nodes(&["true"]), &Err("down".into()));
    assert_eq!(r.status, HealthStatus::Warning);
    let r = cluster_health_report(false, &Err("down".into()), &nodes(&["true"]));
    assert_eq!(r.status, HealthStatus::Critical);
    assert_eq!(r.checks.len(), 2);
}

#[test]
fn recording_order_does_not_matter() {
    let check = |s: &str| HealthCheck { name: "n".into(), status: s.into(), message: String::new() };
    let mut a = HealthReport::new();
    a.record(check("critical"));
    a.record(check("warning"));
    let mut b = HealthReport::new();
    b.record(check("warning"));
    b.record(check("critical"));
    b.record(check("ok"));
    assert_eq!(a.status, HealthStatus::Critical);
    assert_eq!(b.status, HealthStatus::Critical);
}

#[test]
fn connectivity_reports() {
    let r = connectivity_report(false, &ConnectivityProbe::PoolFailed("refused".into()));
    assert_eq!(r.status, HealthStatus::Critical);
    assert_eq!(parts(&r.checks[0]), ("Connection Pool", "critical", "Failed to create connection pool: refused"));
    let r = connectivity_report(false, &ConnectivityProbe::QueryFailed("bad".into()));
    assert_eq!(parts(&r.checks[0]), ("Database Connection", "critical", "Connection failed: bad"));
    let r = connectivity_report(
        true,
        &ConnectivityProbe::Connected { fe_http: Err("404".into()), backends: nodes(&["true"]) },
    );
    assert_eq!(r.status, HealthStatus::Warning);
    assert_eq!(r.checks.len(), 3);
    assert_eq!(parts(&r.checks[0]), ("Database Connection", "ok", "Connection successful"));
    assert_eq!(parts(&r.checks[1]), ("FE Availability", "warning", "FE HTTP check failed: 404"));
    let r = connectivity_report(true, &ConnectivityProbe::Connected { fe_http: Ok(()), backends: nodes(&["true"]) });
    assert_eq!(r.status, HealthStatus::Healthy);
    assert_eq!(parts(&r.checks[1]), ("FE Availability", "ok", "FE is reachable and responding"));
}
