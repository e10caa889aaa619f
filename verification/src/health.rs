//! Cluster health evaluation: one check per probed component, and an
//! overall status that is the worst status among the checks.

use vstd::prelude::*;

use crate::text::{decimal, push_decimal, text_eq};

verus! {

/// Overall health of a cluster.
#[derive(Debug, Clone, Copy, PartialEq, Eq, Structural)]
pub enum HealthStatus {
    Healthy,
    Warning,
    Critical,
}

/// The outcome of one health check: `status` is `ok`, `warning` or
/// `critical`.
pub struct HealthCheck {
    pub name: String,
    pub status: String,
    pub message: String,
}

/// The checks made on a cluster and the overall status they give.
pub struct HealthReport {
    pub status: HealthStatus,
    pub checks: Vec<HealthCheck>,
}

/// Severity of a check's status: `critical` 2, `warning` 1, anything else 0.
pub open spec fn check_rank(status: Seq<char>) -> nat {
    if status == "critical"@ {
        2
    } else if status == "warning"@ {
        1
    } else {
        0
    }
}

/// Severity of an overall status.
pub open spec fn status_rank(s: HealthStatus) -> nat {
    match s {
        HealthStatus::Healthy => 0,
        HealthStatus::Warning => 1,
        HealthStatus::Critical => 2,
    }
}

/// The overall status of the given severity.
pub open spec fn status_of_rank(r: nat) -> HealthStatus {
    if r >= 2 {
        HealthStatus::Critical
    } else if r == 1 {
        HealthStatus::Warning
    } else {
        HealthStatus::Healthy
    }
}

/// The highest severity among the checks (0 without checks).
pub open spec fn worst_rank(checks: Seq<HealthCheck>) -> nat
    decreases checks.len(),
{
    if checks.len() == 0 {
        0
    } else {
        let r = worst_rank(checks.drop_last());
        let c = check_rank(checks.last().status@);
        if c > r {
            c
        } else {
            r
        }
    }
}

/// The worst status among the checks; `Healthy` without checks.
pub open spec fn worst_status(checks: Seq<HealthCheck>) -> HealthStatus {
    status_of_rank(worst_rank(checks))
}

/// How recording a check changes the overall status: a critical check makes
/// it critical, a warning makes a healthy status a warning, an ok check
/// leaves it as it is.
pub open spec fn after_check(s: HealthStatus, check_status: Seq<char>) -> HealthStatus {
    if check_status == "critical"@ {
        HealthStatus::Critical
    } else if check_status == "warning"@ {
        if s == HealthStatus::Healthy {
            HealthStatus::Warning
        } else {
            s
        }
    } else {
        s
    }
}

/// The status reached by recording the checks one after another, starting
/// from `Healthy`.
pub open spec fn recorded_status(checks: Seq<HealthCheck>) -> HealthStatus
    decreases checks.len(),
{
    if checks.len() == 0 {
        HealthStatus::Healthy
    } else {
        after_check(recorded_status(checks.drop_last()), checks.last().status@)
    }
}

/// Recording checks one by one leaves as overall status the worst status
/// among them, whatever their order.
pub proof fn lemma_recorded_status_is_worst(checks: Seq<HealthCheck>)
    ensures
        recorded_status(checks) == worst_status(checks),
        status_rank(recorded_status(checks)) == worst_rank(checks),
    decreases checks.len(),
{
    if checks.len() > 0 {
        lemma_recorded_status_is_worst(checks.drop_last());
    }
}

impl HealthReport {
    /// A report without checks, healthy.
    pub fn new() -> (r: HealthReport)
        ensures
            r.status == HealthStatus::Healthy,
            r.checks@.len() == 0,
            r.status == recorded_status(r.checks@),
    {
        HealthReport { status: HealthStatus::Healthy, checks: Vec::new() }
    }

    /// Adds a check and updates the overall status by it.
    pub fn record(&mut self, check: HealthCheck)
        ensures
            final(self).checks@ == old(self).checks@.push(check),
            final(self).status == after_check(old(self).status, check.status@),
            old(self).status == recorded_status(old(self).checks@) ==> final(self).status
                == recorded_status(final(self).checks@),
    {
        let critical = text_eq(check.status.as_str(), "critical");
        let warning = text_eq(check.status.as_str(), "warning");
        if critical {
            self.status = HealthStatus::Critical;
        } else if warning {
            if self.status == HealthStatus::Healthy {
                self.status = HealthStatus::Warning;
            }
        }
        let ghost before = self.checks@;
        self.checks.push(check);
        assert(self.checks@.drop_last() =~= before);
    }
}


/// Number of nodes whose `alive` field is `true`.
pub open spec fn alive_count(alive: Seq<String>) -> nat
    decreases alive.len(),
{
    if alive.len() == 0 {
        0
    } else {
        alive_count(alive.drop_last()) + if alive.last()@ == "true"@ {
            1nat
        } else {
            0nat
        }
    }
}

/// Counts the nodes whose `alive` field is `true`.
pub fn count_alive(alive: &Vec<String>) -> (n: usize)
    ensures
        n == alive_count(alive@),
        n <= alive@.len(),
{
    let mut n: usize = 0;
    let mut i: usize = 0;
    while i < alive.len()
        invariant
            i <= alive@.len(),
            n == alive_count(alive@.take(i as int)),
            n <= i,
        decreases alive.len() - i,
    {
        assert(alive@.take(i + 1).drop_last() =~= alive@.take(i as int));
        if text_eq(alive[i].as_str(), "true") {
            n = n + 1;
        }
        i = i + 1;
    }
    assert(alive@.take(alive@.len() as int) =~= alive@);
    n
}

/// The name of compute nodes: `CN` in shared-data clusters, `BE` otherwise.
pub open spec fn node_type(is_shared_data: bool) -> Seq<char> {
    if is_shared_data {
        "CN"@
    } else {
        "BE"@
    }
}

fn node_type_str(is_shared_data: bool) -> (r: &'static str)
    ensures
        r@ == node_type(is_shared_data),
{
    if is_shared_data {
        "CN"
    } else {
        "BE"
    }
}

/// The check has the given name, status and message.
pub open spec fn check_is(c: HealthCheck, name: Seq<char>, status: Seq<char>, message: Seq<char>) -> bool {
    c.name@ == name && c.status@ == status && c.message@ == message
}

fn make_check(name: &str, status: &str, message: String) -> (c: HealthCheck)
    ensures
        check_is(c, name@, status@, message@),
{
    HealthCheck { name: name.to_owned(), status: status.to_owned(), message }
}

/// `<prefix><count><suffix>`.
fn count_message(prefix: &str, count: usize, suffix: &str) -> (m: String)
    ensures
        m@ == prefix@ + decimal(count as nat) + suffix@,
{
    let mut m = String::new();
    m.append(prefix);
    push_decimal(&mut m, count as u64);
    m.append(suffix);
    m
}

/// `<alive>/<total><suffix>`.
fn ratio_message(alive: usize, total: usize, suffix: &str) -> (m: String)
    ensures
        m@ == decimal(alive as nat) + "/"@ + decimal(total as nat) + suffix@,
{
    let mut m = String::new();
    push_decimal(&mut m, alive as u64);
    m.append("/");
    push_decimal(&mut m, total as u64);
    m.append(suffix);
    m
}

/// `<prefix><text>`.
fn prefixed(prefix: &str, text: &str) -> (m: String)
    ensures
        m@ == prefix@ + text@,
{
    let mut m = String::new();
    m.append(prefix);
    m.append(text);
    m
}

/// The frontend check for a probe of the frontend nodes: critical without
/// nodes, without live nodes or when the probe failed; ok when all are
/// alive; a warning when some are.
pub open spec fn frontend_check_for(c: HealthCheck, probe: Result<Vec<String>, String>) -> bool {
    match probe {
        Ok(nodes) => {
            let total = nodes@.len();
            let alive = alive_count(nodes@);
            if total == 0 {
                check_is(c, "Frontend Nodes"@, "critical"@, "No FE nodes found"@)
            } else if alive == total {
                check_is(
                    c,
                    "Frontend Nodes"@,
                    "ok"@,
                    "All "@ + decimal(total) + " FE nodes are online"@,
                )
            } else if alive > 0 {
                check_is(
                    c,
                    "Frontend Nodes"@,
                    "warning"@,
                    decimal(alive) + "/"@ + decimal(total) + " FE nodes are online"@,
                )
            } else {
                check_is(c, "Frontend Nodes"@, "critical"@, "No FE nodes are online"@)
            }
        },
        Err(e) => check_is(c, "Frontend Nodes"@, "critical"@, "Failed to check FE nodes: "@ + e@),
    }
}

/// Evaluates a probe of the frontend nodes (their `alive` fields, or the
/// error text of a failed probe).
pub fn frontend_check(probe: &Result<Vec<String>, String>) -> (c: HealthCheck)
    ensures
        frontend_check_for(c, *probe),
{
    match probe {
        Ok(nodes) => {
            let total = nodes.len();
            let alive = count_alive(nodes);
            if total == 0 {
                make_check("Frontend Nodes", "critical", "No FE nodes found".to_owned())
            } else if alive == total {
                make_check(
                    "Frontend Nodes",
                    "ok",
                    count_message("All ", total, " FE nodes are online"),
                )
            } else if alive > 0 {
                make_check("Frontend Nodes", "warning", ratio_message(alive, total, " FE nodes are online"))
            } else {
                make_check("Frontend Nodes", "critical", "No FE nodes are online".to_owned())
            }
        },
        Err(e) => make_check(
            "Frontend Nodes",
            "critical",
            prefixed("Failed to check FE nodes: ", e.as_str()),
        ),
    }
}


/// ` <node> nodes are online`.
fn nodes_online_suffix(node: &str) -> (m: String)
    ensures
        m@ == " "@ + node@ + " nodes are online"@,
{
    let mut m = String::new();
    m.append(" ");
    m.append(node);
    m.append(" nodes are online");
    m
}

/// The compute-node check of a running cluster: ok when all nodes are
/// alive (also when there are none), a warning when some are or when the
/// probe failed, critical when none is.
pub open spec fn compute_check_for(
    c: HealthCheck,
    is_shared_data: bool,
    probe: Result<Vec<String>, String>,
) -> bool {
    let node = node_type(is_shared_data);
    match probe {
        Ok(nodes) => {
            let total = nodes@.len();
            let alive = alive_count(nodes@);
            if alive == total {
                check_is(
                    c,
                    "Compute Nodes"@,
                    "ok"@,
                    "All "@ + decimal(total) + " "@ + node + " nodes are online"@,
                )
            } else if alive > 0 {
                check_is(
                    c,
                    "Compute Nodes"@,
                    "warning"@,
                    decimal(alive) + "/"@ + decimal(total) + " "@ + node + " nodes are online"@,
                )
            } else {
                check_is(
                    c,
                    "Compute Nodes"@,
                    "critical"@,
                    "No "@ + node + " nodes are online"@,
                )
            }
        },
        Err(e) => check_is(
            c,
            "Compute Nodes"@,
            "warning"@,
            "Failed to check "@ + node + " nodes: "@ + e@,
        ),
    }
}

fn failed_nodes_message(node: &str, e: &str) -> (m: String)
    ensures
        m@ == "Failed to check "@ + node@ + " nodes: "@ + e@,
{
    let mut m = String::new();
    m.append("Failed to check ");
    m.append(node);
    m.append(" nodes: ");
    m.append(e);
    m
}

fn no_nodes_message(node: &str, suffix: &str) -> (m: String)
    ensures
        m@ == "No "@ + node@ + suffix@,
{
    let mut m = String::new();
    m.append("No ");
    m.append(node);
    m.append(suffix);
    m
}

/// Evaluates a probe of the compute nodes of a running cluster.
pub fn compute_check(is_shared_data: bool, probe: &Result<Vec<String>, String>) -> (c: HealthCheck)
    ensures
        compute_check_for(c, is_shared_data, *probe),
{
    let node = node_type_str(is_shared_data);
    match probe {
        Ok(nodes) => {
            let total = nodes.len();
            let alive = count_alive(nodes);
            let suffix = nodes_online_suffix(node);
            if alive == total {
                let m = count_message("All ", total, suffix.as_str());
                assert(m@ =~= "All "@ + decimal(total as nat) + " "@ + node@ + " nodes are online"@);
                make_check("Compute Nodes", "ok", m)
            } else if alive > 0 {
                let m = ratio_message(alive, total, suffix.as_str());
                assert(m@ =~= decimal(alive as nat) + "/"@ + decimal(total as nat) + " "@ + node@
                    + " nodes are online"@);
                make_check("Compute Nodes", "warning", m)
            } else {
                make_check("Compute Nodes", "critical", no_nodes_message(node, " nodes are online"))
            }
        },
        Err(e) => make_check("Compute Nodes", "warning", failed_nodes_message(node, e.as_str())),
    }
}

/// The compute-node check of a cluster being tried out: a warning without
/// nodes, with only some alive, or when the probe failed; ok when all are
/// alive; critical when none is.
pub open spec fn trial_compute_check_for(
    c: HealthCheck,
    is_shared_data: bool,
    probe: Result<Vec<String>, String>,
) -> bool {
    let node = node_type(is_shared_data);
    match probe {
        Ok(nodes) => {
            let total = nodes@.len();
            let alive = alive_count(nodes@);
            if total == 0 {
                check_is(c, "Compute Nodes"@, "warning"@, "No "@ + node + " nodes found"@)
            } else if alive == total {
                check_is(
                    c,
                    "Compute Nodes"@,
                    "ok"@,
                    "All "@ + decimal(total) + " "@ + node + " nodes are online"@,
                )
            } else if alive > 0 {
                check_is(
                    c,
                    "Compute Nodes"@,
                    "warning"@,
                    decimal(alive) + "/"@ + decimal(total) + node + " nodes are online"@,
                )
            } else {
                check_is(
                    c,
                    "Compute Nodes"@,
                    "critical"@,
                    "No "@ + node + " nodes are online"@,
                )
            }
        },
        Err(e) => check_is(
            c,
            "Compute Nodes"@,
            "warning"@,
            "Failed to check "@ + node + " nodes: "@ + e@,
        ),
    }
}

/// Evaluates a probe of the compute nodes of a cluster being tried out.
pub fn trial_compute_check(is_shared_data: bool, probe: &Result<Vec<String>, String>) -> (c:
    HealthCheck)
    ensures
        trial_compute_check_for(c, is_shared_data, *probe),
{
    let node = node_type_str(is_shared_data);
    match probe {
        Ok(nodes) => {
            let total = nodes.len();
            let alive = count_alive(nodes);
            if total == 0 {
                make_check("Compute Nodes", "warning", no_nodes_message(node, " nodes found"))
            } else if alive == total {
                let suffix = nodes_online_suffix(node);
                let m = count_message("All ", total, suffix.as_str());
                assert(m@ =~= "All "@ + decimal(total as nat) + " "@ + node@ + " nodes are online"@);
                make_check("Compute Nodes", "ok", m)
            } else if alive > 0 {
                let suffix = prefixed(node, " nodes are online");
                let m = ratio_message(alive, total, suffix.as_str());
                assert(m@ =~= decimal(alive as nat) + "/"@ + decimal(total as nat) + node@
                    + " nodes are online"@);
                make_check("Compute Nodes", "warning", m)
            } else {
                make_check("Compute Nodes", "critical", no_nodes_message(node, " nodes are online"))
            }
        },
        Err(e) => make_check("Compute Nodes", "warning", failed_nodes_message(node, e.as_str())),
    }
}

/// Evaluates the health of a running cluster from probes of its frontend
/// and compute nodes: one check for each, and the worst of them overall.
pub fn cluster_health_report(
    is_shared_data: bool,
    frontends: &Result<Vec<String>, String>,
    backends: &Result<Vec<String>, String>,
) -> (r: HealthReport)
    ensures
        r.checks@.len() == 2,
        frontend_check_for(r.checks@[0], *frontends),
        compute_check_for(r.checks@[1], is_shared_data, *backends),
        r.status == worst_status(r.checks@),
{
    let mut report = HealthReport::new();
    report.record(frontend_check(frontends));
    report.record(compute_check(is_shared_data, backends));
    proof {
        lemma_recorded_status_is_worst(report.checks@);
    }
    report
}


/// What probing a cluster that is being tried out found: the connection
/// pool could not be made, the test query failed, or the connection works
/// and the frontend HTTP endpoint and the compute nodes were probed.
pub enum ConnectivityProbe {
    PoolFailed(String),
    QueryFailed(String),
    Connected { fe_http: Result<(), String>, backends: Result<Vec<String>, String> },
}

/// The checks that a connectivity probe gives, in order.
pub open spec fn connectivity_checks_for(
    checks: Seq<HealthCheck>,
    is_shared_data: bool,
    probe: ConnectivityProbe,
) -> bool {
    match probe {
        ConnectivityProbe::PoolFailed(e) => checks.len() == 1 && check_is(
            checks[0],
            "Connection Pool"@,
            "critical"@,
            "Failed to create connection pool: "@ + e@,
        ),
        ConnectivityProbe::QueryFailed(e) => checks.len() == 1 && check_is(
            checks[0],
            "Database Connection"@,
            "critical"@,
            "Connection failed: "@ + e@,
        ),
        ConnectivityProbe::Connected { fe_http, backends } => {
            &&& checks.len() == 3
            &&& check_is(checks[0], "Database Connection"@, "ok"@, "Connection successful"@)
            &&& match fe_http {
                Ok(_) => check_is(
                    checks[1],
                    "FE Availability"@,
                    "ok"@,
                    "FE is reachable and responding"@,
                ),
                Err(e) => check_is(
                    checks[1],
                    "FE Availability"@,
                    "warning"@,
                    "FE HTTP check failed: "@ + e@,
                ),
            }
            &&& trial_compute_check_for(checks[2], is_shared_data, backends)
        },
    }
}

/// Evaluates the probes of a cluster being tried out: a check per probed
/// step, and the worst of them overall.
pub fn connectivity_report(is_shared_data: bool, probe: &ConnectivityProbe) -> (r: HealthReport)
    ensures
        connectivity_checks_for(r.checks@, is_shared_data, *probe),
        r.status == worst_status(r.checks@),
{
    let mut report = HealthReport::new();
    match probe {
        ConnectivityProbe::PoolFailed(e) => {
            report.record(
                make_check(
                    "Connection Pool",
                    "critical",
                    prefixed("Failed to create connection pool: ", e.as_str()),
                ),
            );
        },
        ConnectivityProbe::QueryFailed(e) => {
            report.record(
                make_check(
                    "Database Connection",
                    "critical",
                    prefixed("Connection failed: ", e.as_str()),
                ),
            );
        },
        ConnectivityProbe::Connected { fe_http, backends } => {
            report.record(
                make_check("Database Connection", "ok", "Connection successful".to_owned()),
            );
            match fe_http {
                Ok(_) => {
                    report.record(
                        make_check(
                            "FE Availability",
                            "ok",
                            "FE is reachable and responding".to_owned(),
                        ),
                    );
                },
                Err(e) => {
                    report.record(
                        make_check(
                            "FE Availability",
                            "warning",
                            prefixed("FE HTTP check failed: ", e.as_str()),
                        ),
                    );
                },
            }
            report.record(trial_compute_check(is_shared_data, backends));
        },
    }
    proof {
        lemma_recorded_status_is_worst(report.checks@);
    }
    report
}



proof fn lemma_alive_count_bound(alive: Seq<String>)
    ensures
        alive_count(alive) <= alive.len(),
    decreases alive.len(),
{
    if alive.len() > 0 {
        lemma_alive_count_bound(alive.drop_last());
    }
}

proof fn lemma_status_words_differ()
    ensures
        "ok"@ != "warning"@,
        "ok"@ != "critical"@,
        "warning"@ != "critical"@,
{
    reveal_strlit("ok");
    reveal_strlit("warning");
    reveal_strlit("critical");
    assert("ok"@.len() == 2 && "warning"@.len() == 7 && "critical"@.len() == 8);
}

/// Every node of the probe answered alive, and there is at least one.
pub open spec fn all_nodes_alive(probe: Result<Vec<String>, String>) -> bool {
    probe matches Ok(nodes) && nodes@.len() > 0 && alive_count(nodes@) == nodes@.len()
}

/// Some but not all nodes of the probe answered alive.
pub open spec fn some_nodes_down(probe: Result<Vec<String>, String>) -> bool {
    probe matches Ok(nodes) && 0 < alive_count(nodes@) && alive_count(nodes@) < nodes@.len()
}

/// The probe found nodes, and none of them answered alive.
pub open spec fn all_nodes_down(probe: Result<Vec<String>, String>) -> bool {
    probe matches Ok(nodes) && nodes@.len() > 0 && alive_count(nodes@) == 0
}

/// The probe answered with no node at all.
pub open spec fn no_nodes(probe: Result<Vec<String>, String>) -> bool {
    probe matches Ok(nodes) && nodes@.len() == 0
}

/// The frontend check is `ok` only when every frontend node is alive; it is
/// a `warning` exactly when some but not all are, and `critical` when the
/// probe failed, found no node, or found none alive.
pub proof fn lemma_frontend_check_status(c: HealthCheck, probe: Result<Vec<String>, String>)
    requires
        frontend_check_for(c, probe),
    ensures
        c.name@ == "Frontend Nodes"@,
        c.status@ == "ok"@ <==> all_nodes_alive(probe),
        c.status@ == "warning"@ <==> some_nodes_down(probe),
        c.status@ == "critical"@ <==> (probe is Err || no_nodes(probe) || all_nodes_down(probe)),
{
    lemma_status_words_differ();
    if let Ok(nodes) = probe {
        lemma_alive_count_bound(nodes@);
        let total = nodes@.len();
        let alive = alive_count(nodes@);
        if total == 0 {
            assert(c.status@ == "critical"@);
        } else if alive == total {
            assert(c.status@ == "ok"@);
        } else if alive > 0 {
            assert(c.status@ == "warning"@);
        } else {
            assert(c.status@ == "critical"@);
        }
    }
}

/// The compute-node check of a running cluster is `ok` when every node is
/// alive (or there is none), a `warning` when some are down or the probe
/// failed, and `critical` exactly when nodes were found and none is alive.
pub proof fn lemma_compute_check_status(
    c: HealthCheck,
    is_shared_data: bool,
    probe: Result<Vec<String>, String>,
)
    requires
        compute_check_for(c, is_shared_data, probe),
    ensures
        c.name@ == "Compute Nodes"@,
        c.status@ == "ok"@ <==> (all_nodes_alive(probe) || no_nodes(probe)),
        c.status@ == "warning"@ <==> (probe is Err || some_nodes_down(probe)),
        c.status@ == "critical"@ <==> all_nodes_down(probe),
{
    lemma_status_words_differ();
    if let Ok(nodes) = probe {
        lemma_alive_count_bound(nodes@);
    }
}

/// The compute-node check of a cluster being tried out is `ok` only when
/// nodes were found and all are alive, `critical` exactly when nodes were
/// found and none is alive, and a `warning` otherwise: a failed probe, no
/// node, or some nodes down.
pub proof fn lemma_trial_compute_check_status(
    c: HealthCheck,
    is_shared_data: bool,
    probe: Result<Vec<String>, String>,
)
    requires
        trial_compute_check_for(c, is_shared_data, probe),
    ensures
        c.name@ == "Compute Nodes"@,
        c.status@ == "ok"@ <==> all_nodes_alive(probe),
        c.status@ == "warning"@ <==> (probe is Err || no_nodes(probe) || some_nodes_down(probe)),
        c.status@ == "critical"@ <==> all_nodes_down(probe),
{
    lemma_status_words_differ();
    if let Ok(nodes) = probe {
        lemma_alive_count_bound(nodes@);
    }
}

proof fn lemma_worst_rank_upto(checks: Seq<HealthCheck>)
    ensures
        forall|i: int| 0 <= i < checks.len() ==> check_rank(#[trigger] checks[i].status@)
            <= worst_rank(checks),
        checks.len() > 0 ==> exists|i: int|
            0 <= i < checks.len() && check_rank(#[trigger] checks[i].status@) == worst_rank(
                checks,
            ),
        checks.len() == 0 ==> worst_rank(checks) == 0,
    decreases checks.len(),
{
    if checks.len() > 0 {
        let rest = checks.drop_last();
        lemma_worst_rank_upto(rest);
        assert forall|i: int| 0 <= i < checks.len() implies check_rank(
            #[trigger] checks[i].status@,
        ) <= worst_rank(checks) by {
            if i < rest.len() {
                assert(checks[i] == rest[i]);
            }
        }
        let last = checks.len() - 1;
        if check_rank(checks[last].status@) > worst_rank(rest) {
            assert(check_rank(checks[last].status@) == worst_rank(checks));
        } else if rest.len() > 0 {
            let i = choose|i: int|
                0 <= i < rest.len() && check_rank(#[trigger] rest[i].status@) == worst_rank(rest);
            assert(checks[i] == rest[i]);
            assert(check_rank(checks[i].status@) == worst_rank(checks));
        } else {
            assert(check_rank(checks[last].status@) == worst_rank(checks));
        }
    }
}

/// The overall status is critical exactly when some check is critical,
/// healthy exactly when no check is a warning or critical, and a warning
/// otherwise.
pub proof fn lemma_worst_status_by_checks(checks: Seq<HealthCheck>)
    ensures
        worst_status(checks) == HealthStatus::Critical <==> exists|i: int|
            0 <= i < checks.len() && #[trigger] checks[i].status@ == "critical"@,
        worst_status(checks) == HealthStatus::Healthy <==> forall|i: int|
            0 <= i < checks.len() ==> #[trigger] checks[i].status@ != "critical"@
                && checks[i].status@ != "warning"@,
{
    lemma_worst_rank_upto(checks);
    if worst_rank(checks) == 2 {
        let i = choose|i: int|
            0 <= i < checks.len() && check_rank(#[trigger] checks[i].status@) == worst_rank(
                checks,
            );
        assert(checks[i].status@ == "critical"@);
    }
    if worst_rank(checks) >= 1 && checks.len() > 0 {
        let i = choose|i: int|
            0 <= i < checks.len() && check_rank(#[trigger] checks[i].status@) == worst_rank(
                checks,
            );
        assert(checks[i].status@ == "critical"@ || checks[i].status@ == "warning"@);
    }
    assert forall|i: int| 0 <= i < checks.len() && #[trigger] checks[i].status@ == "critical"@ implies worst_rank(checks) == 2 by {
        assert(check_rank(checks[i].status@) <= worst_rank(checks));
    }
    assert forall|i: int| 0 <= i < checks.len() && #[trigger] checks[i].status@ == "warning"@ implies worst_rank(checks) >= 1 by {
        assert(check_rank(checks[i].status@) <= worst_rank(checks));
    }
}

/// A running cluster is healthy only when every frontend node is alive and
/// the compute nodes all are (or there are none); a frontend node that is
/// down makes it at least a warning, and it is critical exactly when the
/// frontend check or the compute-node check is.
pub proof fn lemma_cluster_health_overall(
    checks: Seq<HealthCheck>,
    is_shared_data: bool,
    frontends: Result<Vec<String>, String>,
    backends: Result<Vec<String>, String>,
)
    requires
        checks.len() == 2,
        frontend_check_for(checks[0], frontends),
        compute_check_for(checks[1], is_shared_data, backends),
    ensures
        worst_status(checks) == HealthStatus::Healthy <==> (all_nodes_alive(frontends) && (
        all_nodes_alive(backends) || no_nodes(backends))),
        some_nodes_down(frontends) ==> worst_status(checks) != HealthStatus::Healthy,
        worst_status(checks) == HealthStatus::Critical <==> (frontends is Err || no_nodes(
            frontends,
        ) || all_nodes_down(frontends) || all_nodes_down(backends)),
{
    lemma_status_words_differ();
    lemma_frontend_check_status(checks[0], frontends);
    lemma_compute_check_status(checks[1], is_shared_data, backends);
    lemma_worst_status_by_checks(checks);
    if worst_status(checks) == HealthStatus::Healthy {
        assert(checks[0].status@ != "critical"@ && checks[0].status@ != "warning"@);
        assert(checks[1].status@ != "critical"@ && checks[1].status@ != "warning"@);
    }
    if worst_status(checks) == HealthStatus::Critical {
        let i = choose|i: int| 0 <= i < checks.len() && #[trigger] checks[i].status@ == "critical"@;
        assert(i == 0 || i == 1);
    }
}

/// A cluster being tried out is critical exactly when the pool or the test
/// query failed, or compute nodes were found and none is alive; it is
/// healthy only when the connection works, the frontend answers over HTTP
/// and every compute node found is alive. A failed compute-node probe
/// alone makes it a warning.
pub proof fn lemma_connectivity_overall(
    checks: Seq<HealthCheck>,
    is_shared_data: bool,
    probe: ConnectivityProbe,
)
    requires
        connectivity_checks_for(checks, is_shared_data, probe),
    ensures
        worst_status(checks) == HealthStatus::Critical <==> (probe is PoolFailed
            || probe is QueryFailed || (probe matches ConnectivityProbe::Connected {
            backends,
            ..
        } && all_nodes_down(backends))),
        worst_status(checks) == HealthStatus::Healthy <==> (probe matches ConnectivityProbe::Connected {
            fe_http,
            backends,
        } && fe_http is Ok && all_nodes_alive(backends)),
        (probe matches ConnectivityProbe::Connected { fe_http, backends } && fe_http is Ok
            && backends is Err) ==> worst_status(checks) == HealthStatus::Warning,
{
    lemma_status_words_differ();
    lemma_worst_status_by_checks(checks);
    match probe {
        ConnectivityProbe::Connected { fe_http, backends } => {
            lemma_trial_compute_check_status(checks[2], is_shared_data, backends);
            if worst_status(checks) == HealthStatus::Healthy {
                assert(checks[1].status@ != "critical"@ && checks[1].status@ != "warning"@);
                assert(checks[2].status@ != "critical"@ && checks[2].status@ != "warning"@);
            }
            if worst_status(checks) == HealthStatus::Critical {
                let i = choose|i: int|
                    0 <= i < checks.len() && #[trigger] checks[i].status@ == "critical"@;
                assert(i == 0 || i == 1 || i == 2);
            }
            if fe_http is Ok && backends is Err {
                assert(checks[2].status@ == "warning"@);
                assert(worst_status(checks) != HealthStatus::Healthy);
                if worst_status(checks) == HealthStatus::Critical {
                    let i = choose|i: int|
                        0 <= i < checks.len() && #[trigger] checks[i].status@ == "critical"@;
                    assert(i == 0 || i == 1 || i == 2);
                }
            }
        },
        _ => {
            assert(checks[0].status@ == "critical"@);
        },
    }
}

} // verus!
