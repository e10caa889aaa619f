use backend::cluster::{
    active_cluster_org, active_on_insert, name_available, build_cluster_update, clean_create_request,
    deletion_followup, needs_activation, resolve_target_org, tags_json, CreateClusterRequest,
    DeploymentMode, OrgScope, OrgTarget, UpdateClusterRequest,
};
use backend::error::ApiError;

fn request() -> CreateClusterRequest {
    CreateClusterRequest {
        name: "  prod \t".into(),
        description: Some(" main ".into()),
        fe_host: " 10.0.0.1 ".into(),
        fe_http_port: 8030,
        fe_query_port: 9030,
        username: " root".into(),
        password: " secret ".into(),
        enable_ssl: false,
        connection_timeout: 10,
        tags: Some(vec!["a".into()]),
        catalog: " default_catalog ".into(),
        organization_id: Some(4),
        deployment_mode: DeploymentMode::SharedData,
    }
}

#[test]
fn cleaning_trims_fields() {
    let c = clean_create_request(request()).ok().unwrap();
    assert_eq!(c.name, "prod");
    assert_eq!(c.fe_host, "10.0.0.1");
    assert_eq!(c.username, "root");
    assert_eq!(c.catalog, "default_catalog");
    assert_eq!(c.description.as_deref(), Some("main"));
    assert_eq!(c.password, " secret ");
    assert_eq!(c.deployment_mode, DeploymentMode::SharedData);
    let again = clean_create_request(c).ok().unwrap();
    assert_eq!(again.name, "prod");
    assert_eq!(again.description.as_deref(), Some("main"));
}

fn validation_message(r: Result<CreateClusterRequest, ApiError>) -> String {
    match r {
        Err(ApiError::Validation(m)) => m,
        _ => panic!("expected a validation error"),
    }
}

#[test]
fn cleaning_rejects_empty_fields_in_order() {
    let mut r = request();
    r.name = "   ".into();
    r.fe_host = "".into();
    assert_eq!(validation_message(clean_create_request(r)), "Cluster name cannot be empty");
    let mut r = request();
    r.fe_host = "\n".into();
    r.username = "".into();
    assert_eq!(validation_message(clean_create_request(r)), "FE host cannot be empty");
    let mut r = request();
    r.username = " ".into();
    assert_eq!(validation_message(clean_create_request(r)), "Username cannot be empty");
}

#[test]
fn organization_resolution() {
    assert!(matches!(resolve_target_org(Some(1), Some(2), true), Ok(OrgTarget::Organization(1))));
    assert!(matches!(resolve_target_org(None, Some(2), true), Ok(OrgTarget::Organization(2))));
    assert!(matches!(resolve_target_org(None, None, true), Ok(OrgTarget::DefaultOrganization)));
    assert!(matches!(resolve_target_org(Some(1), Some(2), false), Ok(OrgTarget::Organization(2))));
    match resolve_target_org(Some(1), None, false) {
        Err(ApiError::Forbidden(m)) => {
            assert_eq!(m, "Organization context required for cluster operations")
        },
        _ => panic!("expected a refusal"),
    }
}

#[test]
fn activation_on_registration() {
    assert!(active_on_insert(0));
    assert!(!active_on_insert(3));
    assert!(needs_activation(false, 0));
    assert!(!needs_activation(false, 1));
    assert!(!needs_activation(true, 0));
    for existing in 0..3i64 {
        for active in 0..3i64 {
            let stored = active_on_insert(existing);
            assert!(stored || needs_activation(stored, active) || active > 0);
        }
    }
}

#[test]
fn tags_are_json() {
    let tags = Some(vec!["prod".to_string(), "a\"b".to_string()]);
    assert_eq!(tags_json(&tags).unwrap(), "[\"prod\",\"a\\\"b\"]");
    assert_eq!(tags_json(&None), None);
}

fn empty_update() -> UpdateClusterRequest {
    UpdateClusterRequest {
        name: None,
        description: None,
        fe_host: None,
        fe_http_port: None,
        fe_query_port: None,
        username: None,
        password: None,
        enable_ssl: None,
        connection_timeout: None,
        tags: None,
        catalog: None,
        organization_id: None,
        deployment_mode: None,
    }
}

#[test]
fn update_without_fields_changes_nothing() {
    assert!(build_cluster_update(&empty_update()).is_none());
}

#[test]
fn update_statement_in_column_order() {
    let mut req = empty_update();
    req.deployment_mode = Some(DeploymentMode::SharedNothing);
    req.enable_ssl = Some(true);
    req.name = Some("n".into());
    req.fe_http_port = Some(-8030);
    req.tags = Some(vec!["x".into()]);
    req.organization_id = Some(12);
    let u = build_cluster_update(&req).unwrap();
    assert_eq!(
        u.sql,
        "UPDATE clusters SET name = ?, fe_http_port = ?, enable_ssl = ?, tags = ?, organization_id = ?, \
         deployment_mode = ?, updated_at = CURRENT_TIMESTAMP WHERE id = ?"
    );
    assert_eq!(u.params, vec!["n", "-8030", "1", "[\"x\"]", "12", "shared_nothing"]);
    assert_eq!(u.sql.matches('?').count(), u.params.len() + 1);
}

#[test]
fn update_statement_with_every_field() {
    let req = UpdateClusterRequest {
        name: Some("a".into()),
        description: Some("b".into()),
        fe_host: Some("h".into()),
        fe_http_port: Some(1),
        fe_query_port: Some(2),
        username: Some("u".into()),
        password: Some("p".into()),
        enable_ssl: Some(false),
        connection_timeout: Some(30),
        tags: Some(vec![]),
        catalog: Some("c".into()),
        organization_id: Some(-5),
        deployment_mode: Some(DeploymentMode::SharedData),
    };
    let u = build_cluster_update(&req).unwrap();
    assert_eq!(u.params, vec!["a", "b", "h", "1", "2", "u", "p", "0", "30", "[]", "c", "-5", "shared_data"]);
    assert_eq!(u.sql.matches('?').count(), 14);
    assert!(u.sql.starts_with("UPDATE clusters SET name = ?, description = ?, fe_host = ?, "));
}

#[test]
fn deletion_outcomes() {
    match deletion_followup(9, Some((true, Some(3))), 0) {
        Err(ApiError::ClusterNotFound(id)) => assert_eq!(id, 9),
        _ => panic!("expected not found"),
    }
    assert!(matches!(deletion_followup(9, Some((true, Some(3))), 1), Ok(Some(OrgScope::Organization(3)))));
    assert!(matches!(deletion_followup(9, Some((true, None)), 1), Ok(Some(OrgScope::Unassigned))));
    assert!(matches!(deletion_followup(9, Some((false, Some(3))), 1), Ok(None)));
    assert!(matches!(deletion_followup(9, None, 1), Ok(None)));
}

#[test]
fn scope_statements() {
    assert_eq!(
        OrgScope::Organization(1).deactivate_all_sql(),
        "UPDATE clusters SET is_active = 0 WHERE organization_id = ?"
    );
    assert_eq!(
        OrgScope::Unassigned.latest_cluster_sql(),
        "SELECT id FROM clusters WHERE organization_id IS NULL ORDER BY created_at DESC LIMIT 1"
    );
    assert_eq!(OrgScope::of(None), OrgScope::Unassigned);
}

#[test]
fn active_cluster_lookup() {
    assert!(matches!(active_cluster_org(Some(5)), Ok(5)));
    match active_cluster_org(None) {
        Err(ApiError::NotFound(m)) => assert_eq!(
            m,
            "No active cluster found for your organization. Please activate a cluster first."
        ),
        _ => panic!("expected not found"),
    }
}

#[test]
fn deployment_modes() {
    assert!(DeploymentMode::SharedData.is_shared_data());
    assert!(!DeploymentMode::SharedNothing.is_shared_data());
    assert_eq!(DeploymentMode::SharedData.as_text(), "shared_data");
}

#[test]
fn mode_names_and_name_check() {
    assert_eq!(DeploymentMode::from_text("shared_data"), Some(DeploymentMode::SharedData));
    assert_eq!(DeploymentMode::from_text("shared_nothing"), Some(DeploymentMode::SharedNothing));
    assert_eq!(DeploymentMode::from_text("SHARED_DATA"), None);
    assert!(name_available(false).is_ok());
    match name_available(true) {
        Err(ApiError::Validation(m)) => assert_eq!(m, "Cluster name already exists"),
        _ => panic!("expected a validation error"),
    }
}

#[test]
fn tags_json_escaping() {
    let tags = Some(vec!["a\\b".to_string(), "\n\t\u{1}\u{1f}é\u{7f}".to_string()]);
    assert_eq!(tags_json(&tags).unwrap(), "[\"a\\\\b\",\"\\n\\t\\u0001\\u001fé\u{7f}\"]");
    assert_eq!(tags_json(&Some(vec![])).unwrap(), "[]");
}

#[test]
fn registration_activates_only_when_none_is_active() {
    // (clusters already in the organization, of which active) -> new cluster active?
    let cases = [(0i64, 0i64, true), (2, 0, true), (2, 1, false), (3, 2, false)];
    for (existing, active, expected) in cases {
        let stored = active_on_insert(existing);
        let activated = needs_activation(stored, active);
        assert_eq!(stored || activated, expected);
        // the organization has an active cluster afterwards
        assert!(stored || activated || active > 0);
    }
}
