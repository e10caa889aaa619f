//! Cluster registration, update, activation and deletion: request
//! cleaning and validation, organization resolution, the dynamic update
//! statement, and what follows a deletion.

use vstd::prelude::*;

use crate::error::ApiError;
use crate::text::{
    text_eq, count_char, lemma_count_concat, lemma_count_joined, total_count, joined, lemma_trim_idempotent, push_joined, push_signed_decimal, signed_decimal, texts, trim,
    trimmed,
};

verus! {

/// How a cluster stores its data.
#[derive(Debug, Clone, Copy, PartialEq, Eq, Structural)]
pub enum DeploymentMode {
    SharedNothing,
    SharedData,
}

/// The stored name of a deployment mode.
pub open spec fn mode_text(m: DeploymentMode) -> Seq<char> {
    match m {
        DeploymentMode::SharedNothing => "shared_nothing"@,
        DeploymentMode::SharedData => "shared_data"@,
    }
}

impl DeploymentMode {
    /// The stored name of the mode.
    pub fn as_text(&self) -> (r: &'static str)
        ensures
            r@ == mode_text(*self),
    {
        match self {
            DeploymentMode::SharedNothing => "shared_nothing",
            DeploymentMode::SharedData => "shared_data",
        }
    }

    /// The mode stored under a name, if the name is one.
    pub fn from_text(text: &str) -> (r: Option<DeploymentMode>)
        ensures
            r matches Some(m) ==> mode_text(m) == text@,
            r is None ==> text@ != mode_text(DeploymentMode::SharedNothing) && text@ != mode_text(
                DeploymentMode::SharedData,
            ),
    {
        if text_eq(text, "shared_nothing") {
            Some(DeploymentMode::SharedNothing)
        } else if text_eq(text, "shared_data") {
            Some(DeploymentMode::SharedData)
        } else {
            None
        }
    }

    /// Whether compute runs on CN nodes over shared storage.
    pub fn is_shared_data(&self) -> (r: bool)
        ensures
            r == (*self == DeploymentMode::SharedData),
    {
        match self {
            DeploymentMode::SharedData => true,
            DeploymentMode::SharedNothing => false,
        }
    }
}

/// Request to register a cluster.
pub struct CreateClusterRequest {
    pub name: String,
    pub description: Option<String>,
    pub fe_host: String,
    pub fe_http_port: i32,
    pub fe_query_port: i32,
    pub username: String,
    pub password: String,
    pub enable_ssl: bool,
    pub connection_timeout: i32,
    pub tags: Option<Vec<String>>,
    pub catalog: String,
    pub organization_id: Option<i64>,
    pub deployment_mode: DeploymentMode,
}

/// Request to change a cluster; absent fields stay as they are.
pub struct UpdateClusterRequest {
    pub name: Option<String>,
    pub description: Option<String>,
    pub fe_host: Option<String>,
    pub fe_http_port: Option<i32>,
    pub fe_query_port: Option<i32>,
    pub username: Option<String>,
    pub password: Option<String>,
    pub enable_ssl: Option<bool>,
    pub connection_timeout: Option<i32>,
    pub tags: Option<Vec<String>>,
    pub catalog: Option<String>,
    pub organization_id: Option<i64>,
    pub deployment_mode: Option<DeploymentMode>,
}

/// The registration request with whitespace trimmed from its name, host,
/// user name, catalog and description: everything else as given.
pub open spec fn is_cleaned(c: CreateClusterRequest, req: CreateClusterRequest) -> bool {
    &&& c.name@ == trimmed(req.name@)
    &&& c.fe_host@ == trimmed(req.fe_host@)
    &&& c.username@ == trimmed(req.username@)
    &&& c.catalog@ == trimmed(req.catalog@)
    &&& match req.description {
        Some(d) => c.description matches Some(x) && x@ == trimmed(d@),
        None => c.description is None,
    }
    &&& c.fe_http_port == req.fe_http_port
    &&& c.fe_query_port == req.fe_query_port
    &&& c.password == req.password
    &&& c.enable_ssl == req.enable_ssl
    &&& c.connection_timeout == req.connection_timeout
    &&& c.tags == req.tags
    &&& c.organization_id == req.organization_id
    &&& c.deployment_mode == req.deployment_mode
}

/// The error text for a validation failure.
pub open spec fn is_validation_error(e: ApiError, message: Seq<char>) -> bool {
    e matches ApiError::Validation(m) && m@ == message
}

/// Why a registration request is refused once trimmed: the first of its
/// name, host and user name that is empty.
pub open spec fn cleaning_error(req: CreateClusterRequest) -> Option<Seq<char>> {
    if trimmed(req.name@).len() == 0 {
        Some("Cluster name cannot be empty"@)
    } else if trimmed(req.fe_host@).len() == 0 {
        Some("FE host cannot be empty"@)
    } else if trimmed(req.username@).len() == 0 {
        Some("Username cannot be empty"@)
    } else {
        None
    }
}

/// Trims the text fields of a registration request and checks that the
/// name, the host and the user name are not empty (in that order).
pub fn clean_create_request(req: CreateClusterRequest) -> (r: Result<CreateClusterRequest, ApiError>)
    ensures
        match cleaning_error(req) {
            Some(m) => r matches Err(e) && is_validation_error(e, m),
            None => r matches Ok(c) && is_cleaned(c, req),
        },
{
    let name = trim(req.name.as_str());
    let fe_host = trim(req.fe_host.as_str());
    let username = trim(req.username.as_str());
    let catalog = trim(req.catalog.as_str());
    let description = match &req.description {
        Some(d) => Some(trim(d.as_str())),
        None => None,
    };
    if name.as_str().is_empty() {
        return Err(ApiError::Validation("Cluster name cannot be empty".to_owned()));
    }
    if fe_host.as_str().is_empty() {
        return Err(ApiError::Validation("FE host cannot be empty".to_owned()));
    }
    if username.as_str().is_empty() {
        return Err(ApiError::Validation("Username cannot be empty".to_owned()));
    }
    Ok(
        CreateClusterRequest {
            name,
            description,
            fe_host,
            fe_http_port: req.fe_http_port,
            fe_query_port: req.fe_query_port,
            username,
            password: req.password,
            enable_ssl: req.enable_ssl,
            connection_timeout: req.connection_timeout,
            tags: req.tags,
            catalog,
            organization_id: req.organization_id,
            deployment_mode: req.deployment_mode,
        },
    )
}


/// Cleaning an accepted request again accepts it and changes nothing.
pub proof fn lemma_cleaning_is_idempotent(
    req: CreateClusterRequest,
    c: CreateClusterRequest,
    again: CreateClusterRequest,
)
    requires
        cleaning_error(req) is None,
        is_cleaned(c, req),
        is_cleaned(again, c),
    ensures
        cleaning_error(c) is None,
        is_cleaned(again, req),
{
    lemma_trim_idempotent(req.name@);
    lemma_trim_idempotent(req.fe_host@);
    lemma_trim_idempotent(req.username@);
    lemma_trim_idempotent(req.catalog@);
    match req.description {
        Some(d) => {
            lemma_trim_idempotent(d@);
        },
        None => {},
    }
}

/// A new cluster's name must not be taken by another cluster.
pub fn name_available(taken: bool) -> (r: Result<(), ApiError>)
    ensures
        !taken ==> r is Ok,
        taken ==> (r matches Err(ApiError::Validation(m)) && m@ == "Cluster name already exists"@),
{
    if taken {
        Err(ApiError::Validation("Cluster name already exists".to_owned()))
    } else {
        Ok(())
    }
}

/// Which organization a new cluster goes to.
pub enum OrgTarget {
    /// The organization with this id.
    Organization(i64),
    /// The default organization, created when it does not exist yet.
    DefaultOrganization,
}

/// Resolves the organization of a new cluster: a super administrator gets
/// the requested organization, else their own, else the default one; any
/// other caller gets their own organization and is refused without one.
pub fn resolve_target_org(
    requested_org: Option<i64>,
    requestor_org: Option<i64>,
    is_super_admin: bool,
) -> (r: Result<OrgTarget, ApiError>)
    ensures
        is_super_admin ==> match (requested_org, requestor_org) {
            (Some(id), _) => r matches Ok(OrgTarget::Organization(x)) && x == id,
            (None, Some(id)) => r matches Ok(OrgTarget::Organization(x)) && x == id,
            (None, None) => r matches Ok(OrgTarget::DefaultOrganization),
        },
        !is_super_admin ==> match requestor_org {
            Some(id) => r matches Ok(OrgTarget::Organization(x)) && x == id,
            None => r matches Err(ApiError::Forbidden(m)) && m@
                == "Organization context required for cluster operations"@,
        },
{
    if is_super_admin {
        match requested_org {
            Some(id) => {
                return Ok(OrgTarget::Organization(id));
            },
            None => {},
        }
        match requestor_org {
            Some(id) => {
                return Ok(OrgTarget::Organization(id));
            },
            None => {},
        }
        return Ok(OrgTarget::DefaultOrganization);
    }
    match requestor_org {
        Some(id) => Ok(OrgTarget::Organization(id)),
        None => Err(
            ApiError::Forbidden("Organization context required for cluster operations".to_owned()),
        ),
    }
}

/// Whether a new cluster is stored active: exactly when its organization
/// has no cluster yet.
pub open spec fn stored_active(existing_in_org: i64) -> bool {
    existing_in_org == 0
}

/// Whether a cluster that was not stored active is activated after its
/// insertion: when its organization then has no active cluster.
pub open spec fn activated_after_insert(stored: bool, active_in_org: i64) -> bool {
    !stored && active_in_org == 0
}

/// Whether a new cluster is stored active.
pub fn active_on_insert(existing_in_org: i64) -> (active: bool)
    ensures
        active == stored_active(existing_in_org),
{
    existing_in_org == 0
}

/// Whether a new cluster is to be activated after its insertion.
pub fn needs_activation(active_on_insert: bool, active_in_org: i64) -> (r: bool)
    ensures
        r == activated_after_insert(active_on_insert, active_in_org),
{
    !active_on_insert && active_in_org == 0
}

/// A lower-case hexadecimal digit.
pub open spec fn hex_digit(d: nat) -> char {
    seq!['0', '1', '2', '3', '4', '5', '6', '7', '8', '9', 'a', 'b', 'c', 'd', 'e', 'f'][(d
        % 16) as int]
}

/// How a character stands inside a JSON string as serde_json writes it:
/// `"` and `\` and the control characters below U+0020 are escaped (the
/// usual short escapes where JSON has one, `\u00XX` otherwise); every other
/// character stands as itself.
pub open spec fn json_escape(c: char) -> Seq<char> {
    let u = c as u32;
    if c == '"' {
        seq!['\\', '"']
    } else if c == '\\' {
        seq!['\\', '\\']
    } else if u == 0x8 {
        seq!['\\', 'b']
    } else if u == 0x9 {
        seq!['\\', 't']
    } else if u == 0xa {
        seq!['\\', 'n']
    } else if u == 0xc {
        seq!['\\', 'f']
    } else if u == 0xd {
        seq!['\\', 'r']
    } else if u < 0x20 {
        seq!['\\', 'u', '0', '0', hex_digit((u / 16) as nat), hex_digit((u % 16) as nat)]
    } else {
        seq![c]
    }
}

/// The characters of a text, each escaped for a JSON string.
pub open spec fn json_escaped(s: Seq<char>) -> Seq<char>
    decreases s.len(),
{
    if s.len() == 0 {
        seq![]
    } else {
        json_escaped(s.drop_last()) + json_escape(s.last())
    }
}

/// A text as a JSON string literal.
pub open spec fn json_string(s: Seq<char>) -> Seq<char> {
    seq!['"'] + json_escaped(s) + seq!['"']
}

/// The compact JSON text of a list of strings: `[`, the string literals
/// separated by `,`, then `]`.
pub open spec fn json_string_array(items: Seq<Seq<char>>) -> Seq<char> {
    seq!['['] + joined(items.map_values(|t: Seq<char>| json_string(t)), seq![',']) + seq![']']
}

/// Calls `serde_json::to_string` on a list of strings, with
/// `unwrap_or_default`. Trusted: the text is the compact JSON array stated
/// above, with serde_json's string escaping; serializing strings never
/// fails, so the default is never used.
#[verifier::external_body]
fn strings_to_json(items: &Vec<String>) -> (json: String)
    ensures
        json@ == json_string_array(texts(items@)),
{
    serde_json::to_string(items).unwrap_or_default()
}

/// The stored form of a cluster's tags: their JSON array, if given.
pub fn tags_json(tags: &Option<Vec<String>>) -> (r: Option<String>)
    ensures
        match tags {
            Some(t) => r matches Some(j) && j@ == json_string_array(texts(t@)),
            None => r is None,
        },
{
    match tags {
        Some(t) => Some(strings_to_json(t)),
        None => None,
    }
}

/// One assignment of an update and the parameter it binds, when the value
/// is given.
pub open spec fn assign_if(assignment: Seq<char>, value: Option<Seq<char>>) -> Seq<
    (Seq<char>, Seq<char>),
> {
    match value {
        Some(v) => seq![(assignment, v)],
        None => seq![],
    }
}

/// The text of an optional string.
pub open spec fn opt_text(o: Option<String>) -> Option<Seq<char>> {
    match o {
        Some(t) => Some(t@),
        None => None,
    }
}

/// The decimal text of an optional integer.
pub open spec fn opt_number(o: Option<i64>) -> Option<Seq<char>> {
    match o {
        Some(n) => Some(signed_decimal(n as int)),
        None => None,
    }
}

/// The decimal text of an optional small integer.
pub open spec fn opt_small_number(o: Option<i32>) -> Option<Seq<char>> {
    match o {
        Some(n) => Some(signed_decimal(n as int)),
        None => None,
    }
}

/// `1` or `0` for an optional flag.
pub open spec fn opt_flag(o: Option<bool>) -> Option<Seq<char>> {
    match o {
        Some(b) => Some(
            if b {
                "1"@
            } else {
                "0"@
            },
        ),
        None => None,
    }
}

/// The JSON text of optional tags.
pub open spec fn opt_tags(o: Option<Vec<String>>) -> Option<Seq<char>> {
    match o {
        Some(t) => Some(json_string_array(texts(t@))),
        None => None,
    }
}

/// The stored name of an optional deployment mode.
pub open spec fn opt_mode(o: Option<DeploymentMode>) -> Option<Seq<char>> {
    match o {
        Some(m) => Some(mode_text(m)),
        None => None,
    }
}

/// The assignments of a cluster update with their parameters, in column
/// order, one for each field that the request gives.
pub open spec fn cluster_assignments(req: UpdateClusterRequest) -> Seq<(Seq<char>, Seq<char>)> {
    assign_if("name = ?"@, opt_text(req.name)) + assign_if(
        "description = ?"@,
        opt_text(req.description),
    ) + assign_if("fe_host = ?"@, opt_text(req.fe_host)) + assign_if(
        "fe_http_port = ?"@,
        opt_small_number(req.fe_http_port),
    ) + assign_if("fe_query_port = ?"@, opt_small_number(req.fe_query_port)) + assign_if(
        "username = ?"@,
        opt_text(req.username),
    ) + assign_if("password_encrypted = ?"@, opt_text(req.password)) + assign_if(
        "enable_ssl = ?"@,
        opt_flag(req.enable_ssl),
    ) + assign_if("connection_timeout = ?"@, opt_small_number(req.connection_timeout))
        + assign_if("tags = ?"@, opt_tags(req.tags)) + assign_if(
        "catalog = ?"@,
        opt_text(req.catalog),
    ) + assign_if("organization_id = ?"@, opt_number(req.organization_id)) + assign_if(
        "deployment_mode = ?"@,
        opt_mode(req.deployment_mode),
    )
}

/// `UPDATE clusters SET <assignments>, updated_at = CURRENT_TIMESTAMP WHERE id = ?`.
pub open spec fn update_statement(assignments: Seq<(Seq<char>, Seq<char>)>) -> Seq<char> {
    "UPDATE clusters SET "@ + joined(
        assignments.map_values(|a: (Seq<char>, Seq<char>)| a.0).push(
            "updated_at = CURRENT_TIMESTAMP"@,
        ),
        ", "@,
    ) + " WHERE id = ?"@
}

/// The statement of a cluster update and the parameters it binds before
/// the cluster id.
pub struct ClusterUpdate {
    pub sql: String,
    pub params: Vec<String>,
}

/// The assignment and parameter lists hold the assignments made so far.
pub open spec fn lists_hold(
    updates: Seq<String>,
    params: Seq<String>,
    acc: Seq<(Seq<char>, Seq<char>)>,
) -> bool {
    &&& texts(updates) == acc.map_values(|a: (Seq<char>, Seq<char>)| a.0)
    &&& texts(params) == acc.map_values(|a: (Seq<char>, Seq<char>)| a.1)
}

fn add_if(
    updates: &mut Vec<String>,
    params: &mut Vec<String>,
    assignment: &str,
    param: Option<String>,
    Ghost(acc): Ghost<Seq<(Seq<char>, Seq<char>)>>,
)
    requires
        lists_hold(old(updates)@, old(params)@, acc),
    ensures
        lists_hold(final(updates)@, final(params)@, acc + assign_if(assignment@, opt_text(param))),
{
    match param {
        Some(v) => {
            let ghost u = updates@;
            let ghost p = params@;
            let ghost vv = v@;
            updates.push(assignment.to_owned());
            params.push(v);
            let ghost next = acc + assign_if(assignment@, Some(vv));
            assert(texts(updates@) =~= texts(u).push(assignment@));
            assert(texts(params@) =~= texts(p).push(vv));
            assert(next.map_values(|a: (Seq<char>, Seq<char>)| a.0) =~= acc.map_values(
                |a: (Seq<char>, Seq<char>)| a.0,
            ).push(assignment@));
            assert(next.map_values(|a: (Seq<char>, Seq<char>)| a.1) =~= acc.map_values(
                |a: (Seq<char>, Seq<char>)| a.1,
            ).push(vv));
        },
        None => {
            assert(acc + assign_if(assignment@, None) =~= acc);
        },
    }
}

fn opt_clone_text(o: &Option<String>) -> (r: Option<String>)
    ensures
        opt_text(r) == opt_text(*o),
{
    match o {
        Some(t) => Some(t.clone()),
        None => None,
    }
}

fn opt_small_number_text(o: Option<i32>) -> (r: Option<String>)
    ensures
        opt_text(r) == opt_small_number(o),
{
    match o {
        Some(n) => Some(number_text(n as i64)),
        None => None,
    }
}

fn number_text(n: i64) -> (t: String)
    ensures
        t@ == signed_decimal(n as int),
{
    let mut t = String::new();
    push_signed_decimal(&mut t, n);
    assert(t@ =~= signed_decimal(n as int));
    t
}

/// Builds the update statement of a request, or `None` when the request
/// changes nothing.
pub fn build_cluster_update(req: &UpdateClusterRequest) -> (r: Option<ClusterUpdate>)
    ensures
        cluster_assignments(*req).len() == 0 ==> r is None,
        cluster_assignments(*req).len() > 0 ==> (r matches Some(u) && u.sql@ == update_statement(
            cluster_assignments(*req),
        ) && texts(u.params@) == cluster_assignments(*req).map_values(
            |a: (Seq<char>, Seq<char>)| a.1,
        )),
{
    let mut updates: Vec<String> = Vec::new();
    let mut params: Vec<String> = Vec::new();
    let ghost acc0: Seq<(Seq<char>, Seq<char>)> = seq![];
    assert(texts(updates@) =~= acc0.map_values(|a: (Seq<char>, Seq<char>)| a.0));
    assert(texts(params@) =~= acc0.map_values(|a: (Seq<char>, Seq<char>)| a.1));
    add_if(&mut updates, &mut params, "name = ?", opt_clone_text(&req.name), Ghost(acc0));
    let ghost acc1 = acc0 + assign_if("name = ?"@, opt_text(req.name));
    add_if(
        &mut updates,
        &mut params,
        "description = ?",
        opt_clone_text(&req.description),
        Ghost(acc1),
    );
    let ghost acc2 = acc1 + assign_if("description = ?"@, opt_text(req.description));
    add_if(&mut updates, &mut params, "fe_host = ?", opt_clone_text(&req.fe_host), Ghost(acc2));
    let ghost acc3 = acc2 + assign_if("fe_host = ?"@, opt_text(req.fe_host));
    add_if(
        &mut updates,
        &mut params,
        "fe_http_port = ?",
        opt_small_number_text(req.fe_http_port),
        Ghost(acc3),
    );
    let ghost acc4 = acc3 + assign_if("fe_http_port = ?"@, opt_small_number(req.fe_http_port));
    add_if(
        &mut updates,
        &mut params,
        "fe_query_port = ?",
        opt_small_number_text(req.fe_query_port),
        Ghost(acc4),
    );
    let ghost acc5 = acc4 + assign_if("fe_query_port = ?"@, opt_small_number(req.fe_query_port));
    add_if(&mut updates, &mut params, "username = ?", opt_clone_text(&req.username), Ghost(acc5));
    let ghost acc6 = acc5 + assign_if("username = ?"@, opt_text(req.username));
    add_if(
        &mut updates,
        &mut params,
        "password_encrypted = ?",
        opt_clone_text(&req.password),
        Ghost(acc6),
    );
    let ghost acc7 = acc6 + assign_if("password_encrypted = ?"@, opt_text(req.password));
    let ssl: Option<String> = match req.enable_ssl {
        Some(v) => Some(
            if v {
                "1".to_owned()
            } else {
                "0".to_owned()
            },
        ),
        None => None,
    };
    assert(opt_text(ssl) == opt_flag(req.enable_ssl));
    add_if(&mut updates, &mut params, "enable_ssl = ?", ssl, Ghost(acc7));
    let ghost acc8 = acc7 + assign_if("enable_ssl = ?"@, opt_flag(req.enable_ssl));
    add_if(
        &mut updates,
        &mut params,
        "connection_timeout = ?",
        opt_small_number_text(req.connection_timeout),
        Ghost(acc8),
    );
    let ghost acc9 = acc8 + assign_if(
        "connection_timeout = ?"@,
        opt_small_number(req.connection_timeout),
    );
    let tags: Option<String> = match &req.tags {
        Some(t) => Some(strings_to_json(t)),
        None => None,
    };
    assert(opt_text(tags) == opt_tags(req.tags));
    add_if(&mut updates, &mut params, "tags = ?", tags, Ghost(acc9));
    let ghost acc10 = acc9 + assign_if("tags = ?"@, opt_tags(req.tags));
    add_if(&mut updates, &mut params, "catalog = ?", opt_clone_text(&req.catalog), Ghost(acc10));
    let ghost acc11 = acc10 + assign_if("catalog = ?"@, opt_text(req.catalog));
    let org: Option<String> = match req.organization_id {
        Some(n) => Some(number_text(n)),
        None => None,
    };
    assert(opt_text(org) == opt_number(req.organization_id));
    add_if(&mut updates, &mut params, "organization_id = ?", org, Ghost(acc11));
    let ghost acc12 = acc11 + assign_if("organization_id = ?"@, opt_number(req.organization_id));
    let mode: Option<String> = match &req.deployment_mode {
        Some(m) => Some(m.as_text().to_owned()),
        None => None,
    };
    assert(opt_text(mode) == opt_mode(req.deployment_mode));
    add_if(&mut updates, &mut params, "deployment_mode = ?", mode, Ghost(acc12));
    let ghost acc = acc12 + assign_if("deployment_mode = ?"@, opt_mode(req.deployment_mode));
    assert(acc =~= cluster_assignments(*req));
    assert(texts(updates@).len() == updates@.len());
    assert(acc.map_values(|a: (Seq<char>, Seq<char>)| a.0).len() == acc.len());
    if updates.len() == 0 {
        return None;
    }
    let ghost cols = texts(updates@);
    updates.push("updated_at = CURRENT_TIMESTAMP".to_owned());
    assert(texts(updates@) =~= cols.push("updated_at = CURRENT_TIMESTAMP"@));
    let mut sql = String::new();
    sql.append("UPDATE clusters SET ");
    push_joined(&mut sql, &updates, ", ");
    sql.append(" WHERE id = ?");
    Some(ClusterUpdate { sql, params })
}


/// `(a + b)` holds an item exactly when `a` or `b` does.
proof fn lemma_contains_concat<T>(a: Seq<T>, b: Seq<T>, x: T)
    ensures
        (a + b).contains(x) <==> (a.contains(x) || b.contains(x)),
{
    if a.contains(x) {
        let i = choose|i: int| 0 <= i < a.len() && a[i] == x;
        assert((a + b)[i] == x);
    }
    if b.contains(x) {
        let j = choose|j: int| 0 <= j < b.len() && b[j] == x;
        assert((a + b)[a.len() + j] == x);
    }
    if (a + b).contains(x) {
        let k = choose|k: int| 0 <= k < (a + b).len() && (a + b)[k] == x;
        if k < a.len() {
            assert(a[k] == x);
        } else {
            assert(b[k - a.len()] == x);
        }
    }
}

proof fn lemma_assign_if_contains(
    assignment: Seq<char>,
    value: Option<Seq<char>>,
    x: (Seq<char>, Seq<char>),
)
    ensures
        assign_if(assignment, value).contains(x) <==> (value matches Some(v) && x == (
            assignment,
            v,
        )),
        assign_if(assignment, value).len() == if value is Some {
            1nat
        } else {
            0nat
        },
{
    if value is Some {
        assert(assign_if(assignment, value)[0] == (assignment, value->0));
    }
}

/// The columns that a cluster update can set, in statement order.
pub open spec fn update_columns() -> Seq<Seq<char>> {
    seq![
        "name = ?"@,
        "description = ?"@,
        "fe_host = ?"@,
        "fe_http_port = ?"@,
        "fe_query_port = ?"@,
        "username = ?"@,
        "password_encrypted = ?"@,
        "enable_ssl = ?"@,
        "connection_timeout = ?"@,
        "tags = ?"@,
        "catalog = ?"@,
        "organization_id = ?"@,
        "deployment_mode = ?"@,
    ]
}

/// The values that a request gives for those columns, in the same order.
pub open spec fn update_values(req: UpdateClusterRequest) -> Seq<Option<Seq<char>>> {
    seq![
        opt_text(req.name),
        opt_text(req.description),
        opt_text(req.fe_host),
        opt_small_number(req.fe_http_port),
        opt_small_number(req.fe_query_port),
        opt_text(req.username),
        opt_text(req.password),
        opt_flag(req.enable_ssl),
        opt_small_number(req.connection_timeout),
        opt_tags(req.tags),
        opt_text(req.catalog),
        opt_number(req.organization_id),
        opt_mode(req.deployment_mode),
    ]
}

proof fn lemma_update_columns_differ()
    ensures
        update_columns().len() == 13,
        forall|i: int, j: int|
            0 <= i < 13 && 0 <= j < 13 && i != j ==> #[trigger] update_columns()[i]
                != #[trigger] update_columns()[j],
{
    reveal_strlit("name = ?");
    reveal_strlit("description = ?");
    reveal_strlit("fe_host = ?");
    reveal_strlit("fe_http_port = ?");
    reveal_strlit("fe_query_port = ?");
    reveal_strlit("username = ?");
    reveal_strlit("password_encrypted = ?");
    reveal_strlit("enable_ssl = ?");
    reveal_strlit("connection_timeout = ?");
    reveal_strlit("tags = ?");
    reveal_strlit("catalog = ?");
    reveal_strlit("organization_id = ?");
    reveal_strlit("deployment_mode = ?");
    let cs = update_columns();
    assert(cs[0] == "name = ?"@ && cs[0].len() == 8);
    assert(cs[1] == "description = ?"@ && cs[1].len() == 15);
    assert(cs[2] == "fe_host = ?"@ && cs[2].len() == 11);
    assert(cs[3] == "fe_http_port = ?"@ && cs[3].len() == 16);
    assert(cs[4] == "fe_query_port = ?"@ && cs[4].len() == 17);
    assert(cs[5] == "username = ?"@ && cs[5].len() == 12);
    assert(cs[6] == "password_encrypted = ?"@ && cs[6].len() == 22);
    assert(cs[7] == "enable_ssl = ?"@ && cs[7].len() == 14);
    assert(cs[8] == "connection_timeout = ?"@ && cs[8].len() == 22);
    assert(cs[9] == "tags = ?"@ && cs[9].len() == 8);
    assert(cs[10] == "catalog = ?"@ && cs[10].len() == 11);
    assert(cs[11] == "organization_id = ?"@ && cs[11].len() == 19);
    assert(cs[12] == "deployment_mode = ?"@ && cs[12].len() == 19);
    assert forall|i: int, j: int|
        0 <= i < 13 && 0 <= j < 13 && i != j implies #[trigger] cs[i] != #[trigger] cs[j] by {
        if cs[i].len() == cs[j].len() {
            assert(cs[i][0] != cs[j][0]);
        }
    }
}

proof fn lemma_update_contains(req: UpdateClusterRequest, x: (Seq<char>, Seq<char>))
    ensures
        cluster_assignments(req).contains(x) <==> exists|k: int|
            0 <= k < 13 && #[trigger] update_values(req)[k] == Some(x.1) && x.0
                == update_columns()[k],
        cluster_assignments(req).len() == given_fields(req),
{
    let cs = update_columns();
    let vs = update_values(req);
    assert(cs[0] == "name = ?"@ && vs[0] == opt_text(req.name));
    assert(cs[1] == "description = ?"@ && vs[1] == opt_text(req.description));
    assert(cs[2] == "fe_host = ?"@ && vs[2] == opt_text(req.fe_host));
    assert(cs[3] == "fe_http_port = ?"@ && vs[3] == opt_small_number(req.fe_http_port));
    assert(cs[4] == "fe_query_port = ?"@ && vs[4] == opt_small_number(req.fe_query_port));
    assert(cs[5] == "username = ?"@ && vs[5] == opt_text(req.username));
    assert(cs[6] == "password_encrypted = ?"@ && vs[6] == opt_text(req.password));
    assert(cs[7] == "enable_ssl = ?"@ && vs[7] == opt_flag(req.enable_ssl));
    assert(cs[8] == "connection_timeout = ?"@ && vs[8] == opt_small_number(req.connection_timeout));
    assert(cs[9] == "tags = ?"@ && vs[9] == opt_tags(req.tags));
    assert(cs[10] == "catalog = ?"@ && vs[10] == opt_text(req.catalog));
    assert(cs[11] == "organization_id = ?"@ && vs[11] == opt_number(req.organization_id));
    assert(cs[12] == "deployment_mode = ?"@ && vs[12] == opt_mode(req.deployment_mode));
    let p0 = assign_if(cs[0], vs[0]);
    lemma_assign_if_contains(cs[0], vs[0], x);
    let p1 = assign_if(cs[1], vs[1]);
    lemma_assign_if_contains(cs[1], vs[1], x);
    let p2 = assign_if(cs[2], vs[2]);
    lemma_assign_if_contains(cs[2], vs[2], x);
    let p3 = assign_if(cs[3], vs[3]);
    lemma_assign_if_contains(cs[3], vs[3], x);
    let p4 = assign_if(cs[4], vs[4]);
    lemma_assign_if_contains(cs[4], vs[4], x);
    let p5 = assign_if(cs[5], vs[5]);
    lemma_assign_if_contains(cs[5], vs[5], x);
    let p6 = assign_if(cs[6], vs[6]);
    lemma_assign_if_contains(cs[6], vs[6], x);
    let p7 = assign_if(cs[7], vs[7]);
    lemma_assign_if_contains(cs[7], vs[7], x);
    let p8 = assign_if(cs[8], vs[8]);
    lemma_assign_if_contains(cs[8], vs[8], x);
    let p9 = assign_if(cs[9], vs[9]);
    lemma_assign_if_contains(cs[9], vs[9], x);
    let p10 = assign_if(cs[10], vs[10]);
    lemma_assign_if_contains(cs[10], vs[10], x);
    let p11 = assign_if(cs[11], vs[11]);
    lemma_assign_if_contains(cs[11], vs[11], x);
    let p12 = assign_if(cs[12], vs[12]);
    lemma_assign_if_contains(cs[12], vs[12], x);
    let a0 = p0;
    let a1 = a0 + p1;
    lemma_contains_concat(a0, p1, x);
    let a2 = a1 + p2;
    lemma_contains_concat(a1, p2, x);
    let a3 = a2 + p3;
    lemma_contains_concat(a2, p3, x);
    let a4 = a3 + p4;
    lemma_contains_concat(a3, p4, x);
    let a5 = a4 + p5;
    lemma_contains_concat(a4, p5, x);
    let a6 = a5 + p6;
    lemma_contains_concat(a5, p6, x);
    let a7 = a6 + p7;
    lemma_contains_concat(a6, p7, x);
    let a8 = a7 + p8;
    lemma_contains_concat(a7, p8, x);
    let a9 = a8 + p9;
    lemma_contains_concat(a8, p9, x);
    let a10 = a9 + p10;
    lemma_contains_concat(a9, p10, x);
    let a11 = a10 + p11;
    lemma_contains_concat(a10, p11, x);
    let a12 = a11 + p12;
    lemma_contains_concat(a11, p12, x);
    assert(cluster_assignments(req) == a12);
    if p0.contains(x) {
        assert(vs[0] == Some(x.1) && x.0 == cs[0]);
    }
    if p1.contains(x) {
        assert(vs[1] == Some(x.1) && x.0 == cs[1]);
    }
    if p2.contains(x) {
        assert(vs[2] == Some(x.1) && x.0 == cs[2]);
    }
    if p3.contains(x) {
        assert(vs[3] == Some(x.1) && x.0 == cs[3]);
    }
    if p4.contains(x) {
        assert(vs[4] == Some(x.1) && x.0 == cs[4]);
    }
    if p5.contains(x) {
        assert(vs[5] == Some(x.1) && x.0 == cs[5]);
    }
    if p6.contains(x) {
        assert(vs[6] == Some(x.1) && x.0 == cs[6]);
    }
    if p7.contains(x) {
        assert(vs[7] == Some(x.1) && x.0 == cs[7]);
    }
    if p8.contains(x) {
        assert(vs[8] == Some(x.1) && x.0 == cs[8]);
    }
    if p9.contains(x) {
        assert(vs[9] == Some(x.1) && x.0 == cs[9]);
    }
    if p10.contains(x) {
        assert(vs[10] == Some(x.1) && x.0 == cs[10]);
    }
    if p11.contains(x) {
        assert(vs[11] == Some(x.1) && x.0 == cs[11]);
    }
    if p12.contains(x) {
        assert(vs[12] == Some(x.1) && x.0 == cs[12]);
    }
    if exists|k: int| 0 <= k < 13 && #[trigger] vs[k] == Some(x.1) && x.0 == cs[k] {
        let k = choose|k: int| 0 <= k < 13 && #[trigger] vs[k] == Some(x.1) && x.0 == cs[k];
        assert(k == 0 || k == 1 || k == 2 || k == 3 || k == 4 || k == 5 || k == 6 || k == 7 || k == 8 || k == 9 || k == 10 || k == 11 || k == 12);
    }
}

/// Number of fields that a request gives.
pub open spec fn given_fields(req: UpdateClusterRequest) -> nat {
    (if req.name is Some {
        1nat
    } else {
        0nat
    })
        + (if req.description is Some {
        1nat
    } else {
        0nat
    })
        + (if req.fe_host is Some {
        1nat
    } else {
        0nat
    })
        + (if req.fe_http_port is Some {
        1nat
    } else {
        0nat
    })
        + (if req.fe_query_port is Some {
        1nat
    } else {
        0nat
    })
        + (if req.username is Some {
        1nat
    } else {
        0nat
    })
        + (if req.password is Some {
        1nat
    } else {
        0nat
    })
        + (if req.enable_ssl is Some {
        1nat
    } else {
        0nat
    })
        + (if req.connection_timeout is Some {
        1nat
    } else {
        0nat
    })
        + (if req.tags is Some {
        1nat
    } else {
        0nat
    })
        + (if req.catalog is Some {
        1nat
    } else {
        0nat
    })
        + (if req.organization_id is Some {
        1nat
    } else {
        0nat
    })
        + (if req.deployment_mode is Some {
        1nat
    } else {
        0nat
    })
}

/// The column is set by the update to the given value, and to no other;
/// or, without a value, the update leaves the column alone.
pub open spec fn sets_column(
    assignments: Seq<(Seq<char>, Seq<char>)>,
    column: Seq<char>,
    value: Option<Seq<char>>,
) -> bool {
    match value {
        Some(v) => assignments.contains((column, v)) && forall|u: Seq<char>|
            #[trigger] assignments.contains((column, u)) ==> u == v,
        None => forall|u: Seq<char>| !#[trigger] assignments.contains((column, u)),
    }
}

/// Each field that an update request gives sets its own column to the
/// field's value (the query port sets `fe_query_port`, the HTTP port
/// `fe_http_port`, and so on), each field that it leaves out leaves its
/// column alone, every assignment sets one of those columns, and there is
/// one assignment per given field.
pub proof fn lemma_update_sets_each_field(req: UpdateClusterRequest)
    ensures
        sets_column(
            cluster_assignments(req),
            "name = ?"@,
            match req.name {
                Some(x) => Some(x@),
                None => None,
            },
        ),
        sets_column(
            cluster_assignments(req),
            "description = ?"@,
            match req.description {
                Some(x) => Some(x@),
                None => None,
            },
        ),
        sets_column(
            cluster_assignments(req),
            "fe_host = ?"@,
            match req.fe_host {
                Some(x) => Some(x@),
                None => None,
            },
        ),
        sets_column(
            cluster_assignments(req),
            "fe_http_port = ?"@,
            match req.fe_http_port {
                Some(x) => Some(signed_decimal(x as int)),
                None => None,
            },
        ),
        sets_column(
            cluster_assignments(req),
            "fe_query_port = ?"@,
            match req.fe_query_port {
                Some(x) => Some(signed_decimal(x as int)),
                None => None,
            },
        ),
        sets_column(
            cluster_assignments(req),
            "username = ?"@,
            match req.username {
                Some(x) => Some(x@),
                None => None,
            },
        ),
        sets_column(
            cluster_assignments(req),
            "password_encrypted = ?"@,
            match req.password {
                Some(x) => Some(x@),
                None => None,
            },
        ),
        sets_column(
            cluster_assignments(req),
            "enable_ssl = ?"@,
            match req.enable_ssl {
                Some(true) => Some("1"@),
                Some(false) => Some("0"@),
                None => None,
            },
        ),
        sets_column(
            cluster_assignments(req),
            "connection_timeout = ?"@,
            match req.connection_timeout {
                Some(x) => Some(signed_decimal(x as int)),
                None => None,
            },
        ),
        sets_column(
            cluster_assignments(req),
            "tags = ?"@,
            match req.tags {
                Some(x) => Some(json_string_array(texts(x@))),
                None => None,
            },
        ),
        sets_column(
            cluster_assignments(req),
            "catalog = ?"@,
            match req.catalog {
                Some(x) => Some(x@),
                None => None,
            },
        ),
        sets_column(
            cluster_assignments(req),
            "organization_id = ?"@,
            match req.organization_id {
                Some(x) => Some(signed_decimal(x as int)),
                None => None,
            },
        ),
        sets_column(
            cluster_assignments(req),
            "deployment_mode = ?"@,
            match req.deployment_mode {
                Some(x) => Some(mode_text(x)),
                None => None,
            },
        ),
        cluster_assignments(req).len() == given_fields(req),
        forall|i: int|
            0 <= i < cluster_assignments(req).len() ==> update_columns().contains(
                #[trigger] cluster_assignments(req)[i].0,
            ),
{
    lemma_update_columns_differ();
    let a = cluster_assignments(req);
    let cs = update_columns();
    let vs = update_values(req);
    assert(cs[0] == "name = ?"@ && vs[0] == opt_text(req.name));
    assert(cs[1] == "description = ?"@ && vs[1] == opt_text(req.description));
    assert(cs[2] == "fe_host = ?"@ && vs[2] == opt_text(req.fe_host));
    assert(cs[3] == "fe_http_port = ?"@ && vs[3] == opt_small_number(req.fe_http_port));
    assert(cs[4] == "fe_query_port = ?"@ && vs[4] == opt_small_number(req.fe_query_port));
    assert(cs[5] == "username = ?"@ && vs[5] == opt_text(req.username));
    assert(cs[6] == "password_encrypted = ?"@ && vs[6] == opt_text(req.password));
    assert(cs[7] == "enable_ssl = ?"@ && vs[7] == opt_flag(req.enable_ssl));
    assert(cs[8] == "connection_timeout = ?"@ && vs[8] == opt_small_number(req.connection_timeout));
    assert(cs[9] == "tags = ?"@ && vs[9] == opt_tags(req.tags));
    assert(cs[10] == "catalog = ?"@ && vs[10] == opt_text(req.catalog));
    assert(cs[11] == "organization_id = ?"@ && vs[11] == opt_number(req.organization_id));
    assert(cs[12] == "deployment_mode = ?"@ && vs[12] == opt_mode(req.deployment_mode));
    lemma_update_contains(req, (cs[0], seq![]));
    assert forall|m: int, u: Seq<char>| 0 <= m < 13 implies (#[trigger] a.contains((cs[m], u))
        <==> vs[m] == Some(u)) by {
        lemma_update_contains(req, (cs[m], u));
        if a.contains((cs[m], u)) {
            let k = choose|k: int| 0 <= k < 13 && #[trigger] vs[k] == Some(u) && cs[m] == cs[k];
            assert(k == m);
        }
    }
    assert(sets_column(a, cs[0], vs[0])) by {
        if let Some(v) = vs[0] {
            assert(a.contains((cs[0], v)));
        }
    }
    assert(sets_column(a, cs[1], vs[1])) by {
        if let Some(v) = vs[1] {
            assert(a.contains((cs[1], v)));
        }
    }
    assert(sets_column(a, cs[2], vs[2])) by {
        if let Some(v) = vs[2] {
            assert(a.contains((cs[2], v)));
        }
    }
    assert(sets_column(a, cs[3], vs[3])) by {
        if let Some(v) = vs[3] {
            assert(a.contains((cs[3], v)));
        }
    }
    assert(sets_column(a, cs[4], vs[4])) by {
        if let Some(v) = vs[4] {
            assert(a.contains((cs[4], v)));
        }
    }
    assert(sets_column(a, cs[5], vs[5])) by {
        if let Some(v) = vs[5] {
            assert(a.contains((cs[5], v)));
        }
    }
    assert(sets_column(a, cs[6], vs[6])) by {
        if let Some(v) = vs[6] {
            assert(a.contains((cs[6], v)));
        }
    }
    assert(sets_column(a, cs[7], vs[7])) by {
        if let Some(v) = vs[7] {
            assert(a.contains((cs[7], v)));
        }
    }
    assert(sets_column(a, cs[8], vs[8])) by {
        if let Some(v) = vs[8] {
            assert(a.contains((cs[8], v)));
        }
    }
    assert(sets_column(a, cs[9], vs[9])) by {
        if let Some(v) = vs[9] {
            assert(a.contains((cs[9], v)));
        }
    }
    assert(sets_column(a, cs[10], vs[10])) by {
        if let Some(v) = vs[10] {
            assert(a.contains((cs[10], v)));
        }
    }
    assert(sets_column(a, cs[11], vs[11])) by {
        if let Some(v) = vs[11] {
            assert(a.contains((cs[11], v)));
        }
    }
    assert(sets_column(a, cs[12], vs[12])) by {
        if let Some(v) = vs[12] {
            assert(a.contains((cs[12], v)));
        }
    }
    assert forall|i: int| 0 <= i < a.len() implies cs.contains(#[trigger] a[i].0) by {
        lemma_update_contains(req, a[i]);
        assert(a.contains(a[i]));
        let k = choose|k: int| 0 <= k < 13 && #[trigger] vs[k] == Some(a[i].1) && a[i].0 == cs[k];
        assert(cs[k] == a[i].0);
    }
}


/// The clusters that share a cluster's organization: those of an
/// organization, or those without one.
#[derive(Debug, Clone, Copy, PartialEq, Eq, Structural)]
pub enum OrgScope {
    Organization(i64),
    Unassigned,
}

/// The scope of a cluster's organization.
pub open spec fn scope_of(org: Option<i64>) -> OrgScope {
    match org {
        Some(id) => OrgScope::Organization(id),
        None => OrgScope::Unassigned,
    }
}

impl OrgScope {
    /// The scope of a cluster's organization.
    pub fn of(org: Option<i64>) -> (s: OrgScope)
        ensures
            s == scope_of(org),
    {
        match org {
            Some(id) => OrgScope::Organization(id),
            None => OrgScope::Unassigned,
        }
    }

    /// The statement that deactivates every cluster of the scope (bound to
    /// the organization id for an organization).
    pub fn deactivate_all_sql(&self) -> (sql: &'static str)
        ensures
            sql@ == (match *self {
                OrgScope::Organization(_) => "UPDATE clusters SET is_active = 0 WHERE organization_id = ?"@,
                OrgScope::Unassigned => "UPDATE clusters SET is_active = 0 WHERE organization_id IS NULL"@,
            }),
    {
        match self {
            OrgScope::Organization(_) => "UPDATE clusters SET is_active = 0 WHERE organization_id = ?",
            OrgScope::Unassigned => "UPDATE clusters SET is_active = 0 WHERE organization_id IS NULL",
        }
    }

    /// The query for the most recently created cluster of the scope.
    pub fn latest_cluster_sql(&self) -> (sql: &'static str)
        ensures
            sql@ == (match *self {
                OrgScope::Organization(_) => "SELECT id FROM clusters WHERE organization_id = ? ORDER BY created_at DESC LIMIT 1"@,
                OrgScope::Unassigned => "SELECT id FROM clusters WHERE organization_id IS NULL ORDER BY created_at DESC LIMIT 1"@,
            }),
    {
        match self {
            OrgScope::Organization(_) => "SELECT id FROM clusters WHERE organization_id = ? ORDER BY created_at DESC LIMIT 1",
            OrgScope::Unassigned => "SELECT id FROM clusters WHERE organization_id IS NULL ORDER BY created_at DESC LIMIT 1",
        }
    }
}

/// What follows the deletion of a cluster, given its record before the
/// deletion (whether it was active, and its organization) and the number
/// of rows deleted: not found when nothing was deleted; otherwise, when the
/// deleted cluster was active, another cluster of its scope is to be
/// activated.
pub fn deletion_followup(
    cluster_id: i64,
    record: Option<(bool, Option<i64>)>,
    rows_affected: u64,
) -> (r: Result<Option<OrgScope>, ApiError>)
    ensures
        rows_affected == 0 ==> (r matches Err(ApiError::ClusterNotFound(id)) && id == cluster_id),
        rows_affected > 0 ==> match record {
            Some((true, org)) => r == Ok::<Option<OrgScope>, ApiError>(Some(scope_of(org))),
            _ => r == Ok::<Option<OrgScope>, ApiError>(None),
        },
{
    if rows_affected == 0 {
        return Err(ApiError::ClusterNotFound(cluster_id));
    }
    match record {
        Some((true, org)) => Ok(Some(OrgScope::of(org))),
        _ => Ok(None),
    }
}

/// The organization whose active cluster is looked up; a caller without
/// an organization has no active cluster.
pub fn active_cluster_org(org: Option<i64>) -> (r: Result<i64, ApiError>)
    ensures
        match org {
            Some(id) => r matches Ok(x) && x == id,
            None => r matches Err(ApiError::NotFound(m)) && m@
                == "No active cluster found for your organization. Please activate a cluster first."@,
        },
{
    match org {
        Some(id) => Ok(id),
        None => Err(
            ApiError::NotFound(
                "No active cluster found for your organization. Please activate a cluster first.".to_owned(),
            ),
        ),
    }
}


/// Each assignment holds exactly one `?`.
pub open spec fn one_placeholder_each(a: Seq<(Seq<char>, Seq<char>)>) -> bool {
    forall|i: int| 0 <= i < a.len() ==> count_char(#[trigger] a[i].0, '?') == 1
}

proof fn lemma_one_placeholder_concat(a: Seq<(Seq<char>, Seq<char>)>, b: Seq<(Seq<char>, Seq<char>)>)
    requires
        one_placeholder_each(a),
        one_placeholder_each(b),
    ensures
        one_placeholder_each(a + b),
{
    assert forall|i: int| 0 <= i < (a + b).len() implies count_char(#[trigger] (a + b)[i].0, '?')
        == 1 by {
        if i < a.len() {
            assert((a + b)[i] == a[i]);
        } else {
            assert((a + b)[i] == b[i - a.len()]);
        }
    }
}

proof fn lemma_assign_if_one(assignment: Seq<char>, value: Option<Seq<char>>)
    requires
        count_char(assignment, '?') == 1,
    ensures
        one_placeholder_each(assign_if(assignment, value)),
{
}

proof fn lemma_total_of_ones(a: Seq<(Seq<char>, Seq<char>)>)
    requires
        one_placeholder_each(a),
    ensures
        total_count(a.map_values(|x: (Seq<char>, Seq<char>)| x.0), '?') == a.len(),
    decreases a.len(),
{
    if a.len() > 0 {
        let rest = a.drop_last();
        assert(one_placeholder_each(rest)) by {
            assert forall|i: int| 0 <= i < rest.len() implies count_char(#[trigger] rest[i].0, '?')
                == 1 by {
                assert(rest[i] == a[i]);
            }
        }
        lemma_total_of_ones(rest);
        assert(a.map_values(|x: (Seq<char>, Seq<char>)| x.0).drop_last() =~= rest.map_values(
            |x: (Seq<char>, Seq<char>)| x.0,
        ));
        assert(count_char(a[a.len() - 1].0, '?') == 1);
    }
}

proof fn lemma_assignment_literals()
    ensures
        count_char("name = ?"@, '?') == 1,
        count_char("description = ?"@, '?') == 1,
        count_char("fe_host = ?"@, '?') == 1,
        count_char("fe_http_port = ?"@, '?') == 1,
        count_char("fe_query_port = ?"@, '?') == 1,
        count_char("username = ?"@, '?') == 1,
        count_char("password_encrypted = ?"@, '?') == 1,
        count_char("enable_ssl = ?"@, '?') == 1,
        count_char("connection_timeout = ?"@, '?') == 1,
        count_char("tags = ?"@, '?') == 1,
        count_char("catalog = ?"@, '?') == 1,
        count_char("organization_id = ?"@, '?') == 1,
        count_char("deployment_mode = ?"@, '?') == 1,
        count_char("updated_at = CURRENT_TIMESTAMP"@, '?') == 0,
        count_char("UPDATE clusters SET "@, '?') == 0,
        count_char(" WHERE id = ?"@, '?') == 1,
        count_char(", "@, '?') == 0,
{
    reveal_strlit("name = ?");
    reveal_strlit("description = ?");
    reveal_strlit("fe_host = ?");
    reveal_strlit("fe_http_port = ?");
    reveal_strlit("fe_query_port = ?");
    reveal_strlit("username = ?");
    reveal_strlit("password_encrypted = ?");
    reveal_strlit("enable_ssl = ?");
    reveal_strlit("connection_timeout = ?");
    reveal_strlit("tags = ?");
    reveal_strlit("catalog = ?");
    reveal_strlit("organization_id = ?");
    reveal_strlit("deployment_mode = ?");
    reveal_strlit("updated_at = CURRENT_TIMESTAMP");
    reveal_strlit("UPDATE clusters SET ");
    reveal_strlit(" WHERE id = ?");
    reveal_strlit(", ");
    reveal_with_fuel(count_char, 31);
}

/// Every `?` of an update statement has its parameter: the statement holds
/// one placeholder per parameter that the update binds, and one more for
/// the cluster id bound last.
pub proof fn lemma_update_placeholders(req: UpdateClusterRequest)
    ensures
        count_char(update_statement(cluster_assignments(req)), '?') == cluster_assignments(
            req,
        ).map_values(|a: (Seq<char>, Seq<char>)| a.1).len() + 1,
{
    lemma_assignment_literals();
    lemma_assign_if_one("name = ?"@, opt_text(req.name));
    lemma_assign_if_one("description = ?"@, opt_text(req.description));
    lemma_assign_if_one("fe_host = ?"@, opt_text(req.fe_host));
    lemma_assign_if_one("fe_http_port = ?"@, opt_small_number(req.fe_http_port));
    lemma_assign_if_one("fe_query_port = ?"@, opt_small_number(req.fe_query_port));
    lemma_assign_if_one("username = ?"@, opt_text(req.username));
    lemma_assign_if_one("password_encrypted = ?"@, opt_text(req.password));
    lemma_assign_if_one("enable_ssl = ?"@, opt_flag(req.enable_ssl));
    lemma_assign_if_one("connection_timeout = ?"@, opt_small_number(req.connection_timeout));
    lemma_assign_if_one("tags = ?"@, opt_tags(req.tags));
    lemma_assign_if_one("catalog = ?"@, opt_text(req.catalog));
    lemma_assign_if_one("organization_id = ?"@, opt_number(req.organization_id));
    lemma_assign_if_one("deployment_mode = ?"@, opt_mode(req.deployment_mode));
    let a1 = assign_if("name = ?"@, opt_text(req.name));
    let a2 = a1 + assign_if("description = ?"@, opt_text(req.description));
    lemma_one_placeholder_concat(a1, assign_if("description = ?"@, opt_text(req.description)));
    let a3 = a2 + assign_if("fe_host = ?"@, opt_text(req.fe_host));
    lemma_one_placeholder_concat(a2, assign_if("fe_host = ?"@, opt_text(req.fe_host)));
    let a4 = a3 + assign_if("fe_http_port = ?"@, opt_small_number(req.fe_http_port));
    lemma_one_placeholder_concat(
        a3,
        assign_if("fe_http_port = ?"@, opt_small_number(req.fe_http_port)),
    );
    let a5 = a4 + assign_if("fe_query_port = ?"@, opt_small_number(req.fe_query_port));
    lemma_one_placeholder_concat(
        a4,
        assign_if("fe_query_port = ?"@, opt_small_number(req.fe_query_port)),
    );
    let a6 = a5 + assign_if("username = ?"@, opt_text(req.username));
    lemma_one_placeholder_concat(a5, assign_if("username = ?"@, opt_text(req.username)));
    let a7 = a6 + assign_if("password_encrypted = ?"@, opt_text(req.password));
    lemma_one_placeholder_concat(a6, assign_if("password_encrypted = ?"@, opt_text(req.password)));
    let a8 = a7 + assign_if("enable_ssl = ?"@, opt_flag(req.enable_ssl));
    lemma_one_placeholder_concat(a7, assign_if("enable_ssl = ?"@, opt_flag(req.enable_ssl)));
    let a9 = a8 + assign_if("connection_timeout = ?"@, opt_small_number(req.connection_timeout));
    lemma_one_placeholder_concat(
        a8,
        assign_if("connection_timeout = ?"@, opt_small_number(req.connection_timeout)),
    );
    let a10 = a9 + assign_if("tags = ?"@, opt_tags(req.tags));
    lemma_one_placeholder_concat(a9, assign_if("tags = ?"@, opt_tags(req.tags)));
    let a11 = a10 + assign_if("catalog = ?"@, opt_text(req.catalog));
    lemma_one_placeholder_concat(a10, assign_if("catalog = ?"@, opt_text(req.catalog)));
    let a12 = a11 + assign_if("organization_id = ?"@, opt_number(req.organization_id));
    lemma_one_placeholder_concat(
        a11,
        assign_if("organization_id = ?"@, opt_number(req.organization_id)),
    );
    let a = a12 + assign_if("deployment_mode = ?"@, opt_mode(req.deployment_mode));
    lemma_one_placeholder_concat(
        a12,
        assign_if("deployment_mode = ?"@, opt_mode(req.deployment_mode)),
    );
    assert(a == cluster_assignments(req));
    lemma_total_of_ones(a);
    let cols = a.map_values(|x: (Seq<char>, Seq<char>)| x.0);
    let items = cols.push("updated_at = CURRENT_TIMESTAMP"@);
    assert(items.drop_last() =~= cols);
    assert(total_count(items, '?') == a.len());
    lemma_count_joined(items, ", "@, '?');
    lemma_count_concat("UPDATE clusters SET "@, joined(items, ", "@), '?');
    lemma_count_concat("UPDATE clusters SET "@ + joined(items, ", "@), " WHERE id = ?"@, '?');
}


/// Number of active clusters in a group of stored clusters, each given by
/// its id and its active flag, oldest first.
pub open spec fn active_count(group: Seq<(i64, bool)>) -> nat
    decreases group.len(),
{
    if group.len() == 0 {
        0
    } else {
        active_count(group.drop_last()) + if group.last().1 {
            1nat
        } else {
            0nat
        }
    }
}

/// No two clusters of the group share an id.
pub open spec fn distinct_ids(group: Seq<(i64, bool)>) -> bool {
    forall|i: int, j: int| 0 <= i < group.len() && 0 <= j < group.len() && i != j ==> group[i].0
        != group[j].0
}

/// The group after a cluster is registered in it: the new cluster comes
/// last, stored active when the group was empty, or activated after its
/// insertion when no cluster of the group was active; the flags of the
/// other clusters stay.
pub open spec fn after_registration(group: Seq<(i64, bool)>, new_id: i64) -> Seq<(i64, bool)> {
    let stored = stored_active(group.len() as i64);
    group.push((new_id, stored || activated_after_insert(stored, active_count(group) as i64)))
}

/// The group after a cluster of it is activated: every cluster of the
/// group is deactivated, then the target is activated.
pub open spec fn after_activation(group: Seq<(i64, bool)>, target: i64) -> Seq<(i64, bool)> {
    Seq::new(group.len(), |i: int| (group[i].0, group[i].0 == target))
}

/// The group after the cluster at index `k` is deleted: when it was active,
/// the most recently created remaining cluster is activated.
pub open spec fn after_deletion(group: Seq<(i64, bool)>, k: int) -> Seq<(i64, bool)> {
    let rest = group.remove(k);
    if group[k].1 && rest.len() > 0 {
        rest.update(rest.len() - 1, (rest.last().0, true))
    } else {
        rest
    }
}

proof fn lemma_active_count_concat(a: Seq<(i64, bool)>, b: Seq<(i64, bool)>)
    ensures
        active_count(a + b) == active_count(a) + active_count(b),
    decreases b.len(),
{
    if b.len() == 0 {
        assert(a + b =~= a);
    } else {
        lemma_active_count_concat(a, b.drop_last());
        assert((a + b).drop_last() =~= a + b.drop_last());
    }
}

proof fn lemma_active_count_single(x: (i64, bool))
    ensures
        active_count(seq![x]) == if x.1 {
            1nat
        } else {
            0nat
        },
{
    assert(seq![x].drop_last() =~= Seq::<(i64, bool)>::empty());
    assert(active_count(Seq::<(i64, bool)>::empty()) == 0);
    assert(seq![x].last() == x);
}

proof fn lemma_activation_count(group: Seq<(i64, bool)>, target: i64)
    requires
        distinct_ids(group),
    ensures
        (exists|k: int| 0 <= k < group.len() && group[k].0 == target) ==> active_count(
            after_activation(group, target),
        ) == 1,
        (forall|k: int| 0 <= k < group.len() ==> group[k].0 != target) ==> active_count(
            after_activation(group, target),
        ) == 0,
    decreases group.len(),
{
    if group.len() > 0 {
        let rest = group.drop_last();
        assert(distinct_ids(rest)) by {
            assert forall|i: int, j: int|
                0 <= i < rest.len() && 0 <= j < rest.len() && i != j implies rest[i].0
                != rest[j].0 by {
                assert(rest[i] == group[i] && rest[j] == group[j]);
            }
        }
        lemma_activation_count(rest, target);
        assert(after_activation(group, target).drop_last() =~= after_activation(rest, target));
        if group.last().0 == target {
            assert forall|k: int| 0 <= k < rest.len() implies rest[k].0 != target by {
                assert(rest[k] == group[k]);
            }
        } else {
            if exists|k: int| 0 <= k < group.len() && group[k].0 == target {
                let k = choose|k: int| 0 <= k < group.len() && group[k].0 == target;
                assert(k < rest.len());
                assert(rest[k] == group[k]);
            } else {
                assert forall|k: int| 0 <= k < rest.len() implies rest[k].0 != target by {
                    assert(rest[k] == group[k]);
                }
            }
        }
    }
}

proof fn lemma_active_count_bound(group: Seq<(i64, bool)>)
    ensures
        active_count(group) <= group.len(),
    decreases group.len(),
{
    if group.len() > 0 {
        lemma_active_count_bound(group.drop_last());
    }
}

/// Registering a cluster in any group: the new cluster is active exactly
/// when no cluster of the group was active, the group has an active
/// cluster afterwards, and the flags of the clusters that were there stay.
pub proof fn lemma_registration_keeps_an_active(group: Seq<(i64, bool)>, new_id: i64)
    requires
        group.len() < i64::MAX,
    ensures
        after_registration(group, new_id).last() == (new_id, active_count(group) == 0),
        after_registration(group, new_id).drop_last() == group,
        active_count(after_registration(group, new_id)) == if active_count(group) == 0 {
            1
        } else {
            active_count(group)
        },
        active_count(after_registration(group, new_id)) >= 1,
{
    lemma_active_count_bound(group);
    let after = after_registration(group, new_id);
    assert(after.drop_last() =~= group);
}

/// Registering a cluster in a group with at most one active cluster leaves
/// exactly one active cluster, and the other clusters' flags as they were.
pub proof fn lemma_registration_leaves_one_active(group: Seq<(i64, bool)>, new_id: i64)
    requires
        active_count(group) <= 1,
        group.len() < i64::MAX,
    ensures
        active_count(after_registration(group, new_id)) == 1,
        after_registration(group, new_id).drop_last() == group,
{
    let after = after_registration(group, new_id);
    assert(after.drop_last() =~= group);
}

/// Activating a cluster of a group leaves it the only active cluster of the
/// group, and activating it again changes nothing.
pub proof fn lemma_activation_leaves_one_active(group: Seq<(i64, bool)>, target: i64, k: int)
    requires
        distinct_ids(group),
        0 <= k < group.len(),
        group[k].0 == target,
    ensures
        active_count(after_activation(group, target)) == 1,
        after_activation(group, target)[k].1,
        after_activation(after_activation(group, target), target) == after_activation(
            group,
            target,
        ),
{
    lemma_activation_count(group, target);
    assert(after_activation(after_activation(group, target), target) =~= after_activation(
        group,
        target,
    ));
}

/// Deleting a cluster from a group with exactly one active cluster leaves
/// exactly one active cluster when any cluster remains.
pub proof fn lemma_deletion_leaves_one_active(group: Seq<(i64, bool)>, k: int)
    requires
        0 <= k < group.len(),
        active_count(group) == 1,
        group.len() > 1,
    ensures
        active_count(after_deletion(group, k)) == 1,
{
    let rest = group.remove(k);
    assert(group =~= group.take(k) + seq![group[k]] + group.skip(k + 1));
    assert(rest =~= group.take(k) + group.skip(k + 1));
    lemma_active_count_concat(group.take(k) + seq![group[k]], group.skip(k + 1));
    lemma_active_count_concat(group.take(k), seq![group[k]]);
    lemma_active_count_concat(group.take(k), group.skip(k + 1));
    lemma_active_count_single(group[k]);
    if group[k].1 {
        let n = rest.len() - 1;
        let last = rest.last();
        assert(rest =~= rest.drop_last() + seq![last]);
        lemma_active_count_concat(rest.drop_last(), seq![last]);
        lemma_active_count_single(last);
        let updated = rest.update(n, (last.0, true));
        assert(updated =~= rest.drop_last() + seq![(last.0, true)]);
        lemma_active_count_concat(rest.drop_last(), seq![(last.0, true)]);
        lemma_active_count_single((last.0, true));
    }
}

} // verus!
