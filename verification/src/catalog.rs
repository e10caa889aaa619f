//! Database and table management: the request and response records, and
//! the SQL statements and responses built from them.

use vstd::prelude::*;

use crate::error::ApiError;
use crate::text::{
    chars_of, contains, extract_comment, find_from_exec, joined, push_joined, push_signed_decimal,
    quoted_comment, signed_decimal, text_eq, texts,
};

verus! {

/// A database as reported to clients.
pub struct DatabaseResponse {
    pub name: String,
    pub comment: Option<String>,
    pub create_time: String,
    pub tables_count: i64,
}

/// One entry of a JSON `properties` object: its key, and its value when
/// that value is a JSON string.
pub struct Property {
    pub key: String,
    pub value: Option<String>,
}

/// Request to create a database. `properties` holds the entries of the
/// request's `properties` object in order, or `None` when the request has
/// none or it is not an object.
pub struct CreateDatabaseRequest {
    pub name: String,
    pub comment: Option<String>,
    pub properties: Option<Vec<Property>>,
}

/// Request to change a database's comment or properties.
pub struct UpdateDatabaseRequest {
    pub comment: Option<String>,
    pub properties: Option<Vec<Property>>,
}

/// ` COMMENT '<comment>'`, or nothing without a comment.
pub open spec fn comment_clause(comment: Option<String>) -> Seq<char> {
    match comment {
        Some(c) => " COMMENT '"@ + c@ + "'"@,
        None => seq![],
    }
}

/// `'<key>' = '<value>'`.
pub open spec fn property_entry(key: Seq<char>, value: Seq<char>) -> Seq<char> {
    "'"@ + key + "' = '"@ + value + "'"@
}

/// The entries of the properties whose value is a string, in order.
pub open spec fn property_entries(ps: Seq<Property>) -> Seq<Seq<char>>
    decreases ps.len(),
{
    if ps.len() == 0 {
        seq![]
    } else {
        let rest = property_entries(ps.drop_last());
        match ps.last().value {
            Some(v) => rest.push(property_entry(ps.last().key@, v@)),
            None => rest,
        }
    }
}

/// `<opener><entries joined by ", ">)` for a non-empty properties object,
/// nothing otherwise.
pub open spec fn properties_clause(props: Option<Vec<Property>>, opener: Seq<char>) -> Seq<char> {
    match props {
        Some(ps) => if ps@.len() == 0 {
            seq![]
        } else {
            opener + joined(property_entries(ps@), ", "@) + ")"@
        },
        None => seq![],
    }
}

fn push_comment_clause(sql: &mut String, comment: &Option<String>)
    ensures
        final(sql)@ == old(sql)@ + comment_clause(*comment),
{
    match comment {
        Some(c) => {
            sql.append(" COMMENT '");
            sql.append(c.as_str());
            sql.append("'");
        },
        None => {
            assert(sql@ =~= old(sql)@ + comment_clause(*comment));
        },
    }
}

fn push_properties_clause(sql: &mut String, props: &Option<Vec<Property>>, opener: &str)
    ensures
        final(sql)@ == old(sql)@ + properties_clause(*props, opener@),
{
    match props {
        Some(ps) => {
            if ps.len() == 0 {
                assert(sql@ =~= old(sql)@ + properties_clause(*props, opener@));
                return;
            }
            let mut entries: Vec<String> = Vec::new();
            let mut i: usize = 0;
            while i < ps.len()
                invariant
                    i <= ps@.len(),
                    texts(entries@) == property_entries(ps@.take(i as int)),
                decreases ps.len() - i,
            {
                let p = &ps[i];
                proof {
                    assert(ps@.take(i + 1).drop_last() =~= ps@.take(i as int));
                }
                match &p.value {
                    Some(v) => {
                        let mut e = String::new();
                        e.append("'");
                        e.append(p.key.as_str());
                        e.append("' = '");
                        e.append(v.as_str());
                        e.append("'");
                        let ghost before = entries@;
                        entries.push(e);
                        proof {
                            assert(e@ =~= property_entry(p.key@, v@));
                            assert(texts(entries@) =~= texts(before).push(e@));
                        }
                    },
                    None => {},
                }
                i = i + 1;
            }
            assert(ps@.take(ps@.len() as int) =~= ps@);
            sql.append(opener);
            push_joined(sql, &entries, ", ");
            sql.append(")");
            assert(sql@ =~= old(sql)@ + properties_clause(*props, opener@));
        },
        None => {
            assert(sql@ =~= old(sql)@ + properties_clause(*props, opener@));
        },
    }
}

/// The statement that creates a database.
pub open spec fn create_database_statement(req: CreateDatabaseRequest) -> Seq<char> {
    "CREATE DATABASE IF NOT EXISTS "@ + req.name@ + comment_clause(req.comment)
        + properties_clause(req.properties, " PROPERTIES ("@)
}

/// Builds `CREATE DATABASE IF NOT EXISTS <name>`, with the comment and the
/// string-valued properties of the request.
pub fn create_database_sql(req: &CreateDatabaseRequest) -> (sql: String)
    ensures
        sql@ == create_database_statement(*req),
{
    let mut sql = String::new();
    sql.append("CREATE DATABASE IF NOT EXISTS ");
    sql.append(req.name.as_str());
    push_comment_clause(&mut sql, &req.comment);
    push_properties_clause(&mut sql, &req.properties, " PROPERTIES (");
    assert(sql@ =~= create_database_statement(*req));
    sql
}

/// The statement that changes a database.
pub open spec fn alter_database_statement(name: Seq<char>, req: UpdateDatabaseRequest) -> Seq<char> {
    "ALTER DATABASE "@ + name + comment_clause(req.comment) + properties_clause(
        req.properties,
        " SET PROPERTIES ("@,
    )
}

/// Builds `ALTER DATABASE <name>`, with the new comment and properties.
pub fn alter_database_sql(name: &str, req: &UpdateDatabaseRequest) -> (sql: String)
    ensures
        sql@ == alter_database_statement(name@, *req),
{
    let mut sql = String::new();
    sql.append("ALTER DATABASE ");
    sql.append(name);
    push_comment_clause(&mut sql, &req.comment);
    push_properties_clause(&mut sql, &req.properties, " SET PROPERTIES (");
    assert(sql@ =~= alter_database_statement(name@, *req));
    sql
}


/// Builds `DROP DATABASE IF EXISTS <name>`.
pub fn drop_database_sql(name: &str) -> (sql: String)
    ensures
        sql@ == "DROP DATABASE IF EXISTS "@ + name@,
{
    let mut sql = String::new();
    sql.append("DROP DATABASE IF EXISTS ");
    sql.append(name);
    sql
}

/// Builds `SHOW CREATE DATABASE <name>`.
pub fn show_create_database_sql(name: &str) -> (sql: String)
    ensures
        sql@ == "SHOW CREATE DATABASE "@ + name@,
{
    let mut sql = String::new();
    sql.append("SHOW CREATE DATABASE ");
    sql.append(name);
    sql
}

/// Builds `SHOW TABLES FROM <database>`.
pub fn show_tables_sql(database: &str) -> (sql: String)
    ensures
        sql@ == "SHOW TABLES FROM "@ + database@,
{
    let mut sql = String::new();
    sql.append("SHOW TABLES FROM ");
    sql.append(database);
    sql
}

/// Builds `<prefix><database>.<table>`.
fn table_statement(prefix: &str, database: &str, table: &str) -> (sql: String)
    ensures
        sql@ == prefix@ + database@ + "."@ + table@,
{
    let mut sql = String::new();
    sql.append(prefix);
    sql.append(database);
    sql.append(".");
    sql.append(table);
    assert(sql@ =~= prefix@ + database@ + "."@ + table@);
    sql
}

/// Builds `SHOW CREATE TABLE <database>.<table>`.
pub fn show_create_table_sql(database: &str, table: &str) -> (sql: String)
    ensures
        sql@ == "SHOW CREATE TABLE "@ + database@ + "."@ + table@,
{
    table_statement("SHOW CREATE TABLE ", database, table)
}

/// Builds `SHOW COLUMNS FROM <database>.<table>`.
pub fn show_columns_sql(database: &str, table: &str) -> (sql: String)
    ensures
        sql@ == "SHOW COLUMNS FROM "@ + database@ + "."@ + table@,
{
    table_statement("SHOW COLUMNS FROM ", database, table)
}

/// Builds `SHOW PARTITIONS FROM <database>.<table>`.
pub fn show_partitions_sql(database: &str, table: &str) -> (sql: String)
    ensures
        sql@ == "SHOW PARTITIONS FROM "@ + database@ + "."@ + table@,
{
    table_statement("SHOW PARTITIONS FROM ", database, table)
}

/// Builds `DROP TABLE IF EXISTS <database>.<table>`.
pub fn drop_table_sql(database: &str, table: &str) -> (sql: String)
    ensures
        sql@ == "DROP TABLE IF EXISTS "@ + database@ + "."@ + table@,
{
    table_statement("DROP TABLE IF EXISTS ", database, table)
}

/// The statement that a table action runs, if the action is known.
pub open spec fn action_statement(database: Seq<char>, table: Seq<char>, action: Seq<char>) -> Option<
    Seq<char>,
> {
    if action == "truncate"@ {
        Some("TRUNCATE TABLE "@ + database + "."@ + table)
    } else if action == "optimize"@ {
        Some("OPTIMIZE TABLE "@ + database + "."@ + table)
    } else if action == "repair"@ {
        Some("REPAIR TABLE "@ + database + "."@ + table)
    } else {
        None
    }
}

/// Builds the statement of the requested table action: `truncate`,
/// `optimize` or `repair`; any other action is refused as invalid.
pub fn table_action_sql(database: &str, table: &str, req: &TableActionRequest) -> (r: Result<
    String,
    ApiError,
>)
    ensures
        match action_statement(database@, table@, req.action@) {
            Some(sql) => r matches Ok(s) && s@ == sql,
            None => r matches Err(ApiError::Validation(m)) && m@ == "Invalid table action"@,
        },
{
    let action = req.action.as_str();
    if text_eq(action, "truncate") {
        Ok(table_statement("TRUNCATE TABLE ", database, table))
    } else if text_eq(action, "optimize") {
        Ok(table_statement("OPTIMIZE TABLE ", database, table))
    } else if text_eq(action, "repair") {
        Ok(table_statement("REPAIR TABLE ", database, table))
    } else {
        Err(ApiError::Validation("Invalid table action".to_owned()))
    }
}

/// A cell of a result row: text, an integer that fits in `i64`, or
/// anything else.
pub enum CellValue {
    Text(String),
    Integer(i64),
    Other,
}

/// The text in cell `i` of a row, if there is such a cell and it holds text.
pub open spec fn cell_text(row: Seq<CellValue>, i: int) -> Option<Seq<char>> {
    if 0 <= i < row.len() {
        match row[i] {
            CellValue::Text(t) => Some(t@),
            _ => None,
        }
    } else {
        None
    }
}

/// The integer in cell `i` of a row, if there is such a cell and it holds one.
pub open spec fn cell_int(row: Seq<CellValue>, i: int) -> Option<i64> {
    if 0 <= i < row.len() {
        match row[i] {
            CellValue::Integer(n) => Some(n),
            _ => None,
        }
    } else {
        None
    }
}

/// The text in cell `i` of a row, if any.
pub fn row_text(row: &Vec<CellValue>, i: usize) -> (r: Option<String>)
    ensures
        match cell_text(row@, i as int) {
            Some(t) => r matches Some(x) && x@ == t,
            None => r is None,
        },
{
    if i < row.len() {
        match &row[i] {
            CellValue::Text(t) => Some(t.clone()),
            _ => None,
        }
    } else {
        None
    }
}

/// The integer in cell `i` of a row, if any.
pub fn row_int(row: &Vec<CellValue>, i: usize) -> (r: Option<i64>)
    ensures
        r == cell_int(row@, i as int),
{
    if i < row.len() {
        match &row[i] {
            CellValue::Integer(n) => Some(*n),
            _ => None,
        }
    } else {
        None
    }
}

/// The system databases that listings leave out.
pub open spec fn is_system_database_name(name: Seq<char>) -> bool {
    name == "information_schema"@ || name == "performance_schema"@ || name == "mysql"@
}

/// Whether `name` is one of the system databases.
pub fn is_system_database(name: &str) -> (r: bool)
    ensures
        r == is_system_database_name(name@),
{
    text_eq(name, "information_schema") || text_eq(name, "performance_schema") || text_eq(
        name,
        "mysql",
    )
}

/// The names in the first cell of the rows of `SHOW DATABASES`, in order,
/// without the system databases.
pub open spec fn user_databases(rows: Seq<Vec<CellValue>>) -> Seq<Seq<char>>
    decreases rows.len(),
{
    if rows.len() == 0 {
        seq![]
    } else {
        let rest = user_databases(rows.drop_last());
        match cell_text(rows.last()@, 0) {
            Some(name) => if is_system_database_name(name) {
                rest
            } else {
                rest.push(name)
            },
            None => rest,
        }
    }
}

/// Database listings never include the system databases.
pub proof fn lemma_user_databases_exclude_system(rows: Seq<Vec<CellValue>>)
    ensures
        forall|k: int|
            0 <= k < user_databases(rows).len() ==> !is_system_database_name(
                #[trigger] user_databases(rows)[k],
            ),
    decreases rows.len(),
{
    if rows.len() > 0 {
        let rest = user_databases(rows.drop_last());
        lemma_user_databases_exclude_system(rows.drop_last());
        assert forall|k: int| 0 <= k < user_databases(rows).len() implies !is_system_database_name(
            #[trigger] user_databases(rows)[k],
        ) by {
            if k < rest.len() {
                assert(user_databases(rows)[k] == rest[k]);
            }
        }
    }
}

/// Database listings hold every name in the first column of `SHOW
/// DATABASES`, in order, but `information_schema`, `performance_schema` and
/// `mysql`: no other name is left out.
pub proof fn lemma_user_databases_are_all_but_system(rows: Seq<Vec<CellValue>>)
    ensures
        user_databases(rows) == first_column_texts(rows).filter(
            |n: Seq<char>|
                n != "information_schema"@ && n != "performance_schema"@ && n != "mysql"@,
        ),
    decreases rows.len(),
{
    let keep = |n: Seq<char>|
        n != "information_schema"@ && n != "performance_schema"@ && n != "mysql"@;
    reveal(Seq::filter);
    if rows.len() > 0 {
        lemma_user_databases_are_all_but_system(rows.drop_last());
        let all = first_column_texts(rows);
        match cell_text(rows.last()@, 0) {
            Some(name) => {
                assert(all.drop_last() =~= first_column_texts(rows.drop_last()));
                assert(all.last() == name);
            },
            None => {
                assert(all == first_column_texts(rows.drop_last()));
            },
        }
    } else {
        assert(first_column_texts(rows).len() == 0);
    }
}

/// Lists the user databases among the rows of `SHOW DATABASES`.
pub fn user_database_names(rows: &Vec<Vec<CellValue>>) -> (names: Vec<String>)
    ensures
        texts(names@) == user_databases(rows@),
{
    let mut names: Vec<String> = Vec::new();
    let mut i: usize = 0;
    while i < rows.len()
        invariant
            i <= rows@.len(),
            texts(names@) == user_databases(rows@.take(i as int)),
        decreases rows.len() - i,
    {
        proof {
            assert(rows@.take(i + 1).drop_last() =~= rows@.take(i as int));
        }
        match row_text(&rows[i], 0) {
            Some(name) => {
                if !is_system_database(name.as_str()) {
                    let ghost before = names@;
                    names.push(name);
                    assert(texts(names@) =~= texts(before).push(names@[before.len() as int]@));
                }
            },
            None => {},
        }
        i = i + 1;
    }
    assert(rows@.take(rows@.len() as int) =~= rows@);
    names
}

/// The names in the first cell of each row that has text there, in order.
pub open spec fn first_column_texts(rows: Seq<Vec<CellValue>>) -> Seq<Seq<char>>
    decreases rows.len(),
{
    if rows.len() == 0 {
        seq![]
    } else {
        let rest = first_column_texts(rows.drop_last());
        match cell_text(rows.last()@, 0) {
            Some(name) => rest.push(name),
            None => rest,
        }
    }
}

/// The table names among the rows of `SHOW TABLES`.
pub fn table_names(rows: &Vec<Vec<CellValue>>) -> (names: Vec<String>)
    ensures
        texts(names@) == first_column_texts(rows@),
{
    let mut names: Vec<String> = Vec::new();
    let mut i: usize = 0;
    while i < rows.len()
        invariant
            i <= rows@.len(),
            texts(names@) == first_column_texts(rows@.take(i as int)),
        decreases rows.len() - i,
    {
        proof {
            assert(rows@.take(i + 1).drop_last() =~= rows@.take(i as int));
        }
        match row_text(&rows[i], 0) {
            Some(name) => {
                let ghost before = names@;
                names.push(name);
                assert(texts(names@) =~= texts(before).push(names@[before.len() as int]@));
            },
            None => {},
        }
        i = i + 1;
    }
    assert(rows@.take(rows@.len() as int) =~= rows@);
    names
}

/// Whether `name` is listed in the first column of the rows.
pub fn is_listed(rows: &Vec<Vec<CellValue>>, name: &str) -> (r: bool)
    ensures
        r == first_column_texts(rows@).contains(name@),
{
    let names = table_names(rows);
    let ghost all = texts(names@);
    let mut i: usize = 0;
    while i < names.len()
        invariant
            i <= names@.len(),
            all == texts(names@),
            all == first_column_texts(rows@),
            forall|k: int| 0 <= k < i ==> all[k] != name@,
        decreases names.len() - i,
    {
        if text_eq(names[i].as_str(), name) {
            assert(all[i as int] == name@);
            return true;
        }
        i = i + 1;
    }
    false
}

/// Deleting a database: the `DROP DATABASE IF EXISTS <name>` statement when
/// the rows of `SHOW DATABASES` list it, and not found otherwise.
pub fn delete_database_sql(name: &str, database_rows: &Vec<Vec<CellValue>>) -> (r: Result<
    String,
    ApiError,
>)
    ensures
        first_column_texts(database_rows@).contains(name@) ==> (r matches Ok(s) && s@
            == "DROP DATABASE IF EXISTS "@ + name@),
        !first_column_texts(database_rows@).contains(name@) ==> (r matches Err(
            ApiError::NotFound(m),
        ) && m@ == "Database not found"@),
{
    if is_listed(database_rows, name) {
        Ok(drop_database_sql(name))
    } else {
        Err(ApiError::NotFound("Database not found".to_owned()))
    }
}

/// Deleting a table: the `DROP TABLE IF EXISTS <database>.<table>`
/// statement when the rows of `SHOW TABLES FROM <database>` list it, and
/// not found otherwise.
pub fn delete_table_sql(database: &str, table: &str, table_rows: &Vec<Vec<CellValue>>) -> (r:
    Result<String, ApiError>)
    ensures
        first_column_texts(table_rows@).contains(table@) ==> (r matches Ok(s) && s@
            == "DROP TABLE IF EXISTS "@ + database@ + "."@ + table@),
        !first_column_texts(table_rows@).contains(table@) ==> (r matches Err(
            ApiError::NotFound(m),
        ) && m@ == "Table not found"@),
{
    if is_listed(table_rows, table) {
        Ok(drop_table_sql(database, table))
    } else {
        Err(ApiError::NotFound("Table not found".to_owned()))
    }
}

/// Reading, updating or acting on a database: it goes ahead when the rows
/// of `SHOW DATABASES` list it, and is not found otherwise.
pub fn check_database_exists(name: &str, database_rows: &Vec<Vec<CellValue>>) -> (r: Result<
    (),
    ApiError,
>)
    ensures
        first_column_texts(database_rows@).contains(name@) ==> r is Ok,
        !first_column_texts(database_rows@).contains(name@) ==> (r matches Err(
            ApiError::NotFound(m),
        ) && m@ == "Database not found"@),
{
    if is_listed(database_rows, name) {
        Ok(())
    } else {
        Err(ApiError::NotFound("Database not found".to_owned()))
    }
}

/// Reading, updating or acting on a table: it goes ahead when the rows of
/// `SHOW TABLES FROM <database>` list it, and is not found otherwise.
pub fn check_table_exists(table: &str, table_rows: &Vec<Vec<CellValue>>) -> (r: Result<
    (),
    ApiError,
>)
    ensures
        first_column_texts(table_rows@).contains(table@) ==> r is Ok,
        !first_column_texts(table_rows@).contains(table@) ==> (r matches Err(
            ApiError::NotFound(m),
        ) && m@ == "Table not found"@),
{
    if is_listed(table_rows, table) {
        Ok(())
    } else {
        Err(ApiError::NotFound("Table not found".to_owned()))
    }
}

/// The comment of a database: quoted in the statement in the second cell
/// of the first row of `SHOW CREATE DATABASE`.
pub open spec fn statement_comment(create_rows: Seq<Vec<CellValue>>) -> Option<Seq<char>> {
    if create_rows.len() > 0 {
        match cell_text(create_rows[0]@, 1) {
            Some(stmt) => quoted_comment(stmt),
            None => None,
        }
    } else {
        None
    }
}

fn comment_from_rows(create_rows: &Vec<Vec<CellValue>>) -> (r: Option<String>)
    ensures
        match statement_comment(create_rows@) {
            Some(c) => r matches Some(x) && x@ == c,
            None => r is None,
        },
{
    if create_rows.len() > 0 {
        match row_text(&create_rows[0], 1) {
            Some(stmt) => extract_comment(stmt.as_str()),
            None => None,
        }
    } else {
        None
    }
}

/// Assembles a database's description from the rows of
/// `SHOW CREATE DATABASE` and `SHOW TABLES FROM`.
pub fn database_response(
    name: &str,
    create_rows: &Vec<Vec<CellValue>>,
    table_rows: &Vec<Vec<CellValue>>,
) -> (r: DatabaseResponse)
    ensures
        r.name@ == name@,
        match statement_comment(create_rows@) {
            Some(c) => r.comment matches Some(x) && x@ == c,
            None => r.comment is None,
        },
        r.create_time@ == Seq::<char>::empty(),
        r.tables_count == table_rows@.len() as i64,
{
    DatabaseResponse {
        name: name.to_owned(),
        comment: comment_from_rows(create_rows),
        create_time: String::new(),
        tables_count: table_rows.len() as i64,
    }
}


/// A table as listed to clients.
pub struct TableResponse {
    pub database: String,
    pub name: String,
    pub table_type: String,
    pub engine: String,
    pub create_time: String,
    pub rows: Option<i64>,
    pub data_size: Option<i64>,
    pub comment: Option<String>,
}

/// A table with its columns, partitions and bucketing.
pub struct TableDetailResponse {
    pub database: String,
    pub name: String,
    pub table_type: String,
    pub engine: String,
    pub create_time: String,
    pub rows: Option<i64>,
    pub data_size: Option<i64>,
    pub comment: Option<String>,
    pub columns: Vec<ColumnInfo>,
    pub partitions: Option<Vec<PartitionInfo>>,
    pub buckets: Option<BucketInfo>,
}

/// A column of an existing table.
pub struct ColumnInfo {
    pub name: String,
    pub data_type: String,
    pub comment: Option<String>,
    pub default_value: Option<String>,
    pub is_nullable: bool,
}

/// A partition of an existing table.
pub struct PartitionInfo {
    pub name: String,
    pub values: String,
    pub status: String,
    pub data_size: Option<i64>,
    pub rows: Option<i64>,
}

/// The bucketing of an existing table.
pub struct BucketInfo {
    pub bucket_type: String,
    pub bucket_keys: Vec<String>,
    pub bucket_count: i32,
}

/// Request to create a table. `table_type` is one of `duplicate`,
/// `aggregate`, `unique`, `primary` and `update`.
pub struct CreateTableRequest {
    pub database: String,
    pub name: String,
    pub table_type: String,
    pub columns: Vec<ColumnDefinition>,
    pub partition_info: Option<PartitionDefinition>,
    pub bucket_info: Option<BucketDefinition>,
    pub comment: Option<String>,
    pub properties: Option<Vec<Property>>,
}

/// A column of a table to create.
pub struct ColumnDefinition {
    pub name: String,
    pub data_type: String,
    pub comment: Option<String>,
    pub default_value: Option<String>,
    pub is_nullable: bool,
    pub is_key: bool,
    pub aggregate_type: Option<String>,
}

/// How a table to create is partitioned.
pub struct PartitionDefinition {
    pub partition_type: String,
    pub partition_key: String,
    pub partitions: Vec<PartitionSpec>,
}

/// One partition of a table to create.
pub struct PartitionSpec {
    pub name: String,
    pub values: String,
}

/// How a table to create is bucketed.
pub struct BucketDefinition {
    pub bucket_type: String,
    pub bucket_keys: Vec<String>,
    pub bucket_count: i32,
}

/// Request to change a table; absent parts keep what the table has.
pub struct UpdateTableRequest {
    pub columns: Option<Vec<ColumnDefinition>>,
    pub partition_info: Option<PartitionDefinition>,
    pub bucket_info: Option<BucketDefinition>,
    pub comment: Option<String>,
    pub properties: Option<Vec<Property>>,
}

/// Request to run an action (`truncate`, `optimize`, `repair`) on a table.
pub struct TableActionRequest {
    pub action: String,
}

/// Whether `p` occurs in `s`.
pub fn contains_text(s: &str, p: &str) -> (r: bool)
    ensures
        r == contains(s@, p@),
{
    let cs = chars_of(s);
    let ps = chars_of(p);
    find_from_exec(&cs, &ps, 0).is_some()
}

/// The kind of table that a `CREATE TABLE` statement declares.
pub open spec fn table_type_of(stmt: Seq<char>) -> Seq<char> {
    if contains(stmt, "AGGREGATE TABLE"@) {
        "aggregate"@
    } else if contains(stmt, "UNIQUE TABLE"@) {
        "unique"@
    } else if contains(stmt, "PRIMARY KEY TABLE"@) {
        "primary"@
    } else if contains(stmt, "UPDATE TABLE"@) {
        "update"@
    } else {
        "duplicate"@
    }
}

/// The kind of table that a `CREATE TABLE` statement declares.
pub fn table_type_from_statement(stmt: &str) -> (r: String)
    ensures
        r@ == table_type_of(stmt@),
{
    if contains_text(stmt, "AGGREGATE TABLE") {
        "aggregate".to_owned()
    } else if contains_text(stmt, "UNIQUE TABLE") {
        "unique".to_owned()
    } else if contains_text(stmt, "PRIMARY KEY TABLE") {
        "primary".to_owned()
    } else if contains_text(stmt, "UPDATE TABLE") {
        "update".to_owned()
    } else {
        "duplicate".to_owned()
    }
}

/// The text of an optional string, if present.
pub open spec fn opt_view(o: Option<String>) -> Option<Seq<char>> {
    match o {
        Some(t) => Some(t@),
        None => None,
    }
}

/// The rows whose first cell holds text, in order.
pub open spec fn named_rows(rows: Seq<Vec<CellValue>>) -> Seq<Seq<CellValue>>
    decreases rows.len(),
{
    if rows.len() == 0 {
        seq![]
    } else {
        let rest = named_rows(rows.drop_last());
        if cell_text(rows.last()@, 0) is Some {
            rest.push(rows.last()@)
        } else {
            rest
        }
    }
}

/// A column read from a `SHOW COLUMNS` row: name, type (empty if absent),
/// nullable when the third cell is `YES`, default value and comment.
pub open spec fn column_from_row(c: ColumnInfo, row: Seq<CellValue>) -> bool {
    &&& cell_text(row, 0) == Some(c.name@)
    &&& c.data_type@ == (match cell_text(row, 1) {
        Some(t) => t,
        None => seq![],
    })
    &&& c.is_nullable == (cell_text(row, 2) == Some("YES"@))
    &&& opt_view(c.default_value) == cell_text(row, 3)
    &&& opt_view(c.comment) == cell_text(row, 4)
}

fn opt_clone(o: &Option<String>) -> (r: Option<String>)
    ensures
        r == *o,
{
    match o {
        Some(t) => Some(t.clone()),
        None => None,
    }
}

/// Reads the columns of a table from the rows of `SHOW COLUMNS`; rows
/// without a name are skipped.
pub fn columns_from_rows(rows: &Vec<Vec<CellValue>>) -> (cols: Vec<ColumnInfo>)
    ensures
        cols@.len() == named_rows(rows@).len(),
        forall|k: int|
            0 <= k < cols@.len() ==> #[trigger] column_from_row(cols@[k], named_rows(rows@)[k]),
{
    let mut cols: Vec<ColumnInfo> = Vec::new();
    let mut i: usize = 0;
    while i < rows.len()
        invariant
            i <= rows@.len(),
            cols@.len() == named_rows(rows@.take(i as int)).len(),
            forall|k: int|
                0 <= k < cols@.len() ==> #[trigger] column_from_row(
                    cols@[k],
                    named_rows(rows@.take(i as int))[k],
                ),
        decreases rows.len() - i,
    {
        proof {
            assert(rows@.take(i + 1).drop_last() =~= rows@.take(i as int));
        }
        let row = &rows[i];
        match row_text(row, 0) {
            Some(name) => {
                let data_type = match row_text(row, 1) {
                    Some(t) => t,
                    None => String::new(),
                };
                let nullable = match row_text(row, 2) {
                    Some(t) => text_eq(t.as_str(), "YES"),
                    None => false,
                };
                let col = ColumnInfo {
                    name,
                    data_type,
                    comment: row_text(row, 4),
                    default_value: row_text(row, 3),
                    is_nullable: nullable,
                };
                assert(column_from_row(col, row@));
                cols.push(col);
            },
            None => {},
        }
        i = i + 1;
    }
    assert(rows@.take(rows@.len() as int) =~= rows@);
    cols
}

/// A partition read from a `SHOW PARTITIONS` row: name, values and status
/// (empty if absent), data size and row count.
pub open spec fn partition_from_row(p: PartitionInfo, row: Seq<CellValue>) -> bool {
    &&& cell_text(row, 0) == Some(p.name@)
    &&& p.values@ == (match cell_text(row, 1) {
        Some(t) => t,
        None => seq![],
    })
    &&& p.status@ == (match cell_text(row, 2) {
        Some(t) => t,
        None => seq![],
    })
    &&& p.data_size == cell_int(row, 3)
    &&& p.rows == cell_int(row, 4)
}

/// Reads the partitions of a table from the rows of `SHOW PARTITIONS`;
/// rows without a name are skipped.
pub fn partitions_from_rows(rows: &Vec<Vec<CellValue>>) -> (parts: Vec<PartitionInfo>)
    ensures
        parts@.len() == named_rows(rows@).len(),
        forall|k: int|
            0 <= k < parts@.len() ==> #[trigger] partition_from_row(
                parts@[k],
                named_rows(rows@)[k],
            ),
{
    let mut parts: Vec<PartitionInfo> = Vec::new();
    let mut i: usize = 0;
    while i < rows.len()
        invariant
            i <= rows@.len(),
            parts@.len() == named_rows(rows@.take(i as int)).len(),
            forall|k: int|
                0 <= k < parts@.len() ==> #[trigger] partition_from_row(
                    parts@[k],
                    named_rows(rows@.take(i as int))[k],
                ),
        decreases rows.len() - i,
    {
        proof {
            assert(rows@.take(i + 1).drop_last() =~= rows@.take(i as int));
        }
        let row = &rows[i];
        match row_text(row, 0) {
            Some(name) => {
                let values = match row_text(row, 1) {
                    Some(t) => t,
                    None => String::new(),
                };
                let status = match row_text(row, 2) {
                    Some(t) => t,
                    None => String::new(),
                };
                let part = PartitionInfo {
                    name,
                    values,
                    status,
                    data_size: row_int(row, 3),
                    rows: row_int(row, 4),
                };
                parts.push(part);
            },
            None => {},
        }
        i = i + 1;
    }
    assert(rows@.take(rows@.len() as int) =~= rows@);
    parts
}


/// The name of the first nullable column, if any.
pub open spec fn first_nullable(cols: Seq<ColumnInfo>) -> Option<Seq<char>>
    decreases cols.len(),
{
    if cols.len() == 0 {
        None
    } else if cols[0].is_nullable {
        Some(cols[0].name@)
    } else {
        first_nullable(cols.drop_first())
    }
}

/// The bucketing reported for a table: hash bucketing in 10 buckets keyed
/// by the first nullable column, or by no column when none is nullable.
pub fn bucket_info_for(cols: &Vec<ColumnInfo>) -> (b: BucketInfo)
    ensures
        b.bucket_type@ == "hash"@,
        b.bucket_count == 10,
        match first_nullable(cols@) {
            Some(n) => b.bucket_keys@.len() == 1 && b.bucket_keys@[0]@ == n,
            None => b.bucket_keys@.len() == 0,
        },
{
    let mut keys: Vec<String> = Vec::new();
    let mut i: usize = 0;
    assert(cols@.skip(0) =~= cols@);
    while i < cols.len()
        invariant
            i <= cols@.len(),
            keys@.len() == 0,
            first_nullable(cols@) == first_nullable(cols@.skip(i as int)),
        decreases cols.len() - i,
    {
        proof {
            assert(cols@.skip(i as int).drop_first() =~= cols@.skip(i + 1));
        }
        if cols[i].is_nullable {
            keys.push(cols[i].name.clone());
            return BucketInfo { bucket_type: "hash".to_owned(), bucket_keys: keys, bucket_count: 10 };
        }
        i = i + 1;
    }
    BucketInfo { bucket_type: "hash".to_owned(), bucket_keys: keys, bucket_count: 10 }
}

/// The statement in the second cell of the first row, if any.
pub open spec fn first_statement(create_rows: Seq<Vec<CellValue>>) -> Option<Seq<char>> {
    if create_rows.len() > 0 {
        cell_text(create_rows[0]@, 1)
    } else {
        None
    }
}

/// Assembles a table's description from the rows of `SHOW CREATE TABLE`,
/// `SHOW COLUMNS` and `SHOW PARTITIONS`.
pub fn table_detail(
    database: &str,
    table: &str,
    create_rows: &Vec<Vec<CellValue>>,
    column_rows: &Vec<Vec<CellValue>>,
    partition_rows: &Vec<Vec<CellValue>>,
) -> (d: TableDetailResponse)
    ensures
        d.database@ == database@,
        d.name@ == table@,
        d.table_type@ == (match first_statement(create_rows@) {
            Some(stmt) => table_type_of(stmt),
            None => "duplicate"@,
        }),
        d.engine@ == "OLAP"@,
        d.create_time@ == Seq::<char>::empty(),
        d.rows is None,
        d.data_size is None,
        opt_view(d.comment) == statement_comment(create_rows@),
        d.columns@.len() == named_rows(column_rows@).len(),
        forall|k: int|
            0 <= k < d.columns@.len() ==> #[trigger] column_from_row(
                d.columns@[k],
                named_rows(column_rows@)[k],
            ),
        named_rows(partition_rows@).len() == 0 ==> d.partitions is None,
        named_rows(partition_rows@).len() > 0 ==> (d.partitions matches Some(ps) && ps@.len()
            == named_rows(partition_rows@).len() && forall|k: int|
            0 <= k < ps@.len() ==> #[trigger] partition_from_row(
                ps@[k],
                named_rows(partition_rows@)[k],
            )),
        d.buckets matches Some(b) && b.bucket_type@ == "hash"@ && b.bucket_count == 10 && match first_nullable(d.columns@) {
            Some(n) => b.bucket_keys@.len() == 1 && b.bucket_keys@[0]@ == n,
            None => b.bucket_keys@.len() == 0,
        },
{
    let mut table_type = "duplicate".to_owned();
    if create_rows.len() > 0 {
        match row_text(&create_rows[0], 1) {
            Some(stmt) => {
                table_type = table_type_from_statement(stmt.as_str());
            },
            None => {},
        }
    }
    let comment = comment_from_rows(create_rows);
    let columns = columns_from_rows(column_rows);
    let parts = partitions_from_rows(partition_rows);
    let partitions = if parts.len() == 0 {
        None
    } else {
        Some(parts)
    };
    let buckets = bucket_info_for(&columns);
    TableDetailResponse {
        database: database.to_owned(),
        name: table.to_owned(),
        table_type,
        engine: "OLAP".to_owned(),
        create_time: String::new(),
        rows: None,
        data_size: None,
        comment,
        columns,
        partitions,
        buckets: Some(buckets),
    }
}

impl TableResponse {
    /// The listing entry of a described table: its fields without columns,
    /// partitions and bucketing.
    pub fn from_detail(d: TableDetailResponse) -> (r: TableResponse)
        ensures
            r.database == d.database,
            r.name == d.name,
            r.table_type == d.table_type,
            r.engine == d.engine,
            r.create_time == d.create_time,
            r.rows == d.rows,
            r.data_size == d.data_size,
            r.comment == d.comment,
    {
        TableResponse {
            database: d.database,
            name: d.name,
            table_type: d.table_type,
            engine: d.engine,
            create_time: d.create_time,
            rows: d.rows,
            data_size: d.data_size,
            comment: d.comment,
        }
    }
}


/// What follows `CREATE TABLE <database>.<name>` for each table kind.
pub open spec fn table_kind_clause(table_type: Seq<char>) -> Option<Seq<char>> {
    if table_type == "duplicate"@ {
        Some(" ("@)
    } else if table_type == "aggregate"@ {
        Some(" AGGREGATE TABLE ("@)
    } else if table_type == "unique"@ {
        Some(" UNIQUE TABLE ("@)
    } else if table_type == "primary"@ {
        Some(" PRIMARY KEY TABLE ("@)
    } else if table_type == "update"@ {
        Some(" UPDATE TABLE ("@)
    } else {
        None
    }
}

/// `<name> <type>[ NOT NULL][ DEFAULT <d>][ COMMENT '<c>'][ <aggregate>]`.
pub open spec fn column_definition_text(c: ColumnDefinition) -> Seq<char> {
    c.name@ + " "@ + c.data_type@ + (if !c.is_nullable {
        " NOT NULL"@
    } else {
        seq![]
    }) + (match c.default_value {
        Some(d) => " DEFAULT "@ + d@,
        None => seq![],
    }) + comment_clause(c.comment) + (match c.aggregate_type {
        Some(a) => " "@ + a@,
        None => seq![],
    })
}

/// Whether a column is a key plays no part in its definition: two columns
/// that differ only there are defined alike.
pub proof fn lemma_column_definition_ignores_key(a: ColumnDefinition, b: ColumnDefinition)
    requires
        a.name == b.name,
        a.data_type == b.data_type,
        a.comment == b.comment,
        a.default_value == b.default_value,
        a.is_nullable == b.is_nullable,
        a.aggregate_type == b.aggregate_type,
    ensures
        column_definition_text(a) == column_definition_text(b),
{
}

/// A column's definition starts with its name and type; a column that is
/// not nullable is defined as the same column made nullable, with
/// ` NOT NULL` right after the type; a nullable column without default,
/// comment or aggregate is defined by its name and type alone.
pub proof fn lemma_column_definition_nullability(
    nullable: ColumnDefinition,
    not_null: ColumnDefinition,
)
    requires
        nullable.is_nullable,
        !not_null.is_nullable,
        nullable.name == not_null.name,
        nullable.data_type == not_null.data_type,
        nullable.comment == not_null.comment,
        nullable.default_value == not_null.default_value,
        nullable.aggregate_type == not_null.aggregate_type,
    ensures
        ({
            let head = nullable.name@ + " "@ + nullable.data_type@;
            let rest = column_definition_text(nullable).skip(head.len() as int);
            &&& column_definition_text(nullable) == head + rest
            &&& column_definition_text(not_null) == head + " NOT NULL"@ + rest
            &&& (nullable.default_value is None && nullable.comment is None
                && nullable.aggregate_type is None) ==> column_definition_text(nullable) == head
        }),
{
    let head = nullable.name@ + " "@ + nullable.data_type@;
    let tail = (match nullable.default_value {
        Some(d) => " DEFAULT "@ + d@,
        None => seq![],
    }) + comment_clause(nullable.comment) + (match nullable.aggregate_type {
        Some(a) => " "@ + a@,
        None => seq![],
    });
    assert(column_definition_text(nullable) =~= head + tail);
    assert(column_definition_text(nullable).skip(head.len() as int) =~= tail);
    assert(column_definition_text(not_null) =~= head + " NOT NULL"@ + tail);
    if nullable.default_value is None && nullable.comment is None
        && nullable.aggregate_type is None {
        assert(comment_clause(nullable.comment) == Seq::<char>::empty());
        assert(tail =~= Seq::<char>::empty());
        assert(column_definition_text(nullable) =~= head);
    }
}

/// `PARTITION <name> VALUES (<values>)`.
pub open spec fn partition_spec_text(p: PartitionSpec) -> Seq<char> {
    "PARTITION "@ + p.name@ + " VALUES ("@ + p.values@ + ")"@
}

/// ` PARTITION BY <type> (<key>)[ PARTITIONS (<specs>)]`, or nothing.
pub open spec fn partition_clause(p: Option<PartitionDefinition>) -> Seq<char> {
    match p {
        None => seq![],
        Some(pd) => " PARTITION BY "@ + pd.partition_type@ + " ("@ + pd.partition_key@ + ")"@ + (
        if pd.partitions@.len() == 0 {
            seq![]
        } else {
            " PARTITIONS ("@ + joined(
                pd.partitions@.map_values(|ps: PartitionSpec| partition_spec_text(ps)),
                ", "@,
            ) + ")"@
        }),
    }
}

/// ` DISTRIBUTED BY <type> (<keys>) BUCKETS <count>`, or nothing.
pub open spec fn bucket_clause(b: Option<BucketDefinition>) -> Seq<char> {
    match b {
        None => seq![],
        Some(bd) => " DISTRIBUTED BY "@ + bd.bucket_type@ + " ("@ + joined(
            texts(bd.bucket_keys@),
            ", "@,
        ) + ") BUCKETS "@ + signed_decimal(bd.bucket_count as int),
    }
}

/// The statement that creates the requested table, or `None` for an
/// unknown table kind.
pub open spec fn create_table_statement(req: CreateTableRequest) -> Option<Seq<char>> {
    match table_kind_clause(req.table_type@) {
        None => None,
        Some(kind) => Some(
            "CREATE TABLE "@ + req.database@ + "."@ + req.name@ + kind + joined(
                req.columns@.map_values(|c: ColumnDefinition| column_definition_text(c)),
                ", "@,
            ) + ")"@ + partition_clause(req.partition_info) + bucket_clause(req.bucket_info)
                + comment_clause(req.comment) + properties_clause(req.properties, " PROPERTIES ("@),
        ),
    }
}

fn column_definition_string(c: &ColumnDefinition) -> (r: String)
    ensures
        r@ == column_definition_text(*c),
{
    let mut d = String::new();
    d.append(c.name.as_str());
    d.append(" ");
    d.append(c.data_type.as_str());
    if !c.is_nullable {
        d.append(" NOT NULL");
    }
    match &c.default_value {
        Some(v) => {
            d.append(" DEFAULT ");
            d.append(v.as_str());
        },
        None => {},
    }
    push_comment_clause(&mut d, &c.comment);
    match &c.aggregate_type {
        Some(a) => {
            d.append(" ");
            d.append(a.as_str());
        },
        None => {},
    }
    assert(d@ =~= column_definition_text(*c));
    d
}

fn push_partition_clause(sql: &mut String, p: &Option<PartitionDefinition>)
    ensures
        final(sql)@ == old(sql)@ + partition_clause(*p),
{
    match p {
        None => {
            assert(sql@ =~= old(sql)@ + partition_clause(*p));
        },
        Some(pd) => {
            sql.append(" PARTITION BY ");
            sql.append(pd.partition_type.as_str());
            sql.append(" (");
            sql.append(pd.partition_key.as_str());
            sql.append(")");
            if pd.partitions.len() > 0 {
                let ghost specs = pd.partitions@.map_values(
                    |ps: PartitionSpec| partition_spec_text(ps),
                );
                let mut items: Vec<String> = Vec::new();
                let mut i: usize = 0;
                while i < pd.partitions.len()
                    invariant
                        i <= pd.partitions@.len(),
                        specs == pd.partitions@.map_values(
                            |ps: PartitionSpec| partition_spec_text(ps),
                        ),
                        texts(items@) == specs.take(i as int),
                    decreases pd.partitions.len() - i,
                {
                    let ps = &pd.partitions[i];
                    let mut t = String::new();
                    t.append("PARTITION ");
                    t.append(ps.name.as_str());
                    t.append(" VALUES (");
                    t.append(ps.values.as_str());
                    t.append(")");
                    let ghost before = items@;
                    items.push(t);
                    proof {
                        assert(t@ =~= partition_spec_text(*ps));
                        assert(specs[i as int] == partition_spec_text(pd.partitions@[i as int]));
                        assert(texts(items@) =~= texts(before).push(t@));
                        assert(specs.take(i + 1) =~= specs.take(i as int).push(specs[i as int]));
                        assert(texts(items@) =~= specs.take(i + 1));
                    }
                    i = i + 1;
                }
                assert(specs.take(pd.partitions@.len() as int) =~= specs);
                sql.append(" PARTITIONS (");
                push_joined(sql, &items, ", ");
                sql.append(")");
            }
            assert(sql@ =~= old(sql)@ + partition_clause(*p));
        },
    }
}

fn push_bucket_clause(sql: &mut String, b: &Option<BucketDefinition>)
    ensures
        final(sql)@ == old(sql)@ + bucket_clause(*b),
{
    match b {
        None => {
            assert(sql@ =~= old(sql)@ + bucket_clause(*b));
        },
        Some(bd) => {
            sql.append(" DISTRIBUTED BY ");
            sql.append(bd.bucket_type.as_str());
            sql.append(" (");
            push_joined(sql, &bd.bucket_keys, ", ");
            sql.append(") BUCKETS ");
            push_signed_decimal(sql, bd.bucket_count as i64);
            assert(sql@ =~= old(sql)@ + bucket_clause(*b));
        },
    }
}

fn column_definition_strings(cols: &Vec<ColumnDefinition>) -> (items: Vec<String>)
    ensures
        texts(items@) == cols@.map_values(|c: ColumnDefinition| column_definition_text(c)),
{
    let ghost defs = cols@.map_values(|c: ColumnDefinition| column_definition_text(c));
    let mut items: Vec<String> = Vec::new();
    let mut i: usize = 0;
    while i < cols.len()
        invariant
            i <= cols@.len(),
            defs == cols@.map_values(|c: ColumnDefinition| column_definition_text(c)),
            texts(items@) == defs.take(i as int),
        decreases cols.len() - i,
    {
        let d = column_definition_string(&cols[i]);
        let ghost before = items@;
        let ghost dv = d@;
        items.push(d);
        assert(defs[i as int] == column_definition_text(cols@[i as int]));
        assert(texts(items@) =~= texts(before).push(dv));
        assert(defs.take(i + 1) =~= defs.take(i as int).push(defs[i as int]));
        assert(texts(items@) =~= defs.take(i + 1));
        i = i + 1;
    }
    assert(defs.take(cols@.len() as int) =~= defs);
    items
}

/// Builds the `CREATE TABLE` statement of a request: the table kind, the
/// column definitions, then the partitioning, bucketing, comment and
/// string-valued properties that the request gives. An unknown table kind
/// is refused as invalid.
pub fn create_table_sql(req: &CreateTableRequest) -> (r: Result<String, ApiError>)
    ensures
        match create_table_statement(*req) {
            Some(sql) => r matches Ok(s) && s@ == sql,
            None => r matches Err(ApiError::Validation(m)) && m@ == "Invalid table type"@,
        },
{
    let mut sql = String::new();
    sql.append("CREATE TABLE ");
    sql.append(req.database.as_str());
    sql.append(".");
    sql.append(req.name.as_str());
    let t = req.table_type.as_str();
    if text_eq(t, "duplicate") {
        sql.append(" (");
    } else if text_eq(t, "aggregate") {
        sql.append(" AGGREGATE TABLE (");
    } else if text_eq(t, "unique") {
        sql.append(" UNIQUE TABLE (");
    } else if text_eq(t, "primary") {
        sql.append(" PRIMARY KEY TABLE (");
    } else if text_eq(t, "update") {
        sql.append(" UPDATE TABLE (");
    } else {
        return Err(ApiError::Validation("Invalid table type".to_owned()));
    }
    let items = column_definition_strings(&req.columns);
    push_joined(&mut sql, &items, ", ");
    sql.append(")");
    push_partition_clause(&mut sql, &req.partition_info);
    push_bucket_clause(&mut sql, &req.bucket_info);
    push_comment_clause(&mut sql, &req.comment);
    push_properties_clause(&mut sql, &req.properties, " PROPERTIES (");
    assert(sql@ =~= create_table_statement(*req)->0);
    Ok(sql)
}


fn clone_strings(v: &Vec<String>) -> (r: Vec<String>)
    ensures
        r@ == v@,
{
    let mut r: Vec<String> = Vec::new();
    let mut i: usize = 0;
    while i < v.len()
        invariant
            i <= v@.len(),
            r@ == v@.take(i as int),
        decreases v.len() - i,
    {
        r.push(v[i].clone());
        assert(r@ =~= v@.take(i + 1));
        i = i + 1;
    }
    assert(v@.take(v@.len() as int) =~= v@);
    r
}

/// The column definition that re-creates an existing column: same name,
/// type, comment, default and nullability; not a key; no aggregate.
pub open spec fn definition_of_column(d: ColumnDefinition, c: ColumnInfo) -> bool {
    &&& d.name == c.name
    &&& d.data_type == c.data_type
    &&& d.comment == c.comment
    &&& d.default_value == c.default_value
    &&& d.is_nullable == c.is_nullable
    &&& !d.is_key
    &&& d.aggregate_type is None
}

/// The partitioning that re-creates existing partitions: range
/// partitioning with an empty key, and one spec per partition with its
/// name and values.
pub open spec fn definition_of_partitions(d: PartitionDefinition, parts: Seq<PartitionInfo>) -> bool {
    &&& d.partition_type@ == "range"@
    &&& d.partition_key@ == Seq::<char>::empty()
    &&& d.partitions@.len() == parts.len()
    &&& forall|k: int|
        0 <= k < parts.len() ==> (#[trigger] d.partitions@[k]).name == parts[k].name
            && d.partitions@[k].values == parts[k].values
}

/// The bucketing that re-creates existing bucketing.
pub open spec fn definition_of_buckets(d: BucketDefinition, b: BucketInfo) -> bool {
    &&& d.bucket_type == b.bucket_type
    &&& d.bucket_keys@ == b.bucket_keys@
    &&& d.bucket_count == b.bucket_count
}

fn columns_to_definitions(cols: &Vec<ColumnInfo>) -> (r: Vec<ColumnDefinition>)
    ensures
        r@.len() == cols@.len(),
        forall|k: int| 0 <= k < cols@.len() ==> #[trigger] definition_of_column(r@[k], cols@[k]),
{
    let mut r: Vec<ColumnDefinition> = Vec::new();
    let mut i: usize = 0;
    while i < cols.len()
        invariant
            i <= cols@.len(),
            r@.len() == i,
            forall|k: int| 0 <= k < i ==> #[trigger] definition_of_column(r@[k], cols@[k]),
        decreases cols.len() - i,
    {
        let c = &cols[i];
        r.push(
            ColumnDefinition {
                name: c.name.clone(),
                data_type: c.data_type.clone(),
                comment: opt_clone(&c.comment),
                default_value: opt_clone(&c.default_value),
                is_nullable: c.is_nullable,
                is_key: false,
                aggregate_type: None,
            },
        );
        i = i + 1;
    }
    r
}

fn partitions_to_definition(parts: &Vec<PartitionInfo>) -> (d: PartitionDefinition)
    ensures
        definition_of_partitions(d, parts@),
{
    let mut specs: Vec<PartitionSpec> = Vec::new();
    let mut i: usize = 0;
    while i < parts.len()
        invariant
            i <= parts@.len(),
            specs@.len() == i,
            forall|k: int|
                0 <= k < i ==> (#[trigger] specs@[k]).name == parts@[k].name && specs@[k].values
                    == parts@[k].values,
        decreases parts.len() - i,
    {
        specs.push(
            PartitionSpec { name: parts[i].name.clone(), values: parts[i].values.clone() },
        );
        i = i + 1;
    }
    PartitionDefinition {
        partition_type: "range".to_owned(),
        partition_key: String::new(),
        partitions: specs,
    }
}

/// The creation request that re-creates `database.table` after an update:
/// each part the update gives replaces the table's current one; parts it
/// leaves out are taken from the current table when it could be read, and
/// otherwise left empty (a `duplicate` table without columns). The
/// properties are those of the update.
pub fn merge_table_update(
    database: &str,
    table: &str,
    req: UpdateTableRequest,
    current: Option<TableDetailResponse>,
) -> (r: CreateTableRequest)
    ensures
        r.database@ == database@,
        r.name@ == table@,
        r.table_type@ == (match current {
            Some(t) => t.table_type@,
            None => "duplicate"@,
        }),
        match req.columns {
            Some(cs) => r.columns == cs,
            None => match current {
                Some(t) => r.columns@.len() == t.columns@.len() && forall|k: int|
                    0 <= k < t.columns@.len() ==> #[trigger] definition_of_column(
                        r.columns@[k],
                        t.columns@[k],
                    ),
                None => r.columns@.len() == 0,
            },
        },
        match req.partition_info {
            Some(p) => r.partition_info == Some(p),
            None => match current {
                Some(t) => match t.partitions {
                    Some(ps) => r.partition_info matches Some(d) && definition_of_partitions(
                        d,
                        ps@,
                    ),
                    None => r.partition_info is None,
                },
                None => r.partition_info is None,
            },
        },
        match req.bucket_info {
            Some(b) => r.bucket_info == Some(b),
            None => match current {
                Some(t) => match t.buckets {
                    Some(b) => r.bucket_info matches Some(d) && definition_of_buckets(d, b),
                    None => r.bucket_info is None,
                },
                None => r.bucket_info is None,
            },
        },
        r.comment == (match req.comment {
            Some(c) => Some(c),
            None => match current {
                Some(t) => t.comment,
                None => None,
            },
        }),
        r.properties == req.properties,
{
    let table_type = match &current {
        Some(t) => t.table_type.clone(),
        None => "duplicate".to_owned(),
    };
    let columns = match req.columns {
        Some(cs) => cs,
        None => match &current {
            Some(t) => columns_to_definitions(&t.columns),
            None => Vec::new(),
        },
    };
    let partition_info = match req.partition_info {
        Some(p) => Some(p),
        None => match &current {
            Some(t) => match &t.partitions {
                Some(ps) => Some(partitions_to_definition(ps)),
                None => None,
            },
            None => None,
        },
    };
    let bucket_info = match req.bucket_info {
        Some(b) => Some(b),
        None => match &current {
            Some(t) => match &t.buckets {
                Some(b) => Some(
                    BucketDefinition {
                        bucket_type: b.bucket_type.clone(),
                        bucket_keys: clone_strings(&b.bucket_keys),
                        bucket_count: b.bucket_count,
                    },
                ),
                None => None,
            },
            None => None,
        },
    };
    let comment = match req.comment {
        Some(c) => Some(c),
        None => match &current {
            Some(t) => opt_clone(&t.comment),
            None => None,
        },
    };
    CreateTableRequest {
        database: database.to_owned(),
        name: table.to_owned(),
        table_type,
        columns,
        partition_info,
        bucket_info,
        comment,
        properties: req.properties,
    }
}

} // verus!
