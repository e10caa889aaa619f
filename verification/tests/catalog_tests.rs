use backend::catalog::{
    check_database_exists, check_table_exists,
    alter_database_sql, bucket_info_for, columns_from_rows, create_database_sql, create_table_sql,
    database_response, delete_database_sql, delete_table_sql, drop_database_sql, is_listed, drop_table_sql, is_system_database, merge_table_update,
    partitions_from_rows, show_columns_sql, show_create_database_sql, show_create_table_sql,
    show_partitions_sql, show_tables_sql, table_action_sql, table_detail, table_names,
    table_type_from_statement, user_database_names, BucketDefinition, BucketInfo, CellValue,
    ColumnDefinition, ColumnInfo, CreateDatabaseRequest, CreateTableRequest, PartitionDefinition,
    PartitionInfo, PartitionSpec, Property, TableActionRequest, TableDetailResponse, TableResponse,
    UpdateDatabaseRequest, UpdateTableRequest,
};
use backend::error::ApiError;

fn text(s: &str) -> CellValue {
    CellValue::Text(s.to_string())
}

fn prop(k: &str, v: Option<&str>) -> Property {
    Property { key: k.to_string(), value: v.map(|s| s.to_string()) }
}

#[test]
fn create_database_statement() {
    let req = CreateDatabaseRequest { name: "sales".into(), comment: None, properties: None };
    assert_eq!(create_database_sql(&req), "CREATE DATABASE IF NOT EXISTS sales");
    let req = CreateDatabaseRequest {
        name: "sales".into(),
        comment: Some("daily".into()),
        properties: Some(vec![prop("a", Some("1")), prop("n", None), prop("b", Some("x"))]),
    };
    assert_eq!(
        create_database_sql(&req),
        "CREATE DATABASE IF NOT EXISTS sales COMMENT 'daily' PROPERTIES ('a' = '1', 'b' = 'x')"
    );
    let req = CreateDatabaseRequest { name: "d".into(), comment: None, properties: Some(vec![]) };
    assert_eq!(create_database_sql(&req), "CREATE DATABASE IF NOT EXISTS d");
    let req = CreateDatabaseRequest {
        name: "d".into(),
        comment: None,
        properties: Some(vec![prop("n", None)]),
    };
    assert_eq!(create_database_sql(&req), "CREATE DATABASE IF NOT EXISTS d PROPERTIES ()");
}

#[test]
fn alter_and_drop_database_statements() {
    let req = UpdateDatabaseRequest {
        comment: Some("c".into()),
        properties: Some(vec![prop("replication_num", Some("3"))]),
    };
    assert_eq!(
        alter_database_sql("db", &req),
        "ALTER DATABASE db COMMENT 'c' SET PROPERTIES ('replication_num' = '3')"
    );
    let req = UpdateDatabaseRequest { comment: None, properties: None };
    assert_eq!(alter_database_sql("db", &req), "ALTER DATABASE db");
    assert_eq!(drop_database_sql("db"), "DROP DATABASE IF EXISTS db");
    assert_eq!(show_create_database_sql("db"), "SHOW CREATE DATABASE db");
    assert_eq!(show_tables_sql("db"), "SHOW TABLES FROM db");
}

#[test]
fn table_statements() {
    assert_eq!(show_create_table_sql("d", "t"), "SHOW CREATE TABLE d.t");
    assert_eq!(show_columns_sql("d", "t"), "SHOW COLUMNS FROM d.t");
    assert_eq!(show_partitions_sql("d", "t"), "SHOW PARTITIONS FROM d.t");
    assert_eq!(drop_table_sql("d", "t"), "DROP TABLE IF EXISTS d.t");
}

#[test]
fn table_actions() {
    let action = |a: &str| TableActionRequest { action: a.to_string() };
    assert_eq!(table_action_sql("d", "t", &action("truncate")).unwrap(), "TRUNCATE TABLE d.t");
    assert_eq!(table_action_sql("d", "t", &action("optimize")).unwrap(), "OPTIMIZE TABLE d.t");
    assert_eq!(table_action_sql("d", "t", &action("repair")).unwrap(), "REPAIR TABLE d.t");
    match table_action_sql("d", "t", &action("vacuum")) {
        Err(ApiError::Validation(m)) => assert_eq!(m, "Invalid table action"),
        _ => panic!("expected a validation error"),
    }
}

#[test]
fn system_databases() {
    assert!(is_system_database("information_schema"));
    assert!(is_system_database("performance_schema"));
    assert!(is_system_database("mysql"));
    assert!(!is_system_database("mysql2"));
    let rows = vec![
        vec![text("information_schema")],
        vec![text("sales")],
        vec![CellValue::Integer(3)],
        vec![],
        vec![text("mysql")],
        vec![text("ops"), text("extra")],
    ];
    assert_eq!(user_database_names(&rows), vec!["sales", "ops"]);
    assert_eq!(table_names(&rows), vec!["information_schema", "sales", "mysql", "ops"]);
}

#[test]
fn database_description() {
    let create = vec![vec![text("db"), text("CREATE DATABASE `db` COMMENT 'main data'")]];
    let tables = vec![vec![text("a")], vec![text("b")]];
    let r = database_response("db", &create, &tables);
    assert_eq!(r.name, "db");
    assert_eq!(r.comment.as_deref(), Some("main data"));
    assert_eq!(r.create_time, "");
    assert_eq!(r.tables_count, 2);
    let r = database_response("db", &vec![], &vec![]);
    assert_eq!(r.comment, None);
    assert_eq!(r.tables_count, 0);
}

#[test]
fn table_kinds() {
    assert_eq!(table_type_from_statement("CREATE TABLE x AGGREGATE TABLE (a)"), "aggregate");
    assert_eq!(table_type_from_statement("... UNIQUE TABLE ..."), "unique");
    assert_eq!(table_type_from_statement("... PRIMARY KEY TABLE ..."), "primary");
    assert_eq!(table_type_from_statement("... UPDATE TABLE ..."), "update");
    assert_eq!(table_type_from_statement("CREATE TABLE t (a int) DUPLICATE KEY(a)"), "duplicate");
}

fn column_rows() -> Vec<Vec<CellValue>> {
    vec![
        vec![text("id"), text("bigint"), text("NO"), CellValue::Other, text("key")],
        vec![text("name"), text("varchar(10)"), text("YES"), text("x")],
        vec![CellValue::Other, text("skipped")],
        vec![text("bare")],
    ]
}

#[test]
fn columns_and_partitions_from_rows() {
    let cols = columns_from_rows(&column_rows());
    assert_eq!(cols.len(), 3);
    assert_eq!(cols[0].name, "id");
    assert_eq!(cols[0].data_type, "bigint");
    assert!(!cols[0].is_nullable);
    assert_eq!(cols[0].default_value, None);
    assert_eq!(cols[0].comment.as_deref(), Some("key"));
    assert!(cols[1].is_nullable);
    assert_eq!(cols[1].default_value.as_deref(), Some("x"));
    assert_eq!(cols[2].data_type, "");
    let parts = partitions_from_rows(&vec![
        vec![text("p1"), text("[1,2)"), text("NORMAL"), CellValue::Integer(100), CellValue::Integer(5)],
        vec![text("p2"), CellValue::Other, CellValue::Other, text("9")],
    ]);
    assert_eq!(parts.len(), 2);
    assert_eq!(parts[0].values, "[1,2)");
    assert_eq!(parts[0].data_size, Some(100));
    assert_eq!(parts[0].rows, Some(5));
    assert_eq!(parts[1].values, "");
    assert_eq!(parts[1].status, "");
    assert_eq!(parts[1].data_size, None);
    let b = bucket_info_for(&cols);
    assert_eq!(b.bucket_type, "hash");
    assert_eq!(b.bucket_keys, vec!["name"]);
    assert_eq!(b.bucket_count, 10);
}

#[test]
fn table_description() {
    let create = vec![vec![text("t"), text("CREATE TABLE t PRIMARY KEY TABLE COMMENT 'orders'")]];
    let d = table_detail("db", "t", &create, &column_rows(), &vec![]);
    assert_eq!(d.database, "db");
    assert_eq!(d.name, "t");
    assert_eq!(d.table_type, "primary");
    assert_eq!(d.engine, "OLAP");
    assert_eq!(d.comment.as_deref(), Some("orders"));
    assert_eq!(d.rows, None);
    assert_eq!(d.columns.len(), 3);
    assert!(d.partitions.is_none());
    assert_eq!(d.buckets.as_ref().unwrap().bucket_keys, vec!["name"]);
    let listed = TableResponse::from_detail(d);
    assert_eq!(listed.table_type, "primary");
    let d = table_detail("db", "t", &vec![], &vec![], &vec![vec![text("p")]]);
    assert_eq!(d.table_type, "duplicate");
    assert_eq!(d.partitions.unwrap().len(), 1);
    assert!(d.buckets.unwrap().bucket_keys.is_empty());
}

fn column(name: &str, ty: &str, nullable: bool) -> ColumnDefinition {
    ColumnDefinition {
        name: name.into(),
        data_type: ty.into(),
        comment: None,
        default_value: None,
        is_nullable: nullable,
        is_key: false,
        aggregate_type: None,
    }
}

#[test]
fn create_table_statement_full() {
    let mut c2 = column("v", "int", true);
    c2.default_value = Some("0".into());
    c2.comment = Some("value".into());
    c2.aggregate_type = Some("SUM".into());
    let req = CreateTableRequest {
        database: "db".into(),
        name: "t".into(),
        table_type: "aggregate".into(),
        columns: vec![column("k", "bigint", false), c2],
        partition_info: Some(PartitionDefinition {
            partition_type: "RANGE".into(),
            partition_key: "k".into(),
            partitions: vec![
                PartitionSpec { name: "p1".into(), values: "LESS THAN (10)".into() },
                PartitionSpec { name: "p2".into(), values: "LESS THAN (20)".into() },
            ],
        }),
        bucket_info: Some(BucketDefinition {
            bucket_type: "HASH".into(),
            bucket_keys: vec!["k".into(), "v".into()],
            bucket_count: -3,
        }),
        comment: Some("agg".into()),
        properties: Some(vec![prop("replication_num", Some("1"))]),
    };
    assert_eq!(
        create_table_sql(&req).unwrap(),
        "CREATE TABLE db.t AGGREGATE TABLE (k bigint NOT NULL, v int DEFAULT 0 COMMENT 'value' SUM) \
         PARTITION BY RANGE (k) PARTITIONS (PARTITION p1 VALUES (LESS THAN (10)), PARTITION p2 VALUES (LESS THAN (20))) \
         DISTRIBUTED BY HASH (k, v) BUCKETS -3 COMMENT 'agg' PROPERTIES ('replication_num' = '1')"
    );
}

#[test]
fn create_table_statement_minimal_and_invalid() {
    let mut req = CreateTableRequest {
        database: "db".into(),
        name: "t".into(),
        table_type: "duplicate".into(),
        columns: vec![],
        partition_info: Some(PartitionDefinition {
            partition_type: "LIST".into(),
            partition_key: "c".into(),
            partitions: vec![],
        }),
        bucket_info: None,
        comment: None,
        properties: None,
    };
    assert_eq!(create_table_sql(&req).unwrap(), "CREATE TABLE db.t () PARTITION BY LIST (c)");
    for (kind, clause) in [("unique", " UNIQUE TABLE ("), ("primary", " PRIMARY KEY TABLE ("), ("update", " UPDATE TABLE (")] {
        req.table_type = kind.into();
        assert!(create_table_sql(&req).unwrap().starts_with(&format!("CREATE TABLE db.t{}", clause)));
    }
    req.table_type = "DUPLICATE".into();
    match create_table_sql(&req) {
        Err(ApiError::Validation(m)) => assert_eq!(m, "Invalid table type"),
        _ => panic!("expected a validation error"),
    }
}

fn current_table() -> TableDetailResponse {
    TableDetailResponse {
        database: "db".into(),
        name: "t".into(),
        table_type: "unique".into(),
        engine: "OLAP".into(),
        create_time: String::new(),
        rows: None,
        data_size: None,
        comment: Some("old".into()),
        columns: vec![ColumnInfo {
            name: "a".into(),
            data_type: "int".into(),
            comment: Some("c".into()),
            default_value: None,
            is_nullable: true,
        }],
        partitions: Some(vec![PartitionInfo {
            name: "p".into(),
            values: "v".into(),
            status: "NORMAL".into(),
            data_size: None,
            rows: None,
        }]),
        buckets: Some(BucketInfo { bucket_type: "hash".into(), bucket_keys: vec!["a".into()], bucket_count: 10 }),
    }
}

#[test]
fn update_keeps_current_parts() {
    let req = UpdateTableRequest { columns: None, partition_info: None, bucket_info: None, comment: None, properties: None };
    let r = merge_table_update("db", "t", req, Some(current_table()));
    assert_eq!(r.table_type, "unique");
    assert_eq!(r.columns.len(), 1);
    assert_eq!(r.columns[0].name, "a");
    assert!(!r.columns[0].is_key);
    let p = r.partition_info.unwrap();
    assert_eq!(p.partition_type, "range");
    assert_eq!(p.partition_key, "");
    assert_eq!(p.partitions[0].name, "p");
    assert_eq!(r.bucket_info.unwrap().bucket_keys, vec!["a"]);
    assert_eq!(r.comment.as_deref(), Some("old"));
}

#[test]
fn update_parts_take_precedence() {
    let req = UpdateTableRequest {
        columns: Some(vec![column("b", "bigint", false)]),
        partition_info: None,
        bucket_info: Some(BucketDefinition { bucket_type: "random".into(), bucket_keys: vec![], bucket_count: 1 }),
        comment: Some("new".into()),
        properties: Some(vec![prop("k", Some("v"))]),
    };
    let r = merge_table_update("db", "t", req, None);
    assert_eq!(r.table_type, "duplicate");
    assert_eq!(r.columns[0].name, "b");
    assert!(r.partition_info.is_none());
    assert_eq!(r.bucket_info.unwrap().bucket_type, "random");
    assert_eq!(r.comment.as_deref(), Some("new"));
    assert_eq!(r.properties.unwrap().len(), 1);
}

#[test]
fn deleting_missing_database_or_table_is_not_found() {
    let dbs = vec![vec![text("sales")], vec![CellValue::Other], vec![text("ops")]];
    assert!(is_listed(&dbs, "ops"));
    assert!(!is_listed(&dbs, "op"));
    assert_eq!(delete_database_sql("sales", &dbs).unwrap(), "DROP DATABASE IF EXISTS sales");
    match delete_database_sql("missing", &dbs) {
        Err(ApiError::NotFound(m)) => assert_eq!(m, "Database not found"),
        _ => panic!("expected not found"),
    }
    let tables = vec![vec![text("orders")]];
    assert_eq!(delete_table_sql("sales", "orders", &tables).unwrap(), "DROP TABLE IF EXISTS sales.orders");
    match delete_table_sql("sales", "gone", &tables) {
        Err(ApiError::NotFound(m)) => assert_eq!(m, "Table not found"),
        _ => panic!("expected not found"),
    }
}

#[test]
fn reading_missing_database_or_table_is_not_found() {
    let dbs = vec![vec![text("sales")], vec![CellValue::Integer(3)], vec![text("ops")]];
    assert!(check_database_exists("sales", &dbs).is_ok());
    assert!(check_database_exists("ops", &dbs).is_ok());
    match check_database_exists("sale", &dbs) {
        Err(ApiError::NotFound(m)) => assert_eq!(m, "Database not found"),
        _ => panic!("expected not found"),
    }
    let tables = vec![vec![text("orders"), text("BASE TABLE")]];
    assert!(check_table_exists("orders", &tables).is_ok());
    match check_table_exists("gone", &tables) {
        Err(ApiError::NotFound(m)) => assert_eq!(m, "Table not found"),
        _ => panic!("expected not found"),
    }
    match check_table_exists("orders", &Vec::new()) {
        Err(ApiError::NotFound(m)) => assert_eq!(m, "Table not found"),
        _ => panic!("expected not found"),
    }
}
