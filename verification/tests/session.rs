use rusqlite::types::Value;
use rusqlite::Connection;
use wb_switch::edition::Edition;
use wb_switch::json::{parse, to_text, Json};
use wb_switch::path::LocalPath;
use wb_switch::session::copy::{
    can_search, copied_body, copies_report, copy_report, copy_session_to_user,
    copy_session_to_user_for,
    copy_sessions_for_switch, copy_sessions_for_switch_for, insert_edge_sync_mapping,
    insert_session_copy, insert_statement, plan_copy, register_edge_sync_mapping_for, Copied,
};
use wb_switch::session::list::{
    list_sessions_for_user, list_sessions_for_user_for, list_sessions_in,
};
use wb_switch::session::share::{
    can_share, share_sessions_for_switch, share_sessions_for_switch_for, share_sessions_in, Store,
};
use wb_switch::session::store::{
    backup_workbuddy_db_for, current_user_uid, current_user_uid_for, data_dir_of, edge_sync_db_path,
    edge_sync_db_path_for, find_project_jsonl_for, find_project_jsonl_in, has_edge_sync_table,
    is_claw_workspace, may_be_mapping, nonempty_text, session_display_title,
    supports_session_sharing_for, workbuddy_db_path, workbuddy_db_path_for, Bodies, Candidate,
    Space,
};
use wb_switch::session::table::{
    column_exists, find_column, find_exact, is_alike, is_equal, is_visible, Answer, Row, SqlValue,
    Table,
};

fn shown(p: &LocalPath) -> String {
    let mut s = p.base.clone();
    for part in &p.parts {
        s.push('|');
        s.push_str(part);
    }
    s
}

fn from_db(v: Value) -> SqlValue {
    match v {
        Value::Null => SqlValue::Null,
        Value::Integer(i) => SqlValue::Integer(i),
        Value::Real(f) => SqlValue::Real(f.to_bits()),
        Value::Text(s) => SqlValue::Text(s),
        Value::Blob(b) => SqlValue::Blob(b),
    }
}

fn to_db(v: &SqlValue) -> Value {
    match v {
        SqlValue::Null => Value::Null,
        SqlValue::Integer(i) => Value::Integer(*i),
        SqlValue::Real(b) => Value::Real(f64::from_bits(*b)),
        SqlValue::Text(s) => Value::Text(s.clone()),
        SqlValue::Blob(b) => Value::Blob(b.clone()),
    }
}

fn row(values: Vec<SqlValue>) -> Row {
    Row { values, told: vec![] }
}

fn read_asking(conn: &Connection, asks: &[(&str, &str)]) -> Table {
    let mut sql = "SELECT *".to_string();
    for (k, (name, _)) in asks.iter().enumerate() {
        sql.push_str(&format!(", {name} = ?{}", k + 1));
    }
    let mut stmt = conn.prepare(&format!("{sql} FROM sessions")).unwrap();
    let mut columns: Vec<String> = stmt.column_names().map(|s| s.to_string()).collect();
    columns.truncate(columns.len() - asks.len());
    let n = columns.len();
    let mut rows: Vec<Row> = Vec::new();
    let mut found = stmt.query(rusqlite::params_from_iter(asks.iter().map(|a| a.1))).unwrap();
    while let Some(line) = found.next().unwrap() {
        let values = (0..n).map(|i| from_db(line.get::<_, Value>(i).unwrap())).collect();
        let mut told = Vec::new();
        for (k, (name, text)) in asks.iter().enumerate() {
            told.push(Answer {
                column: find_column(&columns, name).unwrap(),
                text: text.to_string(),
                equal: line.get::<_, Option<bool>>(n + k).unwrap().unwrap_or(false),
            });
        }
        rows.push(Row { values, told });
    }
    Table { columns, rows }
}

fn read_table(conn: &Connection) -> Table {
    read_asking(conn, &[])
}

fn text(s: &str) -> SqlValue {
    SqlValue::Text(s.to_string())
}

fn titles(listed: &Json) -> Vec<String> {
    listed.as_list().unwrap().iter().map(|s| s.str_or_empty("title")).collect()
}

#[test]
fn db_paths_are_resolved_per_edition() {
    let cn = workbuddy_db_path_for(Edition::Domestic, "/home/u");
    let data = Edition::Domestic.data_dir("/home/u");
    assert!(cn.base == data.base && cn.parts.starts_with(&data.parts));
    assert_eq!(cn.parts.last().map(|s| s.as_str()), Some("workbuddy.db"));

    let ai = workbuddy_db_path_for(Edition::International, "/home/u");
    let data = Edition::International.data_dir("/home/u");
    assert!(ai.base == data.base && ai.parts.starts_with(&data.parts));
    assert_ne!(shown(&cn), shown(&ai), "两个档位的会话库不能是同一个文件");
    assert_eq!(shown(&workbuddy_db_path("/home/u")), shown(&cn));
}

fn candidate(name: &str, table: &str, mtime: u128) -> Candidate {
    Candidate {
        name: name.to_string(),
        is_file: true,
        tables: Some(vec![table.to_string()]),
        mtime,
    }
}

#[test]
fn edge_sync_db_is_discovered_from_data_dir() {
    let none: Vec<Candidate> = Vec::new();
    let some = vec![
        candidate("edge-sync-mapping-v2.db", "edge_sync_mapping", 5),
        candidate("edge-sync-mapping-v4.db", "edge_sync_mapping", 9),
        candidate("edge-sync-mapping-v4.db-wal", "edge_sync_mapping", 99),
    ];
    for entries in [&none, &some] {
        for e in Edition::ALL {
            let p = edge_sync_db_path_for(e, "/home/u", entries);
            let data = e.data_dir("/home/u");
            assert!(
                p.base == data.base && p.parts.starts_with(&data.parts),
                "{} 的映射库跑到了别的目录: {}",
                e.label(),
                shown(&p)
            );
            let name = p.parts.last().map(|s| s.as_str()).unwrap_or("");
            assert!(name.starts_with("edge-sync-mapping"), "遇到非预期文件名 {name}");
            assert!(name.ends_with(".db") && !name.ends_with("-wal") && !name.ends_with("-shm"));
        }
    }
}

#[test]
fn newest_mapping_file_counts() {
    let mut entries = vec![
        candidate("edge-sync-mapping.db", "edge_sync_mapping", 5),
        candidate("edge-sync-mapping-v3.db", "edge_sync_mapping", 7),
        candidate("edge-sync-mapping-v4.db", "edge_sync_mapping", 7),
        candidate("edge-sync-mapping-v9.db", "other", 50),
        candidate("workbuddy.db", "edge_sync_mapping", 60),
    ];
    entries.push(Candidate {
        name: "edge-sync-mapping-dir.db".to_string(),
        is_file: false,
        tables: Some(vec!["edge_sync_mapping".to_string()]),
        mtime: 70,
    });
    entries.push(Candidate {
        name: "edge-sync-mapping-bad.db".to_string(),
        is_file: true,
        tables: None,
        mtime: 80,
    });
    assert_eq!(shown(&edge_sync_db_path("/h", &entries)), "/h|.workbuddy|edge-sync-mapping-v3.db");
    assert_eq!(shown(&edge_sync_db_path("/h", &vec![])), "/h|.workbuddy|edge-sync-mapping.db");
    assert_eq!(
        shown(&edge_sync_db_path_for(Edition::International, "/h", &vec![])),
        "/h|.workbuddy-ai|edge-sync-mapping-v3.db"
    );
    assert!(may_be_mapping("edge-sync-mapping-v2.db") && !may_be_mapping("edge-sync-mapping.db-wal"));
    assert!(!has_edge_sync_table(None));
    assert!(has_edge_sync_table(Some(&vec!["x".to_string(), "edge_sync_mapping".to_string()])));
}

#[test]
fn shared_sessions_are_listed_for_every_account() {
    let conn = Connection::open_in_memory().unwrap();
    conn.execute_batch(
        "CREATE TABLE sessions (
            id TEXT PRIMARY KEY, user_id TEXT, cwd TEXT, title TEXT,
            created_at INTEGER, updated_at INTEGER, deleted_at INTEGER);
         INSERT INTO sessions VALUES
            ('s-shared', '',    'C:/proj/a', '共享会话',   1, 10, NULL),
            ('s-mine',   'u-1', 'C:/proj/a', '我的会话',   1, 20, NULL),
            ('s-other',  'u-2', 'C:/proj/b', '别人的会话', 1, 30, NULL),
            ('s-null',   NULL,  'C:/proj/c', '空归属会话', 1, 35, NULL),
            ('s-gone',   '',    'C:/proj/a', '已删会话',   1, 40, 99);",
    )
    .unwrap();
    let table = read_table(&conn);
    let listed =
        list_sessions_for_user_for(Edition::Domestic, "/home/u", Some(&table), None, "u-1");
    let titles = titles(&listed);
    for expect in ["共享会话", "我的会话", "空归属会话"] {
        assert!(titles.contains(&expect.to_string()), "{expect} 没被列出: {titles:?}");
    }
    assert!(!titles.contains(&"别人的会话".to_string()), "串了别人的会话: {titles:?}");
    assert!(!titles.contains(&"已删会话".to_string()), "已删会话不该列出: {titles:?}");
    assert_eq!(titles, vec!["空归属会话", "我的会话", "共享会话"]);
}

#[test]
fn listed_session_as_a_document() {
    let conn = Connection::open_in_memory().unwrap();
    conn.execute_batch(
        "CREATE TABLE sessions (id TEXT, user_id TEXT, cwd TEXT, title TEXT, custom_title TEXT,
            is_playground INTEGER, updated_at INTEGER, deleted_at INTEGER);
         INSERT INTO sessions VALUES
            ('a', 'u', '/x/one', 't', ' mine ', 1, 3, NULL),
            ('b', 'u', '/x/two', 't', NULL, 0, 3, NULL),
            ('c', 'u', NULL, ' ', '', NULL, NULL, NULL),
            ('d', 'u', '/x/Claw/', 't', NULL, 0, 9, NULL),
            (x'01', 'u', '/x', 't', NULL, 0, 9, NULL),
            ('e', 'u', '/x', 't', NULL, 0, -5, NULL);",
    )
    .unwrap();
    let table = read_table(&conn);
    let bodies = Bodies {
        files: vec!["a.jsonl".to_string()],
        spaces: vec![Space { name: "ws".to_string(), files: vec!["c.jsonl".to_string()] }],
    };
    let listed = list_sessions_for_user("/h", Some(&table), Some(&bodies), "u");
    assert_eq!(
        to_text(&listed).unwrap(),
        "[{\"cwd\":\"/x/one\",\"hasHistory\":true,\"id\":\"a\",\"isPlayground\":true,\
          \"title\":\"mine\",\"updatedAt\":3},\
         {\"cwd\":\"/x/two\",\"hasHistory\":false,\"id\":\"b\",\"isPlayground\":false,\
          \"title\":\"t\",\"updatedAt\":3},\
         {\"cwd\":\"/x\",\"hasHistory\":false,\"id\":\"e\",\"isPlayground\":false,\
          \"title\":\"t\",\"updatedAt\":-5},\
         {\"cwd\":\"\",\"hasHistory\":true,\"id\":\"c\",\"isPlayground\":false,\
          \"title\":\"(无标题)\",\"updatedAt\":0}]"
    );
    let none = list_sessions_for_user_for(Edition::International, "/h", None, None, "u");
    assert_eq!(to_text(&none).unwrap(), "[]");
    let bare = Table { columns: vec!["id".to_string()], rows: vec![row(vec![text("a")])] };
    assert!(list_sessions_in(Some(&bare), "u").is_empty());
}

fn share_db() -> Connection {
    let conn = Connection::open_in_memory().unwrap();
    conn.execute_batch(
        "CREATE TABLE sessions (
            id TEXT PRIMARY KEY, user_id TEXT, cwd TEXT, title TEXT,
            created_at INTEGER, updated_at INTEGER, deleted_at INTEGER);",
    )
    .unwrap();
    conn.execute("INSERT INTO sessions VALUES ('s1','uid-a','F:\\Code\\api','t',1,1,NULL)", [])
        .unwrap();
    conn.execute(
        "INSERT INTO sessions VALUES ('s2','uid-b','C:\\Users\\x\\WorkBuddy\\Claw','c',1,1,NULL)",
        [],
    )
    .unwrap();
    conn.execute("INSERT INTO sessions VALUES ('s3','uid-a','F:\\Code\\api','deleted',1,1,999)", [])
        .unwrap();
    conn
}

fn owner(store: &Store, id: &str) -> String {
    match store {
        Store::Open(t) => {
            let at = find_column(&t.columns, "id").unwrap();
            let owner = find_column(&t.columns, "user_id").unwrap();
            for row in &t.rows {
                if row.values[at].is_text(id) {
                    if let SqlValue::Text(s) = &row.values[owner] {
                        return s.clone();
                    }
                }
            }
            panic!("no session {id}")
        }
        _ => panic!("no table"),
    }
}

#[test]
fn share_sessions_clears_user_id_and_skips_claw() {
    let conn = share_db();
    let mut store = Store::Open(read_table(&conn));
    let sharing = share_sessions_in(&mut store).ok().unwrap();
    let report = &sharing.report;
    assert_eq!(report.int_of("shared"), Some(1), "只应共享未删除的非 Claw 会话");
    assert_eq!(report.int_of("skippedClaw"), Some(1), "Claw 应被跳过");
    assert_eq!(report.int_of("total"), Some(2));
    assert_eq!(sharing.rows, vec![0]);

    let (s1, s2, s3) = (owner(&store, "s1"), owner(&store, "s2"), owner(&store, "s3"));
    assert_eq!(s1, "", "普通会话应被置空");
    assert_eq!(s2, "uid-b", "Claw 会话归属应保持不动");
    assert_eq!(s3, "uid-a", "已删除的会话不该被动");
}

#[test]
fn sharing_takes_the_owner_of_unbound_sessions() {
    let conn = share_db();
    conn.execute_batch(
        "INSERT INTO sessions VALUES
            ('n1', NULL,  '/p',       't', 1, 1, NULL),
            ('n2', '',    '/p',       't', 1, 1, NULL),
            ('n3', 'u',   NULL,       't', 1, 1, NULL),
            ('n4', 'u',   'CLAW',     't', 1, 1, NULL),
            ('n5', 'u',   '/a/claw',  't', 1, 1, NULL),
            ('n7', 'u',   x'2F434C4157', 't', 1, 1, NULL),
            ('n8', x'00', '/b',       't', 1, 1, NULL),
            ('n9', 'u',   'xclaw',    't', 1, 1, NULL);",
    )
    .unwrap();
    let mut store = Store::Open(read_table(&conn));
    let sharing = share_sessions_for_switch(&mut store).ok().unwrap();
    let not_claw = "(LOWER(cwd) NOT LIKE '%\\claw' AND LOWER(cwd) NOT LIKE '%/claw' \
                    AND LOWER(cwd) <> 'claw')";
    let changed = conn
        .execute(
            &format!(
                "UPDATE sessions SET user_id = '' \
                 WHERE deleted_at IS NULL AND user_id <> '' AND {not_claw}"
            ),
            [],
        )
        .unwrap();
    assert_eq!(changed, sharing.rows.len());
    let after = read_table(&conn);
    match &store {
        Store::Open(t) => {
            for (mine, theirs) in t.rows.iter().zip(after.rows.iter()) {
                for (a, b) in mine.values.iter().zip(theirs.values.iter()) {
                    assert_eq!(to_db(a), to_db(b));
                }
            }
        }
        _ => panic!("no table"),
    }
    assert_eq!(sharing.report.int_of("total"), Some(10));
    assert_eq!(sharing.report.int_of("skippedClaw"), Some(4));
    let again = share_sessions_for_switch_for(&mut store).ok().unwrap();
    assert!(again.rows.is_empty());
    assert_eq!(again.report.int_of("shared"), Some(0));
}

#[test]
fn bound_workspaces_are_told_however_they_are_written() {
    for cwd in ["/Users/apple/WorkBuddy/claw/", "C:\\WorkBuddy\\Claw\\", " claw ", "/x/CLAW//"] {
        assert!(is_claw_workspace(cwd));
        let conn = Connection::open_in_memory().unwrap();
        conn.execute_batch(
            "CREATE TABLE sessions (id TEXT, user_id TEXT, cwd TEXT, deleted_at INTEGER);",
        )
        .unwrap();
        conn.execute("INSERT INTO sessions VALUES ('s', 'uid-b', ?1, NULL)", [cwd]).unwrap();
        conn.execute(
            "INSERT INTO sessions VALUES ('b', 'uid-b', ?1, NULL)",
            [Value::Blob(cwd.as_bytes().to_vec())],
        )
        .unwrap();
        let mut store = Store::Open(read_table(&conn));
        let sharing = share_sessions_in(&mut store).ok().unwrap();
        assert_eq!(
            to_text(&sharing.report).unwrap(),
            "{\"shared\":0,\"skippedClaw\":2,\"total\":2}"
        );
        assert!(sharing.rows.is_empty());
        assert_eq!((owner(&store, "s").as_str(), owner(&store, "b").as_str()), ("uid-b", "uid-b"));
    }
}

#[test]
fn columns_are_named_in_any_case() {
    let conn = Connection::open_in_memory().unwrap();
    conn.execute_batch(
        "CREATE TABLE sessions (ID TEXT, User_Id TEXT, CWD TEXT, Title TEXT, CUSTOM_TITLE TEXT,
            Updated_At INTEGER, DELETED_AT INTEGER);
         INSERT INTO sessions VALUES ('s', 'u', '/p', 't', 'mine', 3, NULL),
                                     ('c', 'u', '/p/claw', 't', NULL, 4, NULL),
                                     ('d', 'u', '/p', 't', NULL, 5, 9);",
    )
    .unwrap();
    let table = read_table(&conn);
    let listed = list_sessions_in(Some(&table), "u");
    assert_eq!(listed.len(), 1);
    assert_eq!((listed[0].id.as_str(), listed[0].title.as_str()), ("s", "t"));
    assert!(can_share(&table) && can_search(&table));
    let mut store = Store::Open(table);
    let row = insert_session_copy(&store, "n", "s", "u", "v", 7).unwrap().unwrap();
    assert!(row[0].is_text("n") && row[1].is_text("v") && row[4].is_text("mine"));
    assert!(matches!(row[5], SqlValue::Integer(7)) && matches!(row[6], SqlValue::Null));
    let e = insert_session_copy(&store, "n", "c", "u", "v", 7).err().unwrap();
    assert_eq!(e, "Claw 工作区绑定当前账号渠道，不支持复制");
    let sharing = share_sessions_in(&mut store).ok().unwrap();
    assert_eq!(
        to_text(&sharing.report).unwrap(),
        "{\"shared\":1,\"skippedClaw\":1,\"total\":2}"
    );
    assert_eq!(sharing.rows, vec![0]);
    assert_eq!((owner(&store, "s").as_str(), owner(&store, "c").as_str()), ("", "u"));
}

#[test]
fn shared_session_is_seen_by_other_accounts() {
    let conn = share_db();
    let table = read_table(&conn);
    assert!(list_sessions_in(Some(&table), "someone").is_empty());
    let before = list_sessions_in(Some(&table), "uid-a");
    assert_eq!(before.len(), 1);
    let mut store = Store::Open(table);
    let _ = share_sessions_in(&mut store);
    if let Store::Open(t) = &store {
        let after = list_sessions_in(Some(t), "someone");
        assert_eq!(after.len(), 1);
        assert_eq!((after[0].id.as_str(), after[0].cwd.as_str()), ("s1", "F:\\Code\\api"));
    }
}

#[test]
fn share_sessions_missing_db_is_err_not_panic() {
    let mut store = Store::Missing("\"/x/share-missing.db\"".to_string());
    assert!(share_sessions_in(&mut store).is_err());
}

#[test]
fn sharing_reports_what_is_wrong() {
    let mut store = Store::Missing("\"a.db\"".to_string());
    assert_eq!(share_sessions_in(&mut store).err().unwrap(), "找不到 \"a.db\"");
    assert_eq!(share_sessions_in(&mut Store::Closed).err().unwrap(), "无法打开 workbuddy.db");
    assert_eq!(share_sessions_in(&mut Store::NoTable).err().unwrap(), "sessions 表不存在");
    let mut refused = Store::Refused("database is locked".to_string());
    assert_eq!(share_sessions_in(&mut refused).err().unwrap(), "database is locked");
}

#[test]
fn database_refuses_where_a_column_is_lacking() {
    for have in ["user_id, cwd", "deleted_at, cwd", "deleted_at, user_id", "id"] {
        let conn = Connection::open_in_memory().unwrap();
        conn.execute_batch(&format!("CREATE TABLE sessions ({have});")).unwrap();
        assert!(!can_share(&read_table(&conn)));
        let said = conn
            .prepare(
                "UPDATE sessions SET user_id = '' \
                 WHERE deleted_at IS NULL AND user_id IS ?1 AND cwd IS ?2",
            )
            .err()
            .unwrap()
            .to_string();
        let mut store = Store::Refused(said.clone());
        assert_eq!(share_sessions_in(&mut store).err().unwrap(), said);
    }
    for have in ["user_id", "id", "x"] {
        let conn = Connection::open_in_memory().unwrap();
        conn.execute_batch(&format!("CREATE TABLE sessions ({have});")).unwrap();
        assert!(!can_search(&read_table(&conn)));
        let said = conn
            .prepare(
                "SELECT * FROM sessions \
                 WHERE id = ?1 AND (user_id = ?2 OR user_id = '' OR user_id IS NULL)",
            )
            .err()
            .unwrap()
            .to_string();
        let e = insert_session_copy(&Store::Refused(said.clone()), "n", "s", "a", "b", 9);
        assert_eq!(e.err().unwrap(), said);
    }
}

const VISIBLE: &str = "(user_id = ?1 OR user_id = '' OR user_id IS NULL)";

#[test]
fn values_compare_as_the_database_compares_them() {
    for owner in [
        "user_id TEXT",
        "user_id",
        "user_id INTEGER",
        "user_id REAL",
        "user_id TEXT COLLATE NOCASE",
        "user_id TEXT COLLATE RTRIM",
    ] {
        let conn = Connection::open_in_memory().unwrap();
        conn.execute_batch(&format!(
            "CREATE TABLE sessions (id TEXT COLLATE NOCASE, {owner}, cwd TEXT, title TEXT,
                updated_at INTEGER, deleted_at INTEGER);
             INSERT INTO sessions VALUES
                ('A', '7', '/p', 't', 1, NULL), ('B', 7, '/p', 't', 2, NULL),
                ('C', '7.0', '/p', 't', 3, NULL), ('D', 'Ann', '/p', 't', 4, NULL),
                ('E', 'ann', '/p', 't', 5, NULL), ('F', ' ', '/p', 't', 6, NULL),
                ('G', '', '/p', 't', 7, NULL), ('H', NULL, '/p', 't', 8, NULL),
                ('I', 'ann  ', '/p', 't', 9, NULL), ('J', x'37', '/p', 't', 10, NULL);"
        ))
        .unwrap();
        for uid in ["7", "ann", "Ann", "7.0", "07", " ", ""] {
            let table = read_asking(&conn, &[("user_id", uid), ("user_id", "")]);
            let mine: Vec<String> =
                list_sessions_in(Some(&table), uid).into_iter().map(|e| e.id).collect();
            let theirs: Vec<String> = conn
                .prepare(&format!(
                    "SELECT id FROM sessions WHERE deleted_at IS NULL AND {VISIBLE} \
                     ORDER BY updated_at DESC"
                ))
                .unwrap()
                .query_map([uid], |r| r.get(0))
                .unwrap()
                .map(|r| r.unwrap())
                .collect();
            assert_eq!(mine, theirs, "{owner} {uid}");
            for cid in ["a", "D", "i", "x"] {
                let asks = [("id", cid), ("user_id", uid), ("user_id", "")];
                let store = Store::Open(read_asking(&conn, &asks));
                let found = insert_session_copy(&store, "n", cid, uid, "t", 1).unwrap().is_some();
                let count: i64 = conn
                    .query_row(
                        "SELECT COUNT(*) FROM sessions WHERE id = ?1 \
                         AND (user_id = ?2 OR user_id = '' OR user_id IS NULL)",
                        [cid, uid],
                        |r| r.get(0),
                    )
                    .unwrap();
                assert_eq!(found, count > 0, "{owner} {uid} {cid}");
            }
        }
        let mut store = Store::Open(read_asking(&conn, &[("user_id", "")]));
        let sharing = share_sessions_in(&mut store).ok().unwrap();
        let changed = conn
            .execute("UPDATE sessions SET user_id = '' WHERE user_id <> '' AND cwd = '/p'", [])
            .unwrap();
        assert_eq!(changed, sharing.rows.len(), "{owner}");
        assert!(share_sessions_in(&mut store).ok().unwrap().rows.is_empty());
    }
}

#[test]
fn answers_of_the_database_come_before_stored_values() {
    let mut r = row(vec![text("Ann"), SqlValue::Integer(7)]);
    assert!(is_equal(&r, Some(0), "Ann") && !is_equal(&r, Some(0), "ann"));
    assert!(!is_equal(&r, Some(1), "7") && !is_equal(&r, None, "7") && !is_equal(&r, Some(9), "7"));
    r.told.push(Answer { column: 0, text: "ann".to_string(), equal: true });
    r.told.push(Answer { column: 1, text: "7".to_string(), equal: false });
    r.told.push(Answer { column: 1, text: "7".to_string(), equal: true });
    assert!(is_equal(&r, Some(0), "ann") && is_equal(&r, Some(0), "Ann"));
    assert!(is_equal(&r, Some(1), "7"));
    assert!(is_visible(&r, Some(1), "7") && !is_visible(&r, Some(1), "8"));
}

#[test]
fn shared_sessions_make_one_list_for_all() {
    let conn = share_db();
    conn.execute_batch(
        "INSERT INTO sessions VALUES ('s4','uid-b','/p','t',1,7,NULL), ('s5',NULL,'/p','t',1,9,NULL);",
    )
    .unwrap();
    let mut store = Store::Open(read_table(&conn));
    let _ = share_sessions_in(&mut store);
    let Store::Open(t) = &store else { panic!("no table") };
    let ids = |uid: &str| -> Vec<String> {
        list_sessions_in(Some(t), uid).into_iter().map(|e| e.id).collect()
    };
    assert_eq!(ids("uid-a"), vec!["s5", "s4", "s1"]);
    assert_eq!(ids("uid-b"), ids("uid-a"));
    assert_eq!(ids("someone"), ids("uid-a"));
}

#[test]
fn insert_session_copy_duplicates_row_with_target_uid() {
    let conn = Connection::open_in_memory().unwrap();
    conn.execute_batch(
        "CREATE TABLE sessions (
            id TEXT PRIMARY KEY,
            user_id TEXT NOT NULL,
            title TEXT,
            cwd TEXT,
            created_at INTEGER,
            updated_at INTEGER,
            deleted_at INTEGER,
            payload BLOB
        );",
    )
    .unwrap();
    conn.execute(
        "INSERT INTO sessions (id, user_id, title, cwd, created_at, updated_at, deleted_at, payload)
         VALUES ('src-1', 'uid-a', '旧标题', '/ws', 1000, 2000, NULL, x'DEADBEEF')",
        [],
    )
    .unwrap();

    let table = read_table(&conn);
    let sql = insert_statement(&table.columns);
    let store = Store::Open(table);
    let row = insert_session_copy(&store, "new-uuid-1", "src-1", "uid-a", "uid-b", 77)
        .unwrap()
        .unwrap();
    let values: Vec<Value> = row.iter().map(|v| to_db(v)).collect();
    conn.execute(&sql, rusqlite::params_from_iter(values.iter())).unwrap();

    let (id, user_id, title, deleted_at): (String, String, String, Option<i64>) = conn
        .query_row(
            "SELECT id, user_id, title, deleted_at FROM sessions WHERE id = 'new-uuid-1'",
            [],
            |r| Ok((r.get(0)?, r.get(1)?, r.get(2)?, r.get(3)?)),
        )
        .unwrap();
    assert_eq!(id, "new-uuid-1");
    assert_eq!(user_id, "uid-b");
    assert_eq!(title, "旧标题");
    assert_eq!(deleted_at, None);

    let src_count: i64 = conn
        .query_row("SELECT COUNT(*) FROM sessions WHERE id = 'src-1'", [], |r| r.get(0))
        .unwrap();
    assert_eq!(src_count, 1);

    let (created, updated, payload): (i64, i64, Vec<u8>) = conn
        .query_row(
            "SELECT created_at, updated_at, payload FROM sessions WHERE id = 'new-uuid-1'",
            [],
            |r| Ok((r.get(0)?, r.get(1)?, r.get(2)?)),
        )
        .unwrap();
    assert_eq!((created, updated), (77, 77));
    assert_eq!(payload, vec![0xde, 0xad, 0xbe, 0xef]);
}

#[test]
fn insert_session_copy_missing_source_is_noop() {
    let conn = Connection::open_in_memory().unwrap();
    conn.execute_batch(
        "CREATE TABLE sessions (id TEXT PRIMARY KEY, user_id TEXT, title TEXT, created_at INTEGER, updated_at INTEGER, deleted_at INTEGER);",
    )
    .unwrap();
    let store = Store::Open(read_table(&conn));
    let row = insert_session_copy(&store, "new-1", "missing", "uid-a", "uid-b", 1).unwrap();
    assert!(row.is_none());
    let count: i64 =
        conn.query_row("SELECT COUNT(*) FROM sessions", [], |r| r.get(0)).unwrap();
    assert_eq!(count, 0);
}

#[test]
fn insert_session_copy_missing_db_is_ok() {
    let missing = Store::Missing("\"/x/missing.db\"".to_string());
    assert!(insert_session_copy(&missing, "new-1", "src-1", "a", "b", 1).is_ok());
    assert!(insert_session_copy(&Store::Closed, "new-1", "src-1", "a", "b", 1).unwrap().is_none());
    assert!(insert_session_copy(&Store::NoTable, "new-1", "src-1", "a", "b", 1).unwrap().is_none());
}

fn small_table() -> Table {
    Table {
        columns: ["id", "user_id", "cwd", "title", "updated_at", "deleted_at"]
            .iter()
            .map(|s| s.to_string())
            .collect(),
        rows: vec![
            row(vec![text("s"), text("other"), text("/p"), text("x"), SqlValue::Integer(1), SqlValue::Null]),
            row(vec![text("s"), text(""), text("/p"), text("y"), SqlValue::Integer(2), SqlValue::Integer(5)]),
            row(vec![text("c"), text("a"), text("/p/CLAW"), text("z"), SqlValue::Integer(3), SqlValue::Null]),
        ],
    }
}

#[test]
fn copying_finds_shared_sessions_and_refuses_bound_ones() {
    let store = Store::Open(small_table());
    let row = insert_session_copy(&store, "n", "s", "a", "b", 9).unwrap().unwrap();
    assert!(row[0].is_text("n") && row[1].is_text("b") && row[3].is_text("y"));
    assert!(matches!(row[4], SqlValue::Integer(9)) && matches!(row[5], SqlValue::Null));
    let e = insert_session_copy(&store, "n", "c", "a", "b", 9).err().unwrap();
    assert_eq!(e, "Claw 工作区绑定当前账号渠道，不支持复制");
}

#[test]
fn copy_is_listed_for_its_account_alone() {
    let mut table = small_table();
    let source = list_sessions_in(Some(&table), "other").len();
    let store = Store::Open(small_table());
    let copy = insert_session_copy(&store, "n", "s", "other", "b", 9).unwrap().unwrap();
    assert!(list_sessions_in(Some(&table), "b").is_empty());
    table.rows.push(row(copy));
    assert_eq!(list_sessions_in(Some(&table), "other").len(), source);
    let mine = list_sessions_in(Some(&table), "b");
    assert_eq!(mine.len(), 1);
    assert_eq!((mine[0].id.as_str(), mine[0].updated_at, mine[0].title.as_str()), ("n", Some(9), "x"));
}

#[test]
fn new_identifiers_have_the_form_with_hyphens() {
    let store = Store::Open(small_table());
    let copy = copy_session_to_user_for(&store, "s", "a", "b", 9).ok().unwrap();
    assert!(copy.row.unwrap()[0].is_text(&copy.new_cid));
    let id: Vec<char> = copy.new_cid.chars().collect();
    assert_eq!(id.len(), 36);
    for (i, c) in id.iter().enumerate() {
        if i == 8 || i == 13 || i == 18 || i == 23 {
            assert_eq!(*c, '-');
        } else {
            assert!(c.is_ascii_digit() || ('a'..='f').contains(c));
        }
    }
    assert_eq!(id[14], '4');
    assert!("89ab".contains(id[19]));
    let other = copy_session_to_user(&Store::NoTable, "s", "a", "b", 9).ok().unwrap();
    assert_ne!(other.new_cid, copy.new_cid);
    assert!(other.row.is_none());
    assert!(copy_session_to_user_for(&store, "c", "a", "b", 9).is_err());
    assert_eq!(plan_copy(&Store::Closed, "k", "s", "a", "b", 9).ok().unwrap().new_cid, "k");
}

#[test]
fn statement_that_adds_a_row() {
    let names = vec!["id".to_string(), "user_id".to_string(), "cwd".to_string()];
    assert_eq!(
        insert_statement(&names),
        "INSERT OR REPLACE INTO sessions (id, user_id, cwd) VALUES (?, ?, ?)"
    );
    assert_eq!(
        insert_statement(&vec!["id".to_string()]),
        "INSERT OR REPLACE INTO sessions (id) VALUES (?)"
    );
}

#[test]
fn insert_edge_sync_mapping_registers_channel() {
    let conn = Connection::open_in_memory().unwrap();
    conn.execute_batch(
        "CREATE TABLE edge_sync_mapping (
            session_id TEXT,
            conversation_id TEXT,
            msg_channel TEXT,
            created_at INTEGER
        );",
    )
    .unwrap();
    let m = insert_edge_sync_mapping(true, "new-1", "uid-b", 5).unwrap();
    conn.execute(
        "INSERT OR REPLACE INTO edge_sync_mapping \
         (session_id, conversation_id, msg_channel, created_at) VALUES (?1, ?2, ?3, ?4)",
        (&m.session_id, &m.conversation_id, &m.msg_channel, m.created_at),
    )
    .unwrap();
    let (sid, cid, channel): (String, String, String) = conn
        .query_row(
            "SELECT session_id, conversation_id, msg_channel FROM edge_sync_mapping",
            [],
            |r| Ok((r.get(0)?, r.get(1)?, r.get(2)?)),
        )
        .unwrap();
    assert_eq!(sid, "new-1");
    assert_eq!(cid, "new-1");
    assert_eq!(channel, "convmsg:uid-b");
    assert_eq!(m.created_at, 5);
}

#[test]
fn insert_edge_sync_mapping_missing_table_false() {
    let conn = Connection::open_in_memory().unwrap();
    conn.execute_batch("CREATE TABLE other (x INTEGER);").unwrap();
    let tables: Vec<String> = conn
        .prepare("SELECT name FROM sqlite_master WHERE type='table'")
        .unwrap()
        .query_map([], |r| r.get(0))
        .unwrap()
        .map(|r| r.unwrap())
        .collect();
    let has = has_edge_sync_table(Some(&tables));
    assert!(!has);
    assert!(insert_edge_sync_mapping(has, "new-1", "uid-b", 5).is_none());
    assert!(register_edge_sync_mapping_for(has, "new-1", "uid-b", 5).is_none());
}

#[test]
fn session_display_title_prefers_custom_title() {
    assert_eq!(
        session_display_title(Some("自动标题".into()), Some("美团每日自动领券".into())),
        "美团每日自动领券"
    );
    assert_eq!(
        session_display_title(None, Some("美团每日自动领券".into())),
        "美团每日自动领券"
    );
    assert_eq!(session_display_title(Some("汉字详情页".into()), None), "汉字详情页");
    assert_eq!(session_display_title(None, None), "(无标题)");
    assert_eq!(session_display_title(Some("  ".into()), Some("".into())), "(无标题)");
}

#[test]
fn blank_texts_are_none() {
    assert_eq!(nonempty_text(Some(" a ".into())), Some("a".to_string()));
    assert_eq!(nonempty_text(Some("\u{3000}\t".into())), None);
    assert_eq!(nonempty_text(None), None);
}

#[test]
fn claw_workspace_detected_by_folder_name() {
    assert!(is_claw_workspace("/Users/apple/WorkBuddy/Claw"));
    assert!(is_claw_workspace("/Users/apple/WorkBuddy/claw/"));
    assert!(is_claw_workspace(r"C:\Users\me\WorkBuddy\Claw"));
    assert!(!is_claw_workspace("/Users/apple/WorkBuddy/ClawBot"));
    assert!(!is_claw_workspace("/Users/apple/Documents/AI-PROJECT/LetterTotTown"));
}

#[test]
fn claw_workspace_edges() {
    assert!(is_claw_workspace(" CLAW/\\/ "));
    assert!(!is_claw_workspace(""));
    assert!(!is_claw_workspace("///"));
    assert!(!is_claw_workspace("claw/x"));
}

#[test]
fn bodies_are_found_directly_first() {
    let projects = LocalPath::at("/data").join("projects");
    let bodies = Bodies {
        files: vec!["a.jsonl".to_string()],
        spaces: vec![
            Space { name: "w1".to_string(), files: vec!["a.jsonl".to_string()] },
            Space { name: "w2".to_string(), files: vec!["b.jsonl".to_string()] },
            Space { name: "w3".to_string(), files: vec!["b.jsonl".to_string()] },
        ],
    };
    let a = find_project_jsonl_in(&projects, &bodies, "a").unwrap();
    assert_eq!(shown(&a), "/data|projects|a.jsonl");
    let b = find_project_jsonl_in(&projects, &bodies, "b").unwrap();
    assert_eq!(shown(&b), "/data|projects|w2|b.jsonl");
    assert!(find_project_jsonl_in(&projects, &bodies, "c").is_none());
    let e = find_project_jsonl_for(Edition::International, "/h", &bodies, "b").unwrap();
    assert_eq!(shown(&e), "/h|.workbuddy-ai|projects|w2|b.jsonl");
}

#[test]
fn data_directory_of_a_database() {
    assert_eq!(shown(&data_dir_of(&workbuddy_db_path("/h"))), "/h|.workbuddy");
    assert_eq!(shown(&data_dir_of(&LocalPath::at("/a").join("b.db"))), "/a");
}

#[test]
fn account_that_is_logged_in() {
    let auth = parse("{\"account\": {\"uid\": \"u-1\"}}").unwrap();
    assert_eq!(current_user_uid(Some(&auth)), Some("u-1".to_string()));
    assert_eq!(current_user_uid_for(Some(&parse("{\"account\": {\"uid\": 1}}").unwrap())), None);
    assert_eq!(current_user_uid_for(Some(&parse("{}").unwrap())), None);
    assert_eq!(current_user_uid_for(None), None);
    assert!(supports_session_sharing_for(Edition::International, true));
    assert!(!supports_session_sharing_for(Edition::Domestic, false));
}

#[test]
fn files_of_a_backup() {
    assert_eq!(
        backup_workbuddy_db_for(true),
        vec!["workbuddy.db", "workbuddy.db-wal", "workbuddy.db-shm"]
    );
    assert!(backup_workbuddy_db_for(false).is_empty());
}

#[test]
fn columns_are_found_by_name() {
    let names = vec!["id".to_string(), "cwd".to_string()];
    assert!(column_exists(&names, "cwd") && !column_exists(&names, "CWD"));
    assert_eq!(find_column(&names, "cwd"), Some(1));
    assert_eq!(find_column(&names, "CWD"), Some(1));
    assert_eq!(find_exact(&names, "CWD"), None);
    assert_eq!(find_exact(&names, "cwd"), Some(1));
    assert!(is_alike("User_ID", "user_id") && !is_alike("user-id", "user_id"));
}

#[test]
fn body_of_a_copy_names_the_new_session() {
    let body = "{\"sessionId\":\"old\"}\n{\"parent\":\"old-1\"}";
    assert_eq!(copied_body(body, "old", "new"), "{\"sessionId\":\"new\"}\n{\"parent\":\"new-1\"}");
}

#[test]
fn copies_go_from_the_login_to_the_target() {
    let target = parse("{\"uid\": \" u-2 \"}").unwrap();
    let pair = copy_sessions_for_switch(&target, Some("u-1")).unwrap();
    assert_eq!((pair.source_uid.as_str(), pair.target_uid.as_str()), ("u-1", "u-2"));
    assert!(copy_sessions_for_switch_for(&target, Some("u-2")).is_none());
    assert!(copy_sessions_for_switch_for(&target, None).is_none());
    assert!(copy_sessions_for_switch_for(&parse("{\"uid\": \" \"}").unwrap(), Some("u-1")).is_none());
    let done = copy_report("s", "n", true, false, "/b");
    assert_eq!(
        to_text(&done).unwrap(),
        "{\"backup\":\"/b\",\"id\":\"s\",\"jsonlCopied\":true,\"mappingWritten\":false,\"newId\":\"n\"}"
    );
    let results = vec![
        Copied::Failed("x".to_string(), "no".to_string()),
        Copied::Done(parse("1").unwrap()),
    ];
    assert_eq!(
        to_text(&copies_report(&pair, &results)).unwrap(),
        "{\"copied\":[1],\"errors\":[{\"error\":\"no\",\"id\":\"x\"}],\
          \"sourceUid\":\"u-1\",\"targetUid\":\"u-2\"}"
    );
    assert_eq!(
        to_text(&copies_report(&pair, &vec![])).unwrap(),
        "{\"copied\":[],\"sourceUid\":\"u-1\",\"targetUid\":\"u-2\"}"
    );
}
