use honeytrap_deception::mysql_interaction::threats_in;
use honeytrap_deception::{MysqlInteractionHandler, MysqlResponse, SqlThreat};

#[test]
fn test_mysql_handler_creation() {
    let handler = MysqlInteractionHandler::new("test".to_string());
    assert!(!handler.get_stats().authenticated);
}

#[test]
fn test_authentication() {
    let mut handler = MysqlInteractionHandler::new("test".to_string());
    let result = handler.authenticate("root", "password", Some("mysql"));
    assert!(result);
    assert!(handler.get_stats().authenticated);
}

#[test]
fn test_show_databases() {
    let mut handler = MysqlInteractionHandler::new("test".to_string());
    handler.authenticate("test", "test", None);

    let response = handler.handle_query("SHOW DATABASES");
    if let MysqlResponse::ResultSet { rows, .. } = response {
        assert!(!rows.is_empty());
    } else {
        panic!("Expected ResultSet");
    }
}

#[test]
fn test_sql_injection_detection() {
    let mut handler = MysqlInteractionHandler::new("test".to_string());
    handler.authenticate("test", "test", None);

    let _response = handler.handle_query("SELECT * FROM users UNION SELECT NULL,NULL,NULL--");
}

#[test]
fn union_injection_is_flagged_and_answered() {
    let mut handler = MysqlInteractionHandler::new("s".to_string());
    let query = "SELECT * FROM users UNION SELECT NULL,NULL,NULL--";
    let threats = handler.detect_malicious_query(query);
    assert!(threats.contains(&SqlThreat::UnionInjection));
    assert!(threats.contains(&SqlThreat::CommentInjection));
    match handler.handle_query(query) {
        MysqlResponse::ResultSet { columns, rows } => {
            assert_eq!(columns, vec!["id".to_string(), "name".to_string()]);
            assert_eq!(rows, vec![vec!["1".to_string(), "sample_data".to_string()]]);
        }
        other => panic!("unexpected {:?}", other),
    }
}

#[test]
fn threat_kinds_in_order() {
    assert_eq!(
        threats_in("select sleep(5) into outfile '/tmp/x' # grant all"),
        vec![
            SqlThreat::CommentInjection,
            SqlThreat::TimeBasedInjection,
            SqlThreat::FileWrite,
            SqlThreat::PrivilegeEscalation,
        ]
    );
    assert!(threats_in("select 1").is_empty());
}

#[test]
fn handshake_bytes() {
    let handler = MysqlInteractionHandler::new("s".to_string());
    let mut expected = vec![10u8];
    expected.extend_from_slice(b"5.7.38-0ubuntu0.18.04.1");
    expected.push(0);
    assert_eq!(handler.send_handshake(), expected);
}

#[test]
fn scalar_selects_follow_session() {
    let mut handler = MysqlInteractionHandler::new("s".to_string());
    let user = |r: MysqlResponse| match r {
        MysqlResponse::ResultSet { rows, .. } => rows[0][0].clone(),
        other => panic!("unexpected {:?}", other),
    };
    assert_eq!(user(handler.handle_query("SELECT USER()")), "guest@localhost");
    assert_eq!(user(handler.handle_query("select database()")), "NULL");
    handler.authenticate("root", "pw", Some("shop"));
    assert_eq!(user(handler.handle_query("SELECT USER()")), "root@localhost");
    assert_eq!(user(handler.handle_query("select database()")), "shop");
    assert_eq!(user(handler.handle_query("select version()")), "5.7.38-0ubuntu0.18.04.1");
    assert_eq!(user(handler.handle_query("select 1")), "1");
}

#[test]
fn use_switches_database_in_lower_case() {
    let mut handler = MysqlInteractionHandler::new("s".to_string());
    match handler.handle_query("USE Corporate_DB  ") {
        MysqlResponse::OkPacket { affected_rows } => assert_eq!(affected_rows, 0),
        other => panic!("unexpected {:?}", other),
    }
    let stats = handler.get_stats();
    assert_eq!(stats.database, Some("corporate_db".to_string()));
    assert_eq!(stats.query_count, 1);
}

#[test]
fn modifications_and_syntax_errors() {
    let mut handler = MysqlInteractionHandler::new("s".to_string());
    match handler.handle_query("DELETE FROM users") {
        MysqlResponse::OkPacket { affected_rows } => assert_eq!(affected_rows, 0),
        other => panic!("unexpected {:?}", other),
    }
    match handler.handle_query("DROP TABLE users") {
        MysqlResponse::Error { code, message } => {
            assert_eq!(code, 1064);
            assert_eq!(message, "You have an error in your SQL syntax");
        }
        other => panic!("unexpected {:?}", other),
    }
    match handler.handle_query("show tables") {
        MysqlResponse::ResultSet { columns, rows } => {
            assert_eq!(columns, vec!["Tables_in_corporate_db".to_string()]);
            assert_eq!(rows.len(), 3);
        }
        other => panic!("unexpected {:?}", other),
    }
    match handler.handle_query("show status") {
        MysqlResponse::OkPacket { affected_rows } => assert_eq!(affected_rows, 0),
        other => panic!("unexpected {:?}", other),
    }
    assert_eq!(handler.get_stats().query_count, 4);
}
