//! Emulation of a MySQL server: greeting, always-accepting login, and canned
//! replies to queries. No query is ever run.
use vstd::prelude::*;
use vstd::string::StringSliceAdditionalSpecFns;

use crate::text::{chars_of, contains_seq, contains_str, lower_of, starts_with_seq, starts_with_str, strings_view, to_lowercase, trim_seq, trim_string};

verus! {

/// Protocol version byte of the greeting.
pub const PROTOCOL_VERSION: u8 = 10;
/// The server version the emulated server claims.
pub const SERVER_VERSION: &'static str = "5.7.38-0ubuntu0.18.04.1";
/// Error code of a query that cannot be understood.
pub const ER_PARSE_ERROR: u16 = 1064;

/// A reply to one query.
#[derive(Debug, Clone)]
pub enum MysqlResponse {
    OkPacket { affected_rows: u64 },
    Error { code: u16, message: String },
    ResultSet { columns: Vec<String>, rows: Vec<Vec<String>> },
}

/// A reply as text values.
pub enum ReplyView {
    OkPacket { affected_rows: u64 },
    Error { code: u16, message: Seq<char> },
    ResultSet { columns: Seq<Seq<char>>, rows: Seq<Seq<Seq<char>>> },
}

/// The state of the session as `get_stats` reports it.
#[derive(Debug, Clone)]
pub struct MysqlStats {
    pub query_count: usize,
    pub authenticated: bool,
    pub username: Option<String>,
    pub database: Option<String>,
}

/// Attack techniques recognised in a query.
#[derive(Debug, Clone, Copy, PartialEq, Eq, Structural)]
pub enum SqlThreat {
    /// `UNION` together with `SELECT`.
    UnionInjection,
    /// A `--` or `#` comment.
    CommentInjection,
    /// `sleep(` or `benchmark(`.
    TimeBasedInjection,
    /// `into outfile` or `into dumpfile`.
    FileWrite,
    /// `grant` or `create user`.
    PrivilegeEscalation,
}

/// One emulated MySQL session.
pub struct MysqlInteractionHandler {
    session_id: String,
    authenticated: bool,
    username: Option<String>,
    database: Option<String>,
    query_count: usize,
}

pub open spec fn rows_view(rows: Seq<Vec<String>>) -> Seq<Seq<Seq<char>>> {
    rows.map_values(|r: Vec<String>| strings_view(r@))
}

pub open spec fn opt_view(o: Option<String>) -> Option<Seq<char>> {
    match o {
        Some(s) => Some(s@),
        None => None,
    }
}

impl View for MysqlResponse {
    type V = ReplyView;

    open spec fn view(&self) -> ReplyView {
        match self {
            MysqlResponse::OkPacket { affected_rows } => ReplyView::OkPacket { affected_rows: *affected_rows },
            MysqlResponse::Error { code, message } => ReplyView::Error {
                code: *code,
                message: message@,
            },
            MysqlResponse::ResultSet { columns, rows } => ReplyView::ResultSet {
                columns: strings_view(columns@),
                rows: rows_view(rows@),
            },
        }
    }
}

/// The reply to a `SHOW` query (already in lower case).
pub open spec fn show_reply(q: Seq<char>) -> ReplyView {
    if contains_seq(q, "databases"@) {
        ReplyView::ResultSet {
            columns: seq!["Database"@],
            rows: seq![
                seq!["information_schema"@],
                seq!["mysql"@],
                seq!["corporate_db"@],
                seq!["test"@],
            ],
        }
    } else if contains_seq(q, "tables"@) {
        ReplyView::ResultSet {
            columns: seq!["Tables_in_corporate_db"@],
            rows: seq![seq!["users"@], seq!["sessions"@], seq!["logs"@]],
        }
    } else if contains_seq(q, "variables"@) {
        ReplyView::ResultSet {
            columns: seq!["Variable_name"@, "Value"@],
            rows: seq![seq!["version"@, SERVER_VERSION@], seq!["datadir"@, "/var/lib/mysql/"@]],
        }
    } else {
        ReplyView::OkPacket { affected_rows: 0 }
    }
}

/// The reply to a `SELECT` query (already in lower case) for the session's
/// user and database.
pub open spec fn select_reply(
    q: Seq<char>,
    user: Option<Seq<char>>,
    db: Option<Seq<char>>,
) -> ReplyView {
    if contains_seq(q, "version()"@) {
        ReplyView::ResultSet { columns: seq!["version()"@], rows: seq![seq![SERVER_VERSION@]] }
    } else if contains_seq(q, "user()"@) {
        ReplyView::ResultSet {
            columns: seq!["user()"@],
            rows: seq![
                seq![
                    match user {
                        Some(u) => u + "@localhost"@,
                        None => "guest@localhost"@,
                    },
                ],
            ],
        }
    } else if contains_seq(q, "database()"@) {
        ReplyView::ResultSet {
            columns: seq!["database()"@],
            rows: seq![
                seq![
                    match db {
                        Some(d) => d,
                        None => "NULL"@,
                    },
                ],
            ],
        }
    } else if contains_seq(q, "from"@) {
        ReplyView::ResultSet {
            columns: seq!["id"@, "name"@],
            rows: seq![seq!["1"@, "sample_data"@]],
        }
    } else {
        ReplyView::ResultSet { columns: seq!["result"@], rows: seq![seq!["1"@]] }
    }
}

/// The query changes data.
pub open spec fn is_modification(q: Seq<char>) -> bool {
    starts_with_seq(q, "insert"@) || starts_with_seq(q, "update"@) || starts_with_seq(
        q,
        "delete"@,
    )
}

/// The reply to the lower-cased query `q`, dispatched on its leading keyword.
pub open spec fn reply_to(q: Seq<char>, user: Option<Seq<char>>, db: Option<Seq<char>>) -> ReplyView {
    if starts_with_seq(q, "show"@) {
        show_reply(q)
    } else if starts_with_seq(q, "select"@) {
        select_reply(q, user, db)
    } else if starts_with_seq(q, "use "@) {
        ReplyView::OkPacket { affected_rows: 0 }
    } else if is_modification(q) {
        ReplyView::OkPacket { affected_rows: 0 }
    } else {
        ReplyView::Error { code: ER_PARSE_ERROR, message: "You have an error in your SQL syntax"@ }
    }
}

/// The session's database after the lower-cased query `q`: `use <name>`
/// switches to the trimmed name, anything else keeps `db`.
pub open spec fn database_after(q: Seq<char>, db: Option<Seq<char>>) -> Option<Seq<char>> {
    if !starts_with_seq(q, "show"@) && !starts_with_seq(q, "select"@) && starts_with_seq(
        q,
        "use "@,
    ) {
        Some(trim_seq(q.subrange(4, q.len() as int)))
    } else {
        db
    }
}

/// The threats found in the lower-cased query `q`, in a fixed order.
pub open spec fn sql_threats(q: Seq<char>) -> Seq<SqlThreat> {
    (if contains_seq(q, "union"@) && contains_seq(q, "select"@) {
        seq![SqlThreat::UnionInjection]
    } else {
        Seq::empty()
    }) + (if contains_seq(q, "--"@) || contains_seq(q, "#"@) {
        seq![SqlThreat::CommentInjection]
    } else {
        Seq::empty()
    }) + (if contains_seq(q, "sleep("@) || contains_seq(q, "benchmark("@) {
        seq![SqlThreat::TimeBasedInjection]
    } else {
        Seq::empty()
    }) + (if contains_seq(q, "into outfile"@) || contains_seq(q, "into dumpfile"@) {
        seq![SqlThreat::FileWrite]
    } else {
        Seq::empty()
    }) + (if contains_seq(q, "grant"@) || contains_seq(q, "create user"@) {
        seq![SqlThreat::PrivilegeEscalation]
    } else {
        Seq::empty()
    })
}

fn row1(a: &str) -> (r: Vec<String>)
    ensures
        strings_view(r@) == seq![a@],
{
    let r = vec![a.to_owned()];
    assert(strings_view(r@) =~= seq![a@]);
    r
}

fn row2(a: &str, b: &str) -> (r: Vec<String>)
    ensures
        strings_view(r@) == seq![a@, b@],
{
    let r = vec![a.to_owned(), b.to_owned()];
    assert(strings_view(r@) =~= seq![a@, b@]);
    r
}

fn copy_opt(o: &Option<String>) -> (r: Option<String>)
    ensures
        opt_view(r) == opt_view(*o),
{
    match o {
        Some(s) => Some(s.clone()),
        None => None,
    }
}

fn show_response(q: &Vec<char>) -> (r: MysqlResponse)
    ensures
        r@ == show_reply(q@),
{
    if contains_str(q, "databases") {
        let rows = vec![
            row1("information_schema"),
            row1("mysql"),
            row1("corporate_db"),
            row1("test"),
        ];
        let r = MysqlResponse::ResultSet { columns: row1("Database"), rows };
        assert(rows_view(rows@) =~= seq![
            seq!["information_schema"@],
            seq!["mysql"@],
            seq!["corporate_db"@],
            seq!["test"@],
        ]);
        r
    } else if contains_str(q, "tables") {
        let rows = vec![row1("users"), row1("sessions"), row1("logs")];
        assert(rows_view(rows@) =~= seq![seq!["users"@], seq!["sessions"@], seq!["logs"@]]);
        MysqlResponse::ResultSet { columns: row1("Tables_in_corporate_db"), rows }
    } else if contains_str(q, "variables") {
        let rows = vec![row2("version", SERVER_VERSION), row2("datadir", "/var/lib/mysql/")];
        assert(rows_view(rows@) =~= seq![
            seq!["version"@, SERVER_VERSION@],
            seq!["datadir"@, "/var/lib/mysql/"@],
        ]);
        MysqlResponse::ResultSet { columns: row2("Variable_name", "Value"), rows }
    } else {
        MysqlResponse::OkPacket { affected_rows: 0 }
    }
}

/// The threats found in a query that is already in lower case.
pub fn threats_in(lowered: &str) -> (r: Vec<SqlThreat>)
    ensures
        r@ == sql_threats(lowered@),
{
    let q = chars_of(lowered);
    let mut r: Vec<SqlThreat> = Vec::new();
    if contains_str(&q, "union") && contains_str(&q, "select") {
        r.push(SqlThreat::UnionInjection);
    }
    if contains_str(&q, "--") || contains_str(&q, "#") {
        r.push(SqlThreat::CommentInjection);
    }
    if contains_str(&q, "sleep(") || contains_str(&q, "benchmark(") {
        r.push(SqlThreat::TimeBasedInjection);
    }
    if contains_str(&q, "into outfile") || contains_str(&q, "into dumpfile") {
        r.push(SqlThreat::FileWrite);
    }
    if contains_str(&q, "grant") || contains_str(&q, "create user") {
        r.push(SqlThreat::PrivilegeEscalation);
    }
    assert(r@ =~= sql_threats(lowered@));
    r
}

impl MysqlInteractionHandler {
    pub closed spec fn session(&self) -> Seq<char> {
        self.session_id@
    }

    pub closed spec fn is_authenticated(&self) -> bool {
        self.authenticated
    }

    pub closed spec fn user(&self) -> Option<Seq<char>> {
        opt_view(self.username)
    }

    pub closed spec fn db(&self) -> Option<Seq<char>> {
        opt_view(self.database)
    }

    pub closed spec fn queries(&self) -> nat {
        self.query_count as nat
    }

    pub fn new(session_id: String) -> (r: Self)
        ensures
            r.session() == session_id@,
            !r.is_authenticated(),
            r.user() is None,
            r.db() is None,
            r.queries() == 0,
    {
        MysqlInteractionHandler {
            session_id,
            authenticated: false,
            username: None,
            database: None,
            query_count: 0,
        }
    }

    /// The greeting packet: protocol version, server version, terminating
    /// zero byte.
    pub fn send_handshake(&self) -> (r: Vec<u8>)
        ensures
            r@ == seq![PROTOCOL_VERSION] + SERVER_VERSION.spec_bytes() + seq![0u8],
    {
        let version = SERVER_VERSION.as_bytes_vec();
        let mut packet: Vec<u8> = vec![PROTOCOL_VERSION];
        let mut i: usize = 0;
        while i < version.len()
            invariant
                i <= version.len(),
                version@ == SERVER_VERSION.spec_bytes(),
                packet@ == seq![PROTOCOL_VERSION] + version@.subrange(0, i as int),
            decreases version.len() - i,
        {
            packet.push(version[i]);
            i = i + 1;
            assert(packet@ =~= seq![PROTOCOL_VERSION] + version@.subrange(0, i as int));
        }
        assert(version@.subrange(0, i as int) =~= version@);
        packet.push(0);
        packet
    }

    /// Accepts any login, recording the user and database it names.
    pub fn authenticate(&mut self, username: &str, _password: &str, database: Option<&str>) -> (r:
        bool)
        ensures
            r,
            final(self).is_authenticated(),
            final(self).user() == Some(username@),
            final(self).db() == match database {
                Some(d) => Some(d@),
                None => None::<Seq<char>>,
            },
            final(self).queries() == old(self).queries(),
            final(self).session() == old(self).session(),
    {
        self.authenticated = true;
        self.username = Some(username.to_owned());
        self.database = match database {
            Some(d) => Some(d.to_owned()),
            None => None,
        };
        true
    }

    /// Answers one query: counts it and replies as its lower-case form asks.
    pub fn handle_query(&mut self, query: &str) -> (r: MysqlResponse)
        requires
            old(self).queries() < usize::MAX,
        ensures
            r@ == reply_to(lower_of(query@), old(self).user(), old(self).db()),
            final(self).db() == database_after(lower_of(query@), old(self).db()),
            final(self).queries() == old(self).queries() + 1,
            final(self).user() == old(self).user(),
            final(self).is_authenticated() == old(self).is_authenticated(),
            final(self).session() == old(self).session(),
    {
        self.query_count = self.query_count + 1;
        let lowered = to_lowercase(query);
        self.respond(lowered.as_str())
    }

    /// Replies to a query that is already in lower case, switching the
    /// database on `use <name>`.
    pub fn respond(&mut self, lowered: &str) -> (r: MysqlResponse)
        ensures
            r@ == reply_to(lowered@, old(self).user(), old(self).db()),
            final(self).db() == database_after(lowered@, old(self).db()),
            final(self).queries() == old(self).queries(),
            final(self).user() == old(self).user(),
            final(self).is_authenticated() == old(self).is_authenticated(),
            final(self).session() == old(self).session(),
    {
        let q = chars_of(lowered);
        if starts_with_str(&q, "show") {
            show_response(&q)
        } else if starts_with_str(&q, "select") {
            self.select_response(&q)
        } else if starts_with_str(&q, "use ") {
            proof {
                reveal_strlit("use ");
            }
            assert("use "@.len() == 4);
            let rest = lowered.substring_char(4, q.len());
            let name = trim_string(rest);
            self.database = Some(name);
            MysqlResponse::OkPacket { affected_rows: 0 }
        } else if starts_with_str(&q, "insert") || starts_with_str(&q, "update")
            || starts_with_str(&q, "delete") {
            MysqlResponse::OkPacket { affected_rows: 0 }
        } else {
            MysqlResponse::Error {
                code: ER_PARSE_ERROR,
                message: "You have an error in your SQL syntax".to_owned(),
            }
        }
    }

    fn select_response(&self, q: &Vec<char>) -> (r: MysqlResponse)
        ensures
            r@ == select_reply(q@, self.user(), self.db()),
    {
        if contains_str(q, "version()") {
            let rows = vec![row1(SERVER_VERSION)];
            assert(rows_view(rows@) =~= seq![seq![SERVER_VERSION@]]);
            MysqlResponse::ResultSet { columns: row1("version()"), rows }
        } else if contains_str(q, "user()") {
            let user = match &self.username {
                Some(u) => u.clone().concat("@localhost"),
                None => "guest@localhost".to_owned(),
            };
            let rows = vec![vec![user]];
            assert(rows_view(rows@) =~= seq![seq![user@]]) by {
                assert(strings_view(rows@[0]@) =~= seq![user@]);
            }
            MysqlResponse::ResultSet { columns: row1("user()"), rows }
        } else if contains_str(q, "database()") {
            let db = match &self.database {
                Some(d) => d.clone(),
                None => "NULL".to_owned(),
            };
            let rows = vec![vec![db]];
            assert(rows_view(rows@) =~= seq![seq![db@]]) by {
                assert(strings_view(rows@[0]@) =~= seq![db@]);
            }
            MysqlResponse::ResultSet { columns: row1("database()"), rows }
        } else if contains_str(q, "from") {
            let rows = vec![row2("1", "sample_data")];
            assert(rows_view(rows@) =~= seq![seq!["1"@, "sample_data"@]]);
            MysqlResponse::ResultSet { columns: row2("id", "name"), rows }
        } else {
            let rows = vec![row1("1")];
            assert(rows_view(rows@) =~= seq![seq!["1"@]]);
            MysqlResponse::ResultSet { columns: row1("result"), rows }
        }
    }

    /// The attack techniques that `query` shows, judged on its lower-case
    /// form; the reply to the query does not depend on them.
    pub fn detect_malicious_query(&self, query: &str) -> (r: Vec<SqlThreat>)
        ensures
            r@ == sql_threats(lower_of(query@)),
    {
        let lowered = to_lowercase(query);
        threats_in(lowered.as_str())
    }

    pub fn get_stats(&self) -> (r: MysqlStats)
        ensures
            r.query_count == self.queries(),
            r.authenticated == self.is_authenticated(),
            opt_view(r.username) == self.user(),
            opt_view(r.database) == self.db(),
    {
        MysqlStats {
            query_count: self.query_count,
            authenticated: self.authenticated,
            username: copy_opt(&self.username),
            database: copy_opt(&self.database),
        }
    }

    /// The identifier of the session this handler serves.
    pub fn session_id(&self) -> (r: &str)
        ensures
            r@ == self.session(),
    {
        self.session_id.as_str()
    }
}

} // verus!
