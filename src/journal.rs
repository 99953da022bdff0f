//! The record of what the repository sent to the store and how the store
//! answered: the statements' texts, the parameters bound to them, and the
//! outcome of each.
use vstd::prelude::*;
use vstd::view::View as _;
use crate::model::{error_for_code, Pin, Project, RepoError, View};

verus! {

/// Turns on foreign keys, bounds the wait for a lock to two seconds and
/// creates the tables that are missing, with view names unique within a
/// project so that a workspace name resolves to one view.
pub const SCHEMA: &'static str = "
    PRAGMA foreign_keys = ON;
    PRAGMA busy_timeout = 2000;

    CREATE TABLE IF NOT EXISTS views (
        id    INTEGER PRIMARY KEY,
        name  TEXT NOT NULL,
        project_id INTEGER NOT NULL,
        position INTEGER NOT NULL,

        FOREIGN KEY(project_id) REFERENCES projects(id) DEFERRABLE INITIALLY DEFERRED
        UNIQUE(project_id, position)
    );

    CREATE TABLE IF NOT EXISTS projects (
        id    INTEGER PRIMARY KEY,
        name  TEXT NOT NULL UNIQUE,
        active_view_id INTEGER NOT NULL,

        FOREIGN KEY(active_view_id) REFERENCES views(id) DEFERRABLE INITIALLY DEFERRED
    );

    CREATE TABLE IF NOT EXISTS pins (
        id    INTEGER PRIMARY KEY,
        key  TEXT NOT NULL UNIQUE,
        view_id INTEGER NOT NULL,

        FOREIGN KEY(view_id) REFERENCES views(id)
    );

    CREATE UNIQUE INDEX IF NOT EXISTS views_project_name ON views(project_id, name);
";

/// Opens a transaction that holds the store's write lock from its start.
pub const BEGIN: &'static str = "BEGIN IMMEDIATE";

/// Makes the open transaction's writes permanent.
pub const COMMIT: &'static str = "COMMIT";

/// Drops the open transaction's writes.
pub const ROLLBACK: &'static str = "ROLLBACK";

/// Adds a project named `?1` whose active view is set later in the same
/// transaction.
pub const INSERT_PROJECT: &'static str = "INSERT INTO projects (name, active_view_id) VALUES (?1, 0)";

/// Adds a view named `?1` to project `?2` at position `?3`.
pub const INSERT_VIEW: &'static str = "INSERT INTO views (name, project_id, position) VALUES (?1, ?2, ?3)";

/// Points project `?2` at view `?1`.
pub const SET_ACTIVE_VIEW: &'static str = "UPDATE projects SET active_view_id = ?1 WHERE id = ?2";

/// Pins view `?2` under key `?1`, replacing what the key pointed at.
pub const UPSERT_PIN: &'static str = "INSERT INTO pins (key, view_id) VALUES (?1, ?2) ON CONFLICT(key) DO UPDATE SET view_id = ?2";

/// Removes the pin under key `?1`.
pub const DELETE_PIN: &'static str = "DELETE FROM pins WHERE key = ?1";

/// The project with id `?1`.
pub const SELECT_PROJECT_BY_ID: &'static str = "SELECT id, name, active_view_id, 0 FROM projects WHERE id = ?1";

/// The views of project `?1`, by position.
pub const SELECT_VIEWS_OF_PROJECT: &'static str = "SELECT id, name, project_id, position FROM views WHERE project_id = ?1 ORDER BY position";

/// The view with id `?1`.
pub const SELECT_VIEW_BY_ID: &'static str = "SELECT id, name, project_id, position FROM views WHERE id = ?1";

/// The pins under key `?1`.
pub const SELECT_PINS_BY_KEY: &'static str = "SELECT id, key, view_id, 0 FROM pins WHERE key = ?1";

/// The pins that point at view `?1`, oldest first.
pub const SELECT_PINS_BY_VIEW: &'static str = "SELECT id, key, view_id, 0 FROM pins WHERE view_id = ?1 ORDER BY id";

/// A statement with the texts and then the integers bound to its parameters.
pub struct SqlCall {
    pub sql: Seq<char>,
    pub texts: Seq<Seq<char>>,
    pub ints: Seq<i64>,
}

/// How the store answered a statement: carried out, changing that many rows,
/// or refused, with SQLite's extended result code where SQLite gave one.
pub enum Outcome {
    Done(int),
    Refused(Option<i32>),
}

/// One statement sent to the store and its outcome.
pub struct Sent {
    pub call: SqlCall,
    pub outcome: Outcome,
}

/// The rows a query returned, read as views, projects or pins.
pub enum Rows {
    Views(Seq<View>),
    Projects(Seq<Project>),
    Pins(Seq<Pin>),
}

/// One query that the store answered, and the rows it returned.
pub struct Read {
    pub call: SqlCall,
    pub rows: Rows,
}

/// The views that read `r` returned; empty for rows of another kind.
pub open spec fn views_read(r: Read) -> Seq<View> {
    match r.rows {
        Rows::Views(v) => v,
        _ => seq![],
    }
}

/// The projects that read `r` returned; empty for rows of another kind.
pub open spec fn projects_read(r: Read) -> Seq<Project> {
    match r.rows {
        Rows::Projects(p) => p,
        _ => seq![],
    }
}

/// The pins that read `r` returned; empty for rows of another kind.
pub open spec fn pins_read(r: Read) -> Seq<Pin> {
    match r.rows {
        Rows::Pins(p) => p,
        _ => seq![],
    }
}

/// `after` is `before` followed by one more read.
pub open spec fn read_one_more(before: Seq<Read>, after: Seq<Read>) -> bool {
    &&& after.len() == before.len() + 1
    &&& forall|i: int| 0 <= i < before.len() ==> after[i] == before[i]
}

/// `after` starts with the whole of `before`.
pub open spec fn reads_extend(before: Seq<Read>, after: Seq<Read>) -> bool {
    &&& before.len() <= after.len()
    &&& forall|i: int| 0 <= i < before.len() ==> after[i] == before[i]
}

/// Reading the project with id `project_id`.
pub open spec fn project_by_id_query(project_id: i64) -> SqlCall {
    call_of(SELECT_PROJECT_BY_ID@, seq![], seq![project_id])
}

/// Reading the views of project `project_id`.
pub open spec fn views_of_project_query(project_id: i64) -> SqlCall {
    call_of(SELECT_VIEWS_OF_PROJECT@, seq![], seq![project_id])
}

/// Reading the view with id `view_id`.
pub open spec fn view_by_id_query(view_id: i64) -> SqlCall {
    call_of(SELECT_VIEW_BY_ID@, seq![], seq![view_id])
}

/// Reading the pins under `key`.
pub open spec fn pins_by_key_query(key: Seq<char>) -> SqlCall {
    call_of(SELECT_PINS_BY_KEY@, seq![key], seq![])
}

/// Reading the pins that point at view `view_id`.
pub open spec fn pins_by_view_query(view_id: i64) -> SqlCall {
    call_of(SELECT_PINS_BY_VIEW@, seq![], seq![view_id])
}

/// The views of `texts`.
pub open spec fn texts_of(texts: Seq<String>) -> Seq<Seq<char>> {
    texts.map_values(|t: String| t@)
}

/// Statement `sql` with `texts` and then `ints` bound to its parameters.
pub open spec fn call_of(sql: Seq<char>, texts: Seq<Seq<char>>, ints: Seq<i64>) -> SqlCall {
    SqlCall { sql, texts, ints }
}

/// Opening a transaction.
pub open spec fn begin() -> SqlCall {
    call_of(BEGIN@, seq![], seq![])
}

/// Committing the open transaction.
pub open spec fn commit() -> SqlCall {
    call_of(COMMIT@, seq![], seq![])
}

/// Rolling the open transaction back.
pub open spec fn rollback() -> SqlCall {
    call_of(ROLLBACK@, seq![], seq![])
}

/// Adding project `name`.
pub open spec fn insert_project(name: Seq<char>) -> SqlCall {
    call_of(INSERT_PROJECT@, seq![name], seq![])
}

/// Adding view `name` to project `project_id` at `position`.
pub open spec fn insert_view(name: Seq<char>, project_id: i64, position: i64) -> SqlCall {
    call_of(INSERT_VIEW@, seq![name], seq![project_id, position])
}

/// Pointing project `project_id` at view `view_id`.
pub open spec fn set_active_view(view_id: i64, project_id: i64) -> SqlCall {
    call_of(SET_ACTIVE_VIEW@, seq![], seq![view_id, project_id])
}

/// Pinning view `view_id` under `key`.
pub open spec fn upsert_pin(key: Seq<char>, view_id: i64) -> SqlCall {
    call_of(UPSERT_PIN@, seq![key], seq![view_id])
}

/// Removing the pin under `key`.
pub open spec fn delete_pin(key: Seq<char>) -> SqlCall {
    call_of(DELETE_PIN@, seq![key], seq![])
}

/// `after` starts with the whole of `before`.
pub open spec fn extends(before: Seq<Sent>, after: Seq<Sent>) -> bool {
    &&& before.len() <= after.len()
    &&& forall|i: int| 0 <= i < before.len() ==> after[i] == before[i]
}

/// `after` is `before` followed by `calls`, each of which the store carried out.
pub open spec fn carried_out(before: Seq<Sent>, after: Seq<Sent>, calls: Seq<SqlCall>) -> bool {
    &&& extends(before, after)
    &&& after.len() == before.len() + calls.len()
    &&& forall|k: int|
        0 <= k < calls.len() ==> after[before.len() + k].call == calls[k] && after[before.len()
            + k].outcome is Done
}

/// Since `before`, the store refused a statement with a code that `e` stands for.
pub open spec fn refused_as(before: Seq<Sent>, after: Seq<Sent>, e: RepoError) -> bool {
    exists|k: int, c: Option<i32>|
        before.len() <= k < after.len() && after[k].outcome == Outcome::Refused(c) && e
            == error_for_code(c)
}

/// What was sent since `before` ends by rolling the transaction back.
pub open spec fn rolled_back(before: Seq<Sent>, after: Seq<Sent>) -> bool {
    &&& extends(before, after)
    &&& after.len() > before.len()
    &&& after.last().call == rollback()
}

/// Two runs of carried-out statements, one after the other, are one run.
pub proof fn lemma_carried_out_chain(
    a: Seq<Sent>,
    b: Seq<Sent>,
    c: Seq<Sent>,
    x: Seq<SqlCall>,
    y: Seq<SqlCall>,
)
    requires
        carried_out(a, b, x),
        carried_out(b, c, y),
    ensures
        carried_out(a, c, x + y),
{
    assert forall|k: int| 0 <= k < (x + y).len() implies c[a.len() + k].call == (x + y)[k]
        && c[a.len() + k].outcome is Done by {
        if k < x.len() {
            assert(c[a.len() + k] == b[a.len() + k]);
            assert((x + y)[k] == x[k]);
        } else {
            let m = k - x.len();
            assert(0 <= m < y.len());
            assert(b.len() + m == a.len() + k);
            assert((x + y)[k] == y[m]);
            assert(c[b.len() + m].call == y[m] && c[b.len() + m].outcome is Done);
        }
    }
}

/// Extending is transitive.
pub proof fn lemma_extends_chain(a: Seq<Sent>, b: Seq<Sent>, c: Seq<Sent>)
    requires
        extends(a, b),
        extends(b, c),
    ensures
        extends(a, c),
{
}

/// A refusal stays on record as more is sent.
pub proof fn lemma_refused_kept(a: Seq<Sent>, b: Seq<Sent>, c: Seq<Sent>, e: RepoError)
    requires
        extends(a, b),
        refused_as(a, b, e),
        extends(b, c),
    ensures
        refused_as(a, c, e),
{
    let (k, code) = choose|k: int, code: Option<i32>|
        a.len() <= k < b.len() && b[k].outcome == Outcome::Refused(code) && e == error_for_code(code);
    assert(c[k] == b[k]);
}

/// `after` is `before` followed by one statement, `call`.
pub open spec fn sent_one(before: Seq<Sent>, after: Seq<Sent>, call: SqlCall) -> bool {
    &&& extends(before, after)
    &&& after.len() == before.len() + 1
    &&& after.last().call == call
}

/// A refusal since a later point is one since an earlier point.
pub proof fn lemma_refused_earlier(a: Seq<Sent>, b: Seq<Sent>, c: Seq<Sent>, e: RepoError)
    requires
        extends(a, b),
        refused_as(b, c, e),
    ensures
        refused_as(a, c, e),
{
    let (k, code) = choose|k: int, code: Option<i32>|
        b.len() <= k < c.len() && c[k].outcome == Outcome::Refused(code) && e == error_for_code(code);
    assert(a.len() <= k < c.len() && c[k].outcome == Outcome::Refused(code));
}

} // verus!
