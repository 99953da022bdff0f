//! The repository of projects, views and pins over one SQLite connection.
use vstd::prelude::*;
use vstd::view::View as _;
use crate::display_name::{
    decode, decode_display_name, display_name_for, display_name_of, has_separator, no_separator,
};
use crate::journal::{
    begin, call_of, carried_out, commit, delete_pin, extends, insert_project, insert_view,
    lemma_carried_out_chain, lemma_extends_chain, lemma_refused_earlier, lemma_refused_kept,
    refused_as, rolled_back, sent_one, set_active_view, texts_of, upsert_pin, Outcome, Sent, BEGIN,
    COMMIT, DELETE_PIN, INSERT_PROJECT, INSERT_VIEW, ROLLBACK, SCHEMA, SET_ACTIVE_VIEW, UPSERT_PIN,
    pins_by_key_query, pins_by_view_query, pins_read, project_by_id_query, projects_read,
    read_one_more, reads_extend, views_of_project_query, views_read, Read, Rows,
    SELECT_PINS_BY_KEY, SELECT_PINS_BY_VIEW, SELECT_PROJECT_BY_ID, SELECT_VIEWS_OF_PROJECT,
    SELECT_VIEW_BY_ID,
};
use crate::lookup::{
    find_pin_by_key, find_pin_by_view, find_project_by_id, find_project_by_name, find_view_by_id,
    find_view_by_name, first_pin_for_view, pin_view_pick, view_for_pin,
};
use crate::model::{classify_store_error, error_for_code, same_view, Pin, Project, RepoError, View};
use crate::navigation::{append_plan, appended_at, neighbour_view, project_listed};
use crate::store::{execute, last_insert_rowid, query_rows, run_batch};

verus! {

/// The name of the view that a new project starts with.
pub const DEFAULT_VIEW_NAME: &'static str = "view";

/// A project whose name holds no separator shows its default view as
/// `<name>#view`, and that workspace name decodes back to the project's name
/// and `DEFAULT_VIEW_NAME`.
pub proof fn lemma_default_view_display_name(name: Seq<char>)
    requires
        no_separator(name),
    ensures
        display_name_of(name, DEFAULT_VIEW_NAME@) == name + seq!['#', 'v', 'i', 'e', 'w'],
        decode(display_name_of(name, DEFAULT_VIEW_NAME@)) == Some((name, DEFAULT_VIEW_NAME@)),
{
    reveal_strlit("view");
    assert(DEFAULT_VIEW_NAME@ =~= seq!['v', 'i', 'e', 'w']);
    assert(display_name_of(name, DEFAULT_VIEW_NAME@) =~= name + seq!['#', 'v', 'i', 'e', 'w']);
    crate::display_name::lemma_decode_display_name(name, DEFAULT_VIEW_NAME@);
}

/// An error that the store itself reported.
pub open spec fn is_store_error(e: RepoError) -> bool {
    ||| e == RepoError::DuplicateName
    ||| e == RepoError::ConstraintViolation
    ||| e == RepoError::StoreUnavailable
}

/// The repository's error for a failure that the store reported, with the
/// SQLite extended result code it stands for.
fn store_error(e: &rusqlite::Error) -> (r: (RepoError, Ghost<Option<i32>>))
    ensures
        r.0 == error_for_code(r.1@),
        is_store_error(r.0),
{
    let code = e.sqlite_extended_error_code();
    (classify_store_error(code), Ghost(code))
}

/// A copy of `v` with the same fields.
fn copy_view(v: &View) -> (r: View)
    ensures
        same_view(r, *v),
{
    View { id: v.id, name: v.name.clone(), project_id: v.project_id, position: v.position }
}

/// A query row read as a view: id, name, project id, position.
fn views_from_rows(rows: &Vec<(i64, String, i64, i64)>) -> (r: Vec<View>)
    ensures
        r@.len() == rows@.len(),
        forall|i: int|
            0 <= i < r@.len() ==> r@[i].id == rows@[i].0 && r@[i].name@ == rows@[i].1@
                && r@[i].project_id == rows@[i].2 && r@[i].position == rows@[i].3,
{
    let mut r: Vec<View> = Vec::new();
    let mut k: usize = 0;
    while k < rows.len()
        invariant
            k <= rows@.len(),
            r@.len() == k,
            forall|i: int|
                0 <= i < k ==> r@[i].id == rows@[i].0 && r@[i].name@ == rows@[i].1@
                    && r@[i].project_id == rows@[i].2 && r@[i].position == rows@[i].3,
        decreases rows.len() - k,
    {
        let row = &rows[k];
        r.push(View { id: row.0, name: row.1.clone(), project_id: row.2, position: row.3 });
        k += 1;
    }
    r
}

/// A query row read as a project: id, name, active view id, and a column that
/// is not used.
fn projects_from_rows(rows: &Vec<(i64, String, i64, i64)>) -> (r: Vec<Project>)
    ensures
        r@.len() == rows@.len(),
        forall|i: int|
            0 <= i < r@.len() ==> r@[i].id == rows@[i].0 && r@[i].name@ == rows@[i].1@
                && r@[i].active_view_id == rows@[i].2,
{
    let mut r: Vec<Project> = Vec::new();
    let mut k: usize = 0;
    while k < rows.len()
        invariant
            k <= rows@.len(),
            r@.len() == k,
            forall|i: int|
                0 <= i < k ==> r@[i].id == rows@[i].0 && r@[i].name@ == rows@[i].1@
                    && r@[i].active_view_id == rows@[i].2,
        decreases rows.len() - k,
    {
        let row = &rows[k];
        r.push(Project { active_view_id: row.2, id: row.0, name: row.1.clone() });
        k += 1;
    }
    r
}

/// A query row read as a pin: id, key, view id, and a column that is not used.
fn pins_from_rows(rows: &Vec<(i64, String, i64, i64)>) -> (r: Vec<Pin>)
    ensures
        r@.len() == rows@.len(),
        forall|i: int|
            0 <= i < r@.len() ==> r@[i].id == rows@[i].0 && r@[i].key@ == rows@[i].1@
                && r@[i].view_id == rows@[i].2,
{
    let mut r: Vec<Pin> = Vec::new();
    let mut k: usize = 0;
    while k < rows.len()
        invariant
            k <= rows@.len(),
            r@.len() == k,
            forall|i: int|
                0 <= i < k ==> r@[i].id == rows@[i].0 && r@[i].key@ == rows@[i].1@
                    && r@[i].view_id == rows@[i].2,
        decreases rows.len() - k,
    {
        let row = &rows[k];
        r.push(Pin { id: row.0, key: row.1.clone(), view_id: row.2 });
        k += 1;
    }
    r
}

/// The first query answered since `before` read project `project_id` and
/// found no row of it.
pub open spec fn project_missing(before: Seq<Read>, after: Seq<Read>, project_id: i64) -> bool {
    &&& after.len() > before.len()
    &&& after[before.len() as int].call == project_by_id_query(project_id)
    &&& !project_listed(projects_read(after[before.len() as int]), project_id)
}

/// The first two queries answered since `before` read project `project_id`,
/// found it, and read its views; `position` is one past the largest of those
/// views' positions, or `0` where there were none.
pub open spec fn appended_after(
    before: Seq<Read>,
    after: Seq<Read>,
    project_id: i64,
    position: int,
) -> bool {
    &&& after.len() >= before.len() + 2
    &&& after[before.len() as int].call == project_by_id_query(project_id)
    &&& project_listed(projects_read(after[before.len() as int]), project_id)
    &&& after[before.len() as int + 1].call == views_of_project_query(project_id)
    &&& appended_at(views_read(after[before.len() as int + 1]), project_id, position)
}

/// Since `before`, an update of a project's active view changed no row.
pub open spec fn update_missed(before: Seq<Sent>, after: Seq<Sent>) -> bool {
    exists|k: int|
        before.len() <= k < after.len() && after[k].call.sql == SET_ACTIVE_VIEW@ && after[k].outcome
            == Outcome::Done(0)
}

/// The only queries answered since `before` read the pins under `key` and
/// then the views they point at, and `v` is the view that `view_for_pin`
/// picks from them.
pub open spec fn pinned_view_read(before: Seq<Read>, after: Seq<Read>, key: Seq<char>, v: View) -> bool {
    &&& after.len() == before.len() + 2
    &&& after[before.len() as int].call == pins_by_key_query(key)
    &&& exists|i: int|
        #[trigger] pin_view_pick(
            pins_read(after[before.len() as int]),
            key,
            views_read(after[before.len() as int + 1]),
            i,
        ) && same_view(v, views_read(after[before.len() as int + 1])[i])
}

proof fn lemma_update_missed_kept(a: Seq<Sent>, b: Seq<Sent>, c: Seq<Sent>)
    requires
        extends(a, b),
        update_missed(a, b),
        extends(b, c),
    ensures
        update_missed(a, c),
{
    let k = choose|k: int|
        a.len() <= k < b.len() && b[k].call.sql == SET_ACTIVE_VIEW@ && b[k].outcome == Outcome::Done(0);
    assert(c[k] == b[k]);
}

/// Owns the connection to the store that holds all projects, views and pins,
/// and the record of the statements sent to it.
pub struct Repository {
    conn: rusqlite::Connection,
    log: Ghost<Seq<Sent>>,
    reads: Ghost<Seq<Read>>,
}

impl Repository {
    /// The statements sent to the store since this repository was made, each
    /// with the store's answer. Queries that only read are not recorded.
    pub closed spec fn sent(&self) -> Seq<Sent> {
        self.log@
    }

    /// The queries answered since this repository was made, each with the
    /// rows it returned, as far as the operations that record them go: those
    /// that take the repository mutably.
    pub closed spec fn read(&self) -> Seq<Read> {
        self.reads@
    }

    /// The views that query `sql` selects, recorded as read.
    fn read_views(&mut self, sql: &str, texts: &Vec<String>, ints: &Vec<i64>) -> (r: Result<
        Vec<View>,
        RepoError,
    >)
        ensures
            final(self).sent() == old(self).sent(),
            r matches Ok(rows) ==> read_one_more(old(self).read(), final(self).read())
                && final(self).read().last() == (Read {
                call: call_of(sql@, texts_of(texts@), ints@),
                rows: Rows::Views(rows@),
            }),
            r matches Err(e) ==> is_store_error(e) && final(self).read() == old(self).read(),
    {
        let rows = self.select_views(sql, texts, ints)?;
        self.reads = Ghost(
            self.reads@.push(Read { call: call_of(sql@, texts_of(texts@), ints@), rows: Rows::Views(rows@) }),
        );
        Ok(rows)
    }

    /// The projects that query `sql` selects, recorded as read.
    fn read_projects(&mut self, sql: &str, texts: &Vec<String>, ints: &Vec<i64>) -> (r: Result<
        Vec<Project>,
        RepoError,
    >)
        ensures
            final(self).sent() == old(self).sent(),
            r matches Ok(rows) ==> read_one_more(old(self).read(), final(self).read())
                && final(self).read().last() == (Read {
                call: call_of(sql@, texts_of(texts@), ints@),
                rows: Rows::Projects(rows@),
            }),
            r matches Err(e) ==> is_store_error(e) && final(self).read() == old(self).read(),
    {
        let rows = self.select_projects(sql, texts, ints)?;
        self.reads = Ghost(
            self.reads@.push(
                Read { call: call_of(sql@, texts_of(texts@), ints@), rows: Rows::Projects(rows@) },
            ),
        );
        Ok(rows)
    }

    /// The pins that query `sql` selects, recorded as read.
    fn read_pins(&mut self, sql: &str, texts: &Vec<String>, ints: &Vec<i64>) -> (r: Result<
        Vec<Pin>,
        RepoError,
    >)
        ensures
            final(self).sent() == old(self).sent(),
            r matches Ok(rows) ==> read_one_more(old(self).read(), final(self).read())
                && final(self).read().last() == (Read {
                call: call_of(sql@, texts_of(texts@), ints@),
                rows: Rows::Pins(rows@),
            }),
            r matches Err(e) ==> is_store_error(e) && final(self).read() == old(self).read(),
    {
        let rows = self.select_pins(sql, texts, ints)?;
        self.reads = Ghost(
            self.reads@.push(Read { call: call_of(sql@, texts_of(texts@), ints@), rows: Rows::Pins(rows@) }),
        );
        Ok(rows)
    }

    /// The views that query `sql` selects.
    fn select_views(&self, sql: &str, texts: &Vec<String>, ints: &Vec<i64>) -> (r: Result<
        Vec<View>,
        RepoError,
    >)
        ensures
            r matches Err(e) ==> is_store_error(e),
    {
        match query_rows(&self.conn, sql, texts, ints) {
            Ok(rows) => Ok(views_from_rows(&rows)),
            Err(e) => Err(store_error(&e).0),
        }
    }

    /// The projects that query `sql` selects.
    fn select_projects(&self, sql: &str, texts: &Vec<String>, ints: &Vec<i64>) -> (r: Result<
        Vec<Project>,
        RepoError,
    >)
        ensures
            r matches Err(e) ==> is_store_error(e),
    {
        match query_rows(&self.conn, sql, texts, ints) {
            Ok(rows) => Ok(projects_from_rows(&rows)),
            Err(e) => Err(store_error(&e).0),
        }
    }

    /// The pins that query `sql` selects.
    fn select_pins(&self, sql: &str, texts: &Vec<String>, ints: &Vec<i64>) -> (r: Result<
        Vec<Pin>,
        RepoError,
    >)
        ensures
            r matches Err(e) ==> is_store_error(e),
    {
        match query_rows(&self.conn, sql, texts, ints) {
            Ok(rows) => Ok(pins_from_rows(&rows)),
            Err(e) => Err(store_error(&e).0),
        }
    }

    /// Sends the one statement `sql` with `texts` and then `ints` bound to its
    /// parameters, and records it with the store's answer.
    fn send(&mut self, sql: &str, texts: &Vec<String>, ints: &Vec<i64>) -> (r: Result<
        usize,
        RepoError,
    >)
        ensures
            final(self).read() == old(self).read(),
            sent_one(old(self).sent(), final(self).sent(), call_of(sql@, texts_of(texts@), ints@)),
            match r {
                Ok(n) => final(self).sent().last().outcome == Outcome::Done(n as int),
                Err(e) => final(self).sent().last().outcome matches Outcome::Refused(c) && e
                    == error_for_code(c) && is_store_error(e),
            },
            r is Ok ==> carried_out(
                old(self).sent(),
                final(self).sent(),
                seq![call_of(sql@, texts_of(texts@), ints@)],
            ),
            r matches Err(e) ==> refused_as(old(self).sent(), final(self).sent(), e),
    {
        let ghost call = call_of(sql@, texts_of(texts@), ints@);
        let ghost before = self.log@;
        match execute(&mut self.conn, sql, texts, ints) {
            Ok(n) => {
                self.log = Ghost(self.log@.push(Sent { call, outcome: Outcome::Done(n as int) }));
                assert(self.log@[before.len() as int] == self.log@.last());
                Ok(n)
            },
            Err(e) => {
                let (err, code) = store_error(&e);
                self.log = Ghost(self.log@.push(Sent { call, outcome: Outcome::Refused(code@) }));
                assert(self.log@[before.len() as int] == self.log@.last());
                Err(err)
            },
        }
    }

    /// Sends the statements of `sql`, which bind no parameters, and records
    /// them as one statement with the store's answer.
    fn send_batch(&mut self, sql: &str) -> (r: Result<(), RepoError>)
        ensures
            final(self).read() == old(self).read(),
            sent_one(old(self).sent(), final(self).sent(), call_of(sql@, seq![], seq![])),
            match r {
                Ok(()) => final(self).sent().last().outcome == Outcome::Done(0),
                Err(e) => final(self).sent().last().outcome matches Outcome::Refused(c) && e
                    == error_for_code(c) && is_store_error(e),
            },
            r is Ok ==> carried_out(
                old(self).sent(),
                final(self).sent(),
                seq![call_of(sql@, seq![], seq![])],
            ),
            r matches Err(e) ==> refused_as(old(self).sent(), final(self).sent(), e),
    {
        let ghost call = call_of(sql@, seq![], seq![]);
        let ghost before = self.log@;
        match run_batch(&mut self.conn, sql) {
            Ok(()) => {
                self.log = Ghost(self.log@.push(Sent { call, outcome: Outcome::Done(0) }));
                assert(self.log@[before.len() as int] == self.log@.last());
                Ok(())
            },
            Err(e) => {
                let (err, code) = store_error(&e);
                self.log = Ghost(self.log@.push(Sent { call, outcome: Outcome::Refused(code@) }));
                assert(self.log@[before.len() as int] == self.log@.last());
                Err(err)
            },
        }
    }

    /// Prepares the store behind `conn` by running `SCHEMA`, which creates
    /// what is missing and leaves existing rows alone.
    pub fn new(conn: rusqlite::Connection) -> (r: Result<Repository, RepoError>)
        ensures
            r matches Ok(repo) ==> repo.sent() == seq![
                Sent { call: call_of(SCHEMA@, seq![], seq![]), outcome: Outcome::Done(0) },
            ] && repo.read() == Seq::<Read>::empty(),
            r matches Err(e) ==> is_store_error(e),
    {
        let mut conn = conn;
        match run_batch(&mut conn, SCHEMA) {
            Ok(()) => {
                let ghost first = Sent { call: call_of(SCHEMA@, seq![], seq![]), outcome: Outcome::Done(0) };
                Ok(Repository { conn, log: Ghost(Seq::empty().push(first)), reads: Ghost(Seq::empty()) })
            },
            Err(e) => Err(store_error(&e).0),
        }
    }

    /// The view with id `id`; `None` when there is none or the store fails.
    pub fn get_view_by_id(&self, id: i64) -> (r: Option<View>)
        ensures
            r matches Some(v) ==> v.id == id,
    {
        let rows = match self.select_views(
            "SELECT id, name, project_id, position FROM views WHERE id = ?1",
            &Vec::new(),
            &vec![id],
        ) {
            Ok(rows) => rows,
            Err(_) => return None,
        };
        match find_view_by_id(&rows, id) {
            Some(i) => Some(copy_view(&rows[i])),
            None => None,
        }
    }

    /// Ends the open transaction by rolling it back, and fails with `e`.
    fn roll_back<T>(&mut self, e: RepoError) -> (r: Result<T, RepoError>)
        ensures
            final(self).read() == old(self).read(),
            r == Err::<T, RepoError>(e),
            rolled_back(old(self).sent(), final(self).sent()),
    {
        let _ = self.send_batch(ROLLBACK);
        Err(e)
    }

    /// Ends the open transaction by committing it, and hands back `value`;
    /// rolls back where the commit is refused.
    fn commit<T>(&mut self, value: T) -> (r: Result<T, RepoError>)
        ensures
            final(self).read() == old(self).read(),
            r matches Ok(v) ==> v == value && carried_out(
                old(self).sent(),
                final(self).sent(),
                seq![commit()],
            ),
            r matches Err(e) ==> is_store_error(e) && refused_as(
                old(self).sent(),
                final(self).sent(),
                e,
            ) && rolled_back(old(self).sent(), final(self).sent()),
    {
        let ghost before = self.sent();
        match self.send_batch(COMMIT) {
            Ok(()) => Ok(value),
            Err(e) => {
                let ghost mid = self.sent();
                let r = self.roll_back(e);
                proof {
                    lemma_refused_kept(before, mid, self.sent(), e);
                    lemma_extends_chain(before, mid, self.sent());
                }
                r
            },
        }
    }

    /// Fails with `e`, which the store gave since `before`, after rolling the
    /// open transaction back.
    fn abort<T>(&mut self, e: RepoError, before: Ghost<Seq<Sent>>) -> (r: Result<T, RepoError>)
        requires
            extends(before@, old(self).sent()),
        ensures
            extends(old(self).sent(), final(self).sent()),
            final(self).read() == old(self).read(),
            r == Err::<T, RepoError>(e),
            rolled_back(before@, final(self).sent()),
            refused_as(before@, old(self).sent(), e) ==> refused_as(before@, final(self).sent(), e),
    {
        let ghost mid = self.sent();
        let r = self.roll_back(e);
        proof {
            lemma_extends_chain(before@, mid, self.sent());
            if refused_as(before@, mid, e) {
                lemma_refused_kept(before@, mid, self.sent(), e);
            }
        }
        r
    }

    /// Creates project `name` with one view, named `DEFAULT_VIEW_NAME` at
    /// position 0, as its active view, all in one transaction; returns the
    /// project's id. A name that holds the separator is refused before
    /// anything is sent. Where the store refuses a statement the transaction
    /// is rolled back and the error says why: a name already taken is refused
    /// as a `UNIQUE` violation, which is `DuplicateName`.
    pub fn add_project(&mut self, name: &str) -> (r: Result<i64, RepoError>)
        ensures
            !no_separator(name@) <==> r == Err::<i64, RepoError>(RepoError::ReservedCharacter),
            !no_separator(name@) ==> *final(self) == *old(self),
            r matches Ok(id) ==> exists|view_id: i64|
                #![trigger set_active_view(view_id, id)]
                carried_out(
                    old(self).sent(),
                    final(self).sent(),
                    seq![
                        begin(),
                        insert_project(name@),
                        insert_view(DEFAULT_VIEW_NAME@, id, 0),
                        set_active_view(view_id, id),
                        commit(),
                    ],
                ),
            r matches Err(e) ==> e == RepoError::ReservedCharacter || (is_store_error(e)
                && refused_as(old(self).sent(), final(self).sent(), e) && rolled_back(
                old(self).sent(),
                final(self).sent(),
            )),
    {
        if has_separator(name) {
            return Err(RepoError::ReservedCharacter);
        }
        let ghost before = self.sent();
        if let Err(e) = self.send_batch(BEGIN) {
            return self.abort(e, Ghost(before));
        }
        let ghost opened = self.sent();
        match self.insert_project_rows(name) {
            Ok((project_id, view_id)) => {
                let ghost inserted = self.sent();
                let r = self.commit(project_id);
                proof {
                    lemma_extends_chain(before, opened, inserted);
                    if r is Ok {
                        let x = seq![begin()];
                        let y = seq![
                            insert_project(name@),
                            insert_view(DEFAULT_VIEW_NAME@, project_id, 0),
                            set_active_view(view_id, project_id),
                        ];
                        lemma_carried_out_chain(before, opened, inserted, x, y);
                        lemma_carried_out_chain(before, inserted, self.sent(), x + y, seq![commit()]);
                        assert(x + y + seq![commit()] =~= seq![
                            begin(),
                            insert_project(name@),
                            insert_view(DEFAULT_VIEW_NAME@, project_id, 0),
                            set_active_view(view_id, project_id),
                            commit(),
                        ]);
                        assert(carried_out(
                            before,
                            self.sent(),
                            seq![
                                begin(),
                                insert_project(name@),
                                insert_view(DEFAULT_VIEW_NAME@, project_id, 0),
                                set_active_view(view_id, project_id),
                                commit(),
                            ],
                        ));
                    } else {
                        let e = r->Err_0;
                        lemma_refused_earlier(before, inserted, self.sent(), e);
                        lemma_extends_chain(before, inserted, self.sent());
                    }
                }
                r
            },
            Err(e) => {
                proof {
                    lemma_refused_earlier(before, opened, self.sent(), e);
                    lemma_extends_chain(before, opened, self.sent());
                }
                self.abort(e, Ghost(before))
            },
        }
    }

    /// The three writes that create project `name` and its first view;
    /// returns the ids of both.
    fn insert_project_rows(&mut self, name: &str) -> (r: Result<(i64, i64), RepoError>)
        ensures
            extends(old(self).sent(), final(self).sent()),
            r matches Ok((id, view_id)) ==> carried_out(
                old(self).sent(),
                final(self).sent(),
                seq![
                    insert_project(name@),
                    insert_view(DEFAULT_VIEW_NAME@, id, 0),
                    set_active_view(view_id, id),
                ],
            ),
            r matches Err(e) ==> is_store_error(e) && refused_as(
                old(self).sent(),
                final(self).sent(),
                e,
            ),
    {
        let ghost s0 = self.sent();
        let texts = vec![name.to_owned()];
        assert(texts_of(texts@) =~= seq![name@]);
        if let Err(e) = self.send(INSERT_PROJECT, &texts, &Vec::new()) {
            return Err(e);
        }
        let ghost s1 = self.sent();
        let project_id = last_insert_rowid(&self.conn);
        let texts = vec![DEFAULT_VIEW_NAME.to_owned()];
        let ints = vec![project_id, 0];
        assert(texts_of(texts@) =~= seq![DEFAULT_VIEW_NAME@]);
        assert(ints@ =~= seq![project_id, 0]);
        if let Err(e) = self.send(INSERT_VIEW, &texts, &ints) {
            proof {
                lemma_refused_earlier(s0, s1, self.sent(), e);
            }
            return Err(e);
        }
        let ghost s2 = self.sent();
        let view_id = last_insert_rowid(&self.conn);
        let ints = vec![view_id, project_id];
        assert(ints@ =~= seq![view_id, project_id]);
        let texts: Vec<String> = Vec::new();
        assert(texts_of(texts@) =~= seq![]);
        if let Err(e) = self.send(SET_ACTIVE_VIEW, &texts, &ints) {
            proof {
                lemma_extends_chain(s0, s1, s2);
                lemma_refused_earlier(s0, s2, self.sent(), e);
            }
            return Err(e);
        }
        proof {
            let a = seq![insert_project(name@)];
            let b = seq![insert_view(DEFAULT_VIEW_NAME@, project_id, 0)];
            let c = seq![set_active_view(view_id, project_id)];
            lemma_carried_out_chain(s0, s1, s2, a, b);
            lemma_carried_out_chain(s0, s2, self.sent(), a + b, c);
            assert(a + b + c =~= seq![
                insert_project(name@),
                insert_view(DEFAULT_VIEW_NAME@, project_id, 0),
                set_active_view(view_id, project_id),
            ]);
            assert(carried_out(
                s0,
                self.sent(),
                seq![
                    insert_project(name@),
                    insert_view(DEFAULT_VIEW_NAME@, project_id, 0),
                    set_active_view(view_id, project_id),
                ],
            ));
        }
        Ok((project_id, view_id))
    }

    /// Every project, in the order in which they were created.
    pub fn list_projects(&self) -> (r: Result<Vec<Project>, RepoError>)
        ensures
            r matches Err(e) ==> is_store_error(e),
    {
        self.select_projects(
            "SELECT id, name, active_view_id, 0 FROM projects ORDER BY id",
            &Vec::new(),
            &Vec::new(),
        )
    }

    /// The project with id `id`; `None` when there is none or the store fails.
    pub fn get_project_by_id(&self, id: i64) -> (r: Option<Project>)
        ensures
            r matches Some(p) ==> p.id == id,
    {
        let rows = match self.select_projects(
            "SELECT id, name, active_view_id, 0 FROM projects WHERE id = ?1",
            &Vec::new(),
            &vec![id],
        ) {
            Ok(rows) => rows,
            Err(_) => return None,
        };
        match find_project_by_id(&rows, id) {
            Some(i) => Some(
                Project {
                    active_view_id: rows[i].active_view_id,
                    id: rows[i].id,
                    name: rows[i].name.clone(),
                },
            ),
            None => None,
        }
    }

    /// The project named `name`; `None` when there is none or the store fails.
    pub fn get_project_by_name(&self, name: &str) -> (r: Option<Project>)
        ensures
            r matches Some(p) ==> p.name@ == name@,
    {
        let name = name.to_owned();
        let rows = match self.select_projects(
            "SELECT id, name, active_view_id, 0 FROM projects WHERE name = ?1",
            &vec![name.clone()],
            &Vec::new(),
        ) {
            Ok(rows) => rows,
            Err(_) => return None,
        };
        match find_project_by_name(&rows, &name) {
            Some(i) => Some(
                Project {
                    active_view_id: rows[i].active_view_id,
                    id: rows[i].id,
                    name: rows[i].name.clone(),
                },
            ),
            None => None,
        }
    }

    /// The view that `project` marks active; `None` when that view cannot be
    /// found among the project's views.
    pub fn get_active_view_for_project(&self, project: &Project) -> (r: Option<View>)
        ensures
            r matches Some(v) ==> v.id == project.active_view_id && v.project_id == project.id,
    {
        match self.get_view_by_id(project.active_view_id) {
            Some(v) => if v.project_id == project.id {
                Some(v)
            } else {
                None
            },
            None => None,
        }
    }

    /// The views of project `project_id`, by position.
    fn views_of_project(&self, project_id: i64) -> (r: Result<Vec<View>, RepoError>)
        ensures
            r matches Err(e) ==> is_store_error(e),
    {
        self.select_views(
            "SELECT id, name, project_id, position FROM views WHERE project_id = ?1 ORDER BY position",
            &Vec::new(),
            &vec![project_id],
        )
    }

    /// Points project `project_id` at view `view_id`; fails with
    /// `ProjectNotFound` where the update changed no row.
    fn write_active_view(&mut self, project_id: i64, view_id: i64) -> (r: Result<(), RepoError>)
        ensures
            final(self).read() == old(self).read(),
            sent_one(old(self).sent(), final(self).sent(), set_active_view(view_id, project_id)),
            r is Ok <==> (final(self).sent().last().outcome matches Outcome::Done(n) && n != 0),
            r == Err::<(), RepoError>(RepoError::ProjectNotFound) <==> final(self).sent().last().outcome
                == Outcome::Done(0),
            r matches Err(e) ==> e == RepoError::ProjectNotFound || (final(self).sent().last().outcome
                matches Outcome::Refused(c) && e == error_for_code(c) && is_store_error(e)),
            r is Ok ==> carried_out(
                old(self).sent(),
                final(self).sent(),
                seq![set_active_view(view_id, project_id)],
            ),
    {
        let texts: Vec<String> = Vec::new();
        let ints = vec![view_id, project_id];
        assert(texts_of(texts@) =~= seq![]);
        assert(ints@ =~= seq![view_id, project_id]);
        match self.send(SET_ACTIVE_VIEW, &texts, &ints) {
            Ok(0) => Err(RepoError::ProjectNotFound),
            Ok(_) => Ok(()),
            Err(e) => Err(e),
        }
    }

    /// Appends view `name` to `project`, one position past its last view, and
    /// makes it the project's active view, all in one transaction that holds
    /// the store's write lock throughout. A name that holds the separator is
    /// refused before anything is sent. Within the transaction it reads the
    /// project, failing with `ProjectNotFound` where no row of it comes back,
    /// and then the project's views, whose largest position decides where the
    /// new view goes.
    pub fn add_view_to_project(&mut self, project: &Project, name: &str) -> (r: Result<
        View,
        RepoError,
    >)
        ensures
            !no_separator(name@) <==> r == Err::<View, RepoError>(RepoError::ReservedCharacter),
            !no_separator(name@) ==> *final(self) == *old(self),
            reads_extend(old(self).read(), final(self).read()),
            r matches Ok(v) ==> v.project_id == project.id && v.name@ == name@ && carried_out(
                old(self).sent(),
                final(self).sent(),
                seq![
                    begin(),
                    insert_view(name@, project.id, v.position),
                    set_active_view(v.id, project.id),
                    commit(),
                ],
            ) && appended_after(old(self).read(), final(self).read(), project.id, v.position as int),
            project_missing(old(self).read(), final(self).read(), project.id) ==> r == Err::<
                View,
                RepoError,
            >(RepoError::ProjectNotFound),
            r == Err::<View, RepoError>(RepoError::ProjectNotFound) ==> project_missing(
                old(self).read(),
                final(self).read(),
                project.id,
            ) || update_missed(old(self).sent(), final(self).sent()),
            r matches Err(e) ==> e == RepoError::ReservedCharacter || ((e
                == RepoError::ProjectNotFound || is_store_error(e)) && rolled_back(
                old(self).sent(),
                final(self).sent(),
            )),
    {
        if has_separator(name) {
            return Err(RepoError::ReservedCharacter);
        }
        let ghost before = self.sent();
        if let Err(e) = self.send_batch(BEGIN) {
            return self.abort(e, Ghost(before));
        }
        let ghost opened = self.sent();
        match self.append_view(project.id, name) {
            Ok(view) => {
                let ghost appended = self.sent();
                let r = self.commit(view);
                proof {
                    lemma_extends_chain(before, opened, appended);
                    if r is Ok {
                        let x = seq![begin()];
                        let y = seq![
                            insert_view(name@, project.id, view.position),
                            set_active_view(view.id, project.id),
                        ];
                        lemma_carried_out_chain(before, opened, appended, x, y);
                        lemma_carried_out_chain(before, appended, self.sent(), x + y, seq![commit()]);
                        assert(x + y + seq![commit()] =~= seq![
                            begin(),
                            insert_view(name@, project.id, view.position),
                            set_active_view(view.id, project.id),
                            commit(),
                        ]);
                    } else {
                        lemma_extends_chain(before, appended, self.sent());
                    }
                }
                r
            },
            Err(e) => {
                let ghost failed = self.sent();
                proof {
                    lemma_extends_chain(before, opened, failed);
                }
                let r = self.abort(e, Ghost(before));
                proof {
                    if update_missed(opened, failed) {
                        let k = choose|k: int|
                            opened.len() <= k < failed.len() && failed[k].call.sql == SET_ACTIVE_VIEW@
                                && failed[k].outcome == Outcome::Done(0);
                        assert(self.sent()[k] == failed[k]);
                        assert(before.len() <= k < self.sent().len());
                    }
                }
                r
            },
        }
    }

    /// The reads and writes that append view `name` to project `project_id`
    /// and make it active.
    fn append_view(&mut self, project_id: i64, name: &str) -> (r: Result<View, RepoError>)
        ensures
            extends(old(self).sent(), final(self).sent()),
            reads_extend(old(self).read(), final(self).read()),
            r matches Ok(v) ==> v.project_id == project_id && v.name@ == name@ && carried_out(
                old(self).sent(),
                final(self).sent(),
                seq![insert_view(name@, project_id, v.position), set_active_view(v.id, project_id)],
            ) && appended_after(old(self).read(), final(self).read(), project_id, v.position as int),
            project_missing(old(self).read(), final(self).read(), project_id) ==> r == Err::<
                View,
                RepoError,
            >(RepoError::ProjectNotFound),
            r == Err::<View, RepoError>(RepoError::ProjectNotFound) ==> project_missing(
                old(self).read(),
                final(self).read(),
                project_id,
            ) || update_missed(old(self).sent(), final(self).sent()),
            r matches Err(e) ==> e == RepoError::ProjectNotFound || is_store_error(e),
    {
        let ghost r0 = self.read();
        let no_texts: Vec<String> = Vec::new();
        let ids = vec![project_id];
        assert(texts_of(no_texts@) =~= seq![]);
        assert(ids@ =~= seq![project_id]);
        let projects = self.read_projects(SELECT_PROJECT_BY_ID, &no_texts, &ids)?;
        let ghost r1 = self.read();
        assert(r1[r0.len() as int] == r1.last());
        if find_project_by_id(&projects, project_id).is_none() {
            return Err(RepoError::ProjectNotFound);
        }
        let rows = match self.read_views(SELECT_VIEWS_OF_PROJECT, &no_texts, &ids) {
            Ok(rows) => rows,
            Err(e) => return Err(e),
        };
        let ghost r2 = self.read();
        assert(r2[r0.len() as int] == r1[r0.len() as int]);
        assert(r2[r0.len() as int + 1] == r2.last());
        let position = append_plan(&projects, &rows, project_id)?;
        let ghost s0 = self.sent();
        let name = name.to_owned();
        let texts = vec![name.clone()];
        let ints = vec![project_id, position];
        assert(texts_of(texts@) =~= seq![name@]);
        assert(ints@ =~= seq![project_id, position]);
        if let Err(e) = self.send(INSERT_VIEW, &texts, &ints) {
            return Err(e);
        }
        let ghost s1 = self.sent();
        let view_id = last_insert_rowid(&self.conn);
        if let Err(e) = self.write_active_view(project_id, view_id) {
            proof {
                lemma_extends_chain(s0, s1, self.sent());
                if e == RepoError::ProjectNotFound {
                    assert(self.sent()[s1.len() as int] == self.sent().last());
                }
            }
            return Err(e);
        }
        proof {
            let a = seq![insert_view(name@, project_id, position)];
            let b = seq![set_active_view(view_id, project_id)];
            lemma_carried_out_chain(s0, s1, self.sent(), a, b);
            assert(a + b =~= seq![
                insert_view(name@, project_id, position),
                set_active_view(view_id, project_id),
            ]);
        }
        Ok(View { id: view_id, name, project_id, position })
    }

    /// The view after the active one in the project's cycle of positions:
    /// the next higher position, or the lowest one from the highest. Reads
    /// only; the caller makes it active. `neighbour_view` decides from the
    /// project's views as the store returned them, and gives `NoActiveView`
    /// when none of them is the project's active view.
    pub fn get_next_view_for_project(&self, project: &Project) -> (r: Result<View, RepoError>)
        ensures
            r matches Ok(v) ==> v.project_id == project.id,
            r matches Err(e) ==> e == RepoError::NoActiveView || is_store_error(e),
    {
        let rows = self.views_of_project(project.id)?;
        let i = neighbour_view(&rows, project, true)?;
        Ok(copy_view(&rows[i]))
    }

    /// The view before the active one in the project's cycle of positions:
    /// the next lower position, or the highest one from the lowest. Reads
    /// only; the caller makes it active. `neighbour_view` decides from the
    /// project's views as the store returned them, and gives `NoActiveView`
    /// when none of them is the project's active view.
    pub fn get_prev_view_for_project(&self, project: &Project) -> (r: Result<View, RepoError>)
        ensures
            r matches Ok(v) ==> v.project_id == project.id,
            r matches Err(e) ==> e == RepoError::NoActiveView || is_store_error(e),
    {
        let rows = self.views_of_project(project.id)?;
        let i = neighbour_view(&rows, project, false)?;
        Ok(copy_view(&rows[i]))
    }

    /// Makes `view` the active view of `project`. A view of another project is
    /// refused with `ViewNotInProject`, and nothing is sent; a project that
    /// the update finds no row of gives `ProjectNotFound`.
    pub fn set_active_view_for_project(&mut self, project: &Project, view: &View) -> (r: Result<
        View,
        RepoError,
    >)
        ensures
            view.project_id != project.id <==> r == Err::<View, RepoError>(
                RepoError::ViewNotInProject,
            ),
            view.project_id != project.id ==> *final(self) == *old(self),
            view.project_id == project.id ==> sent_one(
                old(self).sent(),
                final(self).sent(),
                set_active_view(view.id, project.id),
            ),
            r matches Ok(v) ==> same_view(v, *view) && (final(self).sent().last().outcome matches Outcome::Done(n) && n != 0),
            view.project_id == project.id ==> (r == Err::<View, RepoError>(RepoError::ProjectNotFound)
                <==> final(self).sent().last().outcome == Outcome::Done(0)),
            r matches Err(e) ==> e == RepoError::ViewNotInProject || e == RepoError::ProjectNotFound
                || (final(self).sent().last().outcome matches Outcome::Refused(c) && e
                == error_for_code(c) && is_store_error(e)),
    {
        if view.project_id != project.id {
            return Err(RepoError::ViewNotInProject);
        }
        match self.write_active_view(project.id, view.id) {
            Ok(()) => Ok(copy_view(view)),
            Err(e) => Err(e),
        }
    }

    /// The workspace name of `view`: its project's name and its own, joined by
    /// the separator, as `display_name_for` builds it from the project's name
    /// that the store returned. `None` when the project cannot be read, or
    /// when either name holds the separator and so could not be decoded again.
    pub fn get_window_manager_display_name(&self, view: &View) -> (r: Option<String>)
        ensures
            !no_separator(view.name@) ==> r is None,
            r matches Some(s) ==> exists|p: Project|
                #![trigger display_name_of(p.name@, view.name@)]
                p.id == view.project_id && no_separator(p.name@) && s@ == display_name_of(
                    p.name@,
                    view.name@,
                ),
            r matches Some(s) ==> decode(s@) matches Some((pn, vn)) && vn == view.name@,
    {
        let project = self.get_project_by_id(view.project_id)?;
        let r = display_name_for(project.name.as_str(), view);
        proof {
            if r is Some {
                crate::display_name::lemma_decode_display_name(project.name@, view.name@);
                assert(display_name_of(project.name@, view.name@) == r->Some_0@);
            }
        }
        r
    }

    /// The project and view that workspace name `name` stands for.
    fn resolve_display_name(&self, name: &str) -> (r: Option<(Project, View)>)
        ensures
            decode(name@) is None ==> r is None,
            r matches Some((p, v)) ==> decode(name@) == Some((p.name@, v.name@)) && v.project_id
                == p.id,
    {
        let (project_name, view_name) = decode_display_name(name)?;
        let project = self.get_project_by_name(project_name.as_str())?;
        let rows = match self.views_of_project(project.id) {
            Ok(rows) => rows,
            Err(_) => return None,
        };
        match find_view_by_name(&rows, project.id, &view_name) {
            Some(i) => Some((project, copy_view(&rows[i]))),
            None => None,
        }
    }

    /// The project that workspace name `name` belongs to; `None` when `name`
    /// does not hold exactly one separator, or names no project, or no view
    /// of that project: a name that this repository does not manage.
    pub fn get_project_from_window_manager_display_name(&self, name: &str) -> (r: Option<
        Project,
    >)
        ensures
            decode(name@) is None ==> r is None,
            r matches Some(p) ==> decode(name@) matches Some((pn, vn)) && pn == p.name@,
    {
        let (project, _view) = self.resolve_display_name(name)?;
        Some(project)
    }

    /// The view that workspace name `name` stands for; `None` when `name` does
    /// not hold exactly one separator or names no view of this repository.
    pub fn get_view_from_window_manager_display_name(&self, name: &str) -> (r: Option<View>)
        ensures
            decode(name@) is None ==> r is None,
            r matches Some(v) ==> decode(name@) matches Some((pn, vn)) && vn == v.name@,
    {
        let (_project, view) = self.resolve_display_name(name)?;
        Some(view)
    }

    /// Pins `view` under `key`, replacing the view that `key` pointed at
    /// before; returns the id of the pin row now stored under `key`.
    pub fn upsert_pin(&mut self, key: &str, view: &View) -> (r: Result<i64, RepoError>)
        ensures
            sent_one(old(self).sent(), final(self).sent(), upsert_pin(key@, view.id)),
            r is Ok ==> final(self).sent().last().outcome is Done,
            r matches Err(e) ==> is_store_error(e),
    {
        let key = key.to_owned();
        let texts = vec![key.clone()];
        let ints = vec![view.id];
        assert(texts_of(texts@) =~= seq![key@]);
        assert(ints@ =~= seq![view.id]);
        self.send(UPSERT_PIN, &texts, &ints)?;
        let rows = self.select_pins(
            "SELECT id, key, view_id, 0 FROM pins WHERE key = ?1",
            &vec![key.clone()],
            &Vec::new(),
        )?;
        match find_pin_by_key(&rows, &key) {
            Some(i) => Ok(rows[i].id),
            None => Err(RepoError::ConstraintViolation),
        }
    }

    /// Removes the pin under `key`; a key without a pin is no error.
    pub fn clear_pin(&mut self, key: &str) -> (r: Result<(), RepoError>)
        ensures
            sent_one(old(self).sent(), final(self).sent(), delete_pin(key@)),
            r is Ok <==> final(self).sent().last().outcome is Done,
            r matches Err(e) ==> final(self).sent().last().outcome matches Outcome::Refused(c) && e
                == error_for_code(c) && is_store_error(e),
    {
        let texts = vec![key.to_owned()];
        let ints: Vec<i64> = Vec::new();
        assert(texts_of(texts@) =~= seq![key@]);
        assert(ints@ =~= seq![]);
        match self.send(DELETE_PIN, &texts, &ints) {
            Ok(_) => Ok(()),
            Err(e) => Err(e),
        }
    }

    /// The view pinned under `key`, as `view_for_pin` picks it out of the pins
    /// under `key` and the views they point at, both read from the store and
    /// recorded; `None` when no pin has that key, its view cannot be read, or
    /// the store fails.
    pub fn get_view_for_pin_key(&mut self, key: &str) -> (r: Option<View>)
        ensures
            final(self).sent() == old(self).sent(),
            reads_extend(old(self).read(), final(self).read()),
            final(self).read().len() > old(self).read().len() ==> final(self).read()[old(self).read().len() as int].call == pins_by_key_query(key@),
            r matches Some(v) ==> pinned_view_read(old(self).read(), final(self).read(), key@, v),
            final(self).read().len() == old(self).read().len() + 2 && r is None ==> forall|i: int|
                !#[trigger] pin_view_pick(
                    pins_read(final(self).read()[old(self).read().len() as int]),
                    key@,
                    views_read(final(self).read()[old(self).read().len() as int + 1]),
                    i,
                ),
    {
        let ghost r0 = self.read();
        let key = key.to_owned();
        let texts = vec![key.clone()];
        let no_ints: Vec<i64> = Vec::new();
        assert(texts_of(texts@) =~= seq![key@]);
        assert(no_ints@ =~= seq![]);
        let pins = match self.read_pins(SELECT_PINS_BY_KEY, &texts, &no_ints) {
            Ok(rows) => rows,
            Err(_) => return None,
        };
        let ghost r1 = self.read();
        assert(r1[r0.len() as int] == r1.last());
        let p = find_pin_by_key(&pins, &key)?;
        let no_texts: Vec<String> = Vec::new();
        let views = match self.read_views(SELECT_VIEW_BY_ID, &no_texts, &vec![pins[p].view_id]) {
            Ok(rows) => rows,
            Err(_) => return None,
        };
        let ghost r2 = self.read();
        assert(r2[r0.len() as int] == r1[r0.len() as int]);
        assert(r2[r0.len() as int + 1] == r2.last());
        match view_for_pin(&pins, &key, &views) {
            Some(i) => {
                let v = copy_view(&views[i]);
                assert(pins_read(r2[r0.len() as int]) == pins@);
                assert(views_read(r2[r0.len() as int + 1]) == views@);
                assert(pin_view_pick(pins@, key@, views@, i as int));
                assert(same_view(v, views_read(r2[r0.len() as int + 1])[i as int]));
                Some(v)
            },
            None => None,
        }
    }

    /// The key of the earliest pin that points at `view`, read from the store
    /// and recorded; `None` when no pin does or the store fails.
    pub fn get_pin_key_for_view(&mut self, view: &View) -> (r: Option<String>)
        ensures
            final(self).sent() == old(self).sent(),
            reads_extend(old(self).read(), final(self).read()),
            final(self).read().len() > old(self).read().len() ==> final(self).read().len()
                == old(self).read().len() + 1 && final(self).read()[old(self).read().len() as int].call == pins_by_view_query(view.id),
            r matches Some(k) ==> final(self).read().len() == old(self).read().len() + 1
                && exists|i: int|
                first_pin_for_view(
                    pins_read(final(self).read()[old(self).read().len() as int]),
                    view.id,
                    i,
                ) && k@ == pins_read(final(self).read()[old(self).read().len() as int])[i].key@,
            final(self).read().len() == old(self).read().len() + 1 ==> (r is None <==> forall|j: int|
                0 <= j < pins_read(final(self).read()[old(self).read().len() as int]).len()
                    ==> pins_read(final(self).read()[old(self).read().len() as int])[j].view_id
                    != view.id),
    {
        let ghost r0 = self.read();
        let no_texts: Vec<String> = Vec::new();
        let ids = vec![view.id];
        assert(texts_of(no_texts@) =~= seq![]);
        assert(ids@ =~= seq![view.id]);
        let rows = match self.read_pins(SELECT_PINS_BY_VIEW, &no_texts, &ids) {
            Ok(rows) => rows,
            Err(_) => return None,
        };
        let ghost r1 = self.read();
        assert(r1[r0.len() as int] == r1.last());
        match find_pin_by_view(&rows, view.id) {
            Some(i) => {
                let k = rows[i].key.clone();
                assert(pins_read(r1[r0.len() as int]) == rows@);
                assert(first_pin_for_view(rows@, view.id, i as int));
                Some(k)
            },
            None => None,
        }
    }
}

} // verus!
