//! Materialized views: the statements a view table is driven with, the
//! insert-or-update decision taken from the caller's context, and a table
//! of views that enforces the version counter.
use vstd::prelude::*;
use crate::error::MysqlAggregateError;

verus! {

/// The statement that inserts a view row into the table `q`.
pub open spec fn insert_sql_of(q: Seq<char>) -> Seq<char> {
    "INSERT INTO "@ + q + " (payload, version, query_instance_id) VALUES ( ?, ?, ? )"@
}

/// The statement that updates a view row of the table `q`; it matches the
/// previously observed version too, so that a lost update is detected.
pub open spec fn update_sql_of(q: Seq<char>) -> Seq<char> {
    "UPDATE "@ + q + " SET payload= ? , version= ? WHERE query_instance_id= ? AND version= ?"@
}

/// The statement that reads a view row of the table `q`.
pub open spec fn select_sql_of(q: Seq<char>) -> Seq<char> {
    "SELECT version,payload FROM "@ + q + " WHERE query_instance_id= ?"@
}

/// The three statements for the view table named after a query.
pub struct ViewStatements {
    pub insert_sql: String,
    pub update_sql: String,
    pub select_sql: String,
}

impl ViewStatements {
    /// The statements for the table named `query_name`.
    pub fn new(query_name: &str) -> (r: ViewStatements)
        ensures
            r.insert_sql@ == insert_sql_of(query_name@),
            r.update_sql@ == update_sql_of(query_name@),
            r.select_sql@ == select_sql_of(query_name@),
    {
        let mut insert_sql = String::from_str("INSERT INTO ");
        insert_sql.append(query_name);
        insert_sql.append(" (payload, version, query_instance_id) VALUES ( ?, ?, ? )");
        let mut update_sql = String::from_str("UPDATE ");
        update_sql.append(query_name);
        update_sql.append(" SET payload= ? , version= ? WHERE query_instance_id= ? AND version= ?");
        let mut select_sql = String::from_str("SELECT version,payload FROM ");
        select_sql.append(query_name);
        select_sql.append(" WHERE query_instance_id= ?");
        ViewStatements { insert_sql, update_sql, select_sql }
    }
}

/// The optimistic-lock token carried from a view's load to its next write.
#[derive(Debug, Clone, PartialEq)]
pub struct QueryContext {
    pub view_instance_id: String,
    /// The version last observed; 0 means the view was never stored.
    pub version: u64,
}

impl QueryContext {
    pub fn new(view_instance_id: String, version: u64) -> (r: QueryContext)
        ensures
            r.view_instance_id == view_instance_id,
            r.version == version,
    {
        QueryContext { view_instance_id, version }
    }
}

/// How a view is written: as a new row, or over the row at a known version.
#[derive(Debug, Clone, Copy, PartialEq, Eq)]
pub enum ViewWrite {
    Insert,
    Update { expected_version: u64 },
}

/// The write that a context asks for, and the version it stores.
#[derive(Debug, Clone, Copy, PartialEq, Eq)]
pub struct WritePlan {
    pub write: ViewWrite,
    pub new_version: u64,
}

/// The write for a context whose observed version is `v`; none past the
/// largest version.
pub open spec fn plan_of(v: u64) -> Option<WritePlan> {
    if v == u64::MAX {
        None
    } else if v == 0 {
        Some(WritePlan { write: ViewWrite::Insert, new_version: 1 })
    } else {
        Some(WritePlan { write: ViewWrite::Update { expected_version: v }, new_version: (v + 1) as u64 })
    }
}

/// Decides from the context alone whether a view is inserted or updated:
/// version 0 inserts, any other version updates the row stored at that
/// version. The stored version is always the observed one plus one.
pub fn plan_view_write(context: &QueryContext) -> (r: Result<WritePlan, MysqlAggregateError>)
    ensures
        r is Ok <==> plan_of(context.version) is Some,
        r matches Ok(p) ==> Some(p) == plan_of(context.version),
        r matches Err(e) ==> e is UnknownError,
{
    if context.version == u64::MAX {
        return Err(MysqlAggregateError::UnknownError(String::from_str("view version overflow")));
    }
    let new_version = context.version + 1;
    if context.version == 0 {
        Ok(WritePlan { write: ViewWrite::Insert, new_version })
    } else {
        Ok(WritePlan { write: ViewWrite::Update { expected_version: context.version }, new_version })
    }
}

/// The outcome of an update statement that matched `rows_affected` rows:
/// none matched means the row was changed by another writer since it was read.
pub fn update_outcome(rows_affected: u64) -> (r: Result<(), MysqlAggregateError>)
    ensures
        r is Ok <==> rows_affected > 0,
        r matches Err(e) ==> e is OptimisticLock,
{
    if rows_affected == 0 {
        Err(MysqlAggregateError::OptimisticLock)
    } else {
        Ok(())
    }
}

/// A view written with context version 0 to an instance that has no row yet
/// is accepted and stored at version 1 with exactly its payload, which is
/// what a following load returns.
pub proof fn lemma_view_round_trip(m: Map<Seq<char>, (u64, Seq<char>)>, id: Seq<char>, payload: Seq<char>)
    requires
        !m.contains_key(id),
    ensures
        write_accepted(m, id, 0),
        after_write(m, id, 0, payload).contains_key(id),
        after_write(m, id, 0, payload)[id] == (1u64, payload),
{
}

/// A write whose context is behind the stored version is refused and leaves
/// every stored view as it was.
pub proof fn lemma_stale_write_refused(
    m: Map<Seq<char>, (u64, Seq<char>)>,
    id: Seq<char>,
    v: u64,
    payload: Seq<char>,
)
    requires
        m.contains_key(id),
        v < m[id].0,
    ensures
        !write_accepted(m, id, v),
        after_write(m, id, v, payload) == m,
{
}

/// One stored view row.
#[derive(Debug, Clone, PartialEq)]
pub struct ViewRow {
    pub view_instance_id: String,
    pub version: u64,
    pub payload: String,
}

/// No two rows share a view instance id.
pub open spec fn ids_unique(rows: Seq<ViewRow>) -> bool {
    forall|i: int, j: int|
        0 <= i < rows.len() && 0 <= j < rows.len() && i != j ==> rows[i].view_instance_id@
            != rows[j].view_instance_id@
}

/// The stored views by instance id: their version and payload.
pub open spec fn records(rows: Seq<ViewRow>) -> Map<Seq<char>, (u64, Seq<char>)> {
    Map::new(
        |k: Seq<char>| exists|i: int| 0 <= i < rows.len() && rows[i].view_instance_id@ == k,
        |k: Seq<char>|
            {
                let i = choose|i: int| 0 <= i < rows.len() && rows[i].view_instance_id@ == k;
                (rows[i].version, rows[i].payload@)
            },
    )
}

/// Whether a write of view `id` with observed version `v` is accepted:
/// version 0 only where no row exists yet, any other version only where the
/// stored row is at exactly that version.
pub open spec fn write_accepted(m: Map<Seq<char>, (u64, Seq<char>)>, id: Seq<char>, v: u64) -> bool {
    v < u64::MAX && if v == 0 {
        !m.contains_key(id)
    } else {
        m.contains_key(id) && m[id].0 == v
    }
}

/// The stored views after a write of `payload` to view `id` with observed
/// version `v`: the row at `v + 1` if accepted, else nothing changed.
pub open spec fn after_write(
    m: Map<Seq<char>, (u64, Seq<char>)>,
    id: Seq<char>,
    v: u64,
    payload: Seq<char>,
) -> Map<Seq<char>, (u64, Seq<char>)> {
    if write_accepted(m, id, v) {
        m.insert(id, ((v + 1) as u64, payload))
    } else {
        m
    }
}

/// A table of materialized views for one query, keyed by view instance id.
pub struct ViewTable {
    rows: Vec<ViewRow>,
}

impl View for ViewTable {
    type V = Map<Seq<char>, (u64, Seq<char>)>;

    closed spec fn view(&self) -> Map<Seq<char>, (u64, Seq<char>)> {
        records(self.rows@)
    }
}

proof fn lemma_record_at(rows: Seq<ViewRow>, i: int)
    requires
        ids_unique(rows),
        0 <= i < rows.len(),
    ensures
        records(rows).contains_key(rows[i].view_instance_id@),
        records(rows)[rows[i].view_instance_id@] == (rows[i].version, rows[i].payload@),
{
    let k = rows[i].view_instance_id@;
    assert(records(rows).contains_key(k));
    let j = choose|j: int| 0 <= j < rows.len() && rows[j].view_instance_id@ == k;
    assert(j == i);
}

proof fn lemma_record_absent(rows: Seq<ViewRow>, k: Seq<char>)
    requires
        forall|i: int| 0 <= i < rows.len() ==> rows[i].view_instance_id@ != k,
    ensures
        !records(rows).contains_key(k),
{
}

impl ViewTable {
    pub closed spec fn wf(&self) -> bool {
        ids_unique(self.rows@)
    }

    /// An empty table.
    pub fn new() -> (r: ViewTable)
        ensures
            r.wf(),
            r@ == Map::<Seq<char>, (u64, Seq<char>)>::empty(),
    {
        let r = ViewTable { rows: Vec::new() };
        assert(r@ =~= Map::<Seq<char>, (u64, Seq<char>)>::empty());
        r
    }

    fn find(&self, id: &str) -> (r: Option<usize>)
        ensures
            r matches Some(i) ==> i < self.rows@.len() && self.rows@[i as int].view_instance_id@ == id@,
            r is None ==> forall|i: int|
                0 <= i < self.rows@.len() ==> self.rows@[i].view_instance_id@ != id@,
    {
        let mut i: usize = 0;
        while i < self.rows.len()
            invariant
                i <= self.rows@.len(),
                forall|j: int| 0 <= j < i ==> self.rows@[j].view_instance_id@ != id@,
            decreases self.rows@.len() - i,
        {
            if self.rows[i].view_instance_id == String::from_str(id) {
                return Some(i);
            }
            i = i + 1;
        }
        None
    }

    /// The stored view of `view_instance_id` with a context that carries its
    /// stored version; `None` where no row exists.
    pub fn load(&self, view_instance_id: &str) -> (r: Option<(String, QueryContext)>)
        requires
            self.wf(),
        ensures
            r is None <==> !self@.contains_key(view_instance_id@),
            r matches Some((p, c)) ==> p@ == self@[view_instance_id@].1
                && c.view_instance_id@ == view_instance_id@
                && c.version == self@[view_instance_id@].0,
    {
        match self.find(view_instance_id) {
            None => {
                proof {
                    lemma_record_absent(self.rows@, view_instance_id@);
                }
                None
            },
            Some(i) => {
                proof {
                    lemma_record_at(self.rows@, i as int);
                }
                let row = &self.rows[i];
                Some((row.payload.clone(), QueryContext::new(String::from_str(view_instance_id), row.version)))
            },
        }
    }

    /// Writes `payload` as the view of `context.view_instance_id`: inserted
    /// where the context's version is 0, updated where the stored row is at
    /// the context's version, stored at that version plus one. A context that
    /// does not match what is stored fails with `OptimisticLock` and changes
    /// nothing.
    pub fn update_view(&mut self, payload: String, context: QueryContext) -> (r: Result<(), MysqlAggregateError>)
        requires
            old(self).wf(),
        ensures
            final(self).wf(),
            r is Ok <==> write_accepted(old(self)@, context.view_instance_id@, context.version),
            final(self)@ == after_write(old(self)@, context.view_instance_id@, context.version, payload@),
            r matches Err(e) ==> if context.version < u64::MAX {
                e is OptimisticLock
            } else {
                e is UnknownError
            },
    {
        let ghost id = context.view_instance_id@;
        let plan = match plan_view_write(&context) {
            Ok(p) => p,
            Err(e) => {
                return Err(e);
            },
        };
        let found = self.find(context.view_instance_id.as_str());
        match plan.write {
            ViewWrite::Insert => {
                match found {
                    Some(i) => {
                        proof {
                            lemma_record_at(self.rows@, i as int);
                        }
                        Err(MysqlAggregateError::OptimisticLock)
                    },
                    None => {
                        proof {
                            lemma_record_absent(self.rows@, id);
                        }
                        let ghost old_rows = self.rows@;
                        self.rows.push(ViewRow { view_instance_id: context.view_instance_id, version: plan.new_version, payload });
                        proof {
                            let rows = self.rows@;
                            assert(ids_unique(rows));
                            assert forall|k: Seq<char>| #[trigger] records(rows).contains_key(k) == old(self)@.insert(id, (plan.new_version, payload@)).contains_key(k)
                                && (records(rows).contains_key(k) ==> records(rows)[k] == old(self)@.insert(id, (plan.new_version, payload@))[k]) by {
                                if k == id {
                                    lemma_record_at(rows, old_rows.len() as int);
                                } else if records(old_rows).contains_key(k) {
                                    let j = choose|j: int| 0 <= j < old_rows.len() && old_rows[j].view_instance_id@ == k;
                                    lemma_record_at(old_rows, j);
                                    lemma_record_at(rows, j);
                                } else {
                                    assert forall|j: int| 0 <= j < rows.len() implies rows[j].view_instance_id@ != k by {
                                        if j < old_rows.len() {
                                            assert(!(0 <= j < old_rows.len() && old_rows[j].view_instance_id@ == k));
                                        }
                                    }
                                    lemma_record_absent(rows, k);
                                }
                            }
                            assert(self@ =~= old(self)@.insert(id, (plan.new_version, payload@)));
                        }
                        Ok(())
                    },
                }
            },
            ViewWrite::Update { expected_version } => {
                match found {
                    None => {
                        proof {
                            lemma_record_absent(self.rows@, id);
                        }
                        Err(MysqlAggregateError::OptimisticLock)
                    },
                    Some(i) => {
                        proof {
                            lemma_record_at(self.rows@, i as int);
                        }
                        if self.rows[i].version != expected_version {
                            return Err(MysqlAggregateError::OptimisticLock);
                        }
                        let ghost old_rows = self.rows@;
                        let row = ViewRow { view_instance_id: context.view_instance_id, version: plan.new_version, payload };
                        self.rows.set(i, row);
                        proof {
                            let rows = self.rows@;
                            assert(ids_unique(rows));
                            assert forall|k: Seq<char>| #[trigger] records(rows).contains_key(k) == old(self)@.insert(id, (plan.new_version, payload@)).contains_key(k)
                                && (records(rows).contains_key(k) ==> records(rows)[k] == old(self)@.insert(id, (plan.new_version, payload@))[k]) by {
                                if k == id {
                                    lemma_record_at(rows, i as int);
                                } else if records(old_rows).contains_key(k) {
                                    let j = choose|j: int| 0 <= j < old_rows.len() && old_rows[j].view_instance_id@ == k;
                                    lemma_record_at(old_rows, j);
                                    lemma_record_at(rows, j);
                                } else {
                                    assert forall|j: int| 0 <= j < rows.len() implies rows[j].view_instance_id@ != k by {
                                        assert(!(0 <= j < old_rows.len() && old_rows[j].view_instance_id@ == k));
                                    }
                                    lemma_record_absent(rows, k);
                                }
                            }
                            assert(self@ =~= old(self)@.insert(id, (plan.new_version, payload@)));
                        }
                        Ok(())
                    },
                }
            },
        }
    }
}

} // verus!
