use vstd::prelude::*;

use crate::decode::{
    decode_query, decoded_query, metadata_statement, metadata_statement_text, rows_statement,
    rows_statement_text, setup_statement, setup_statement_of,
};
use crate::error::RequestError;
use crate::matrix::shape_fits;
use crate::coerce::{coerced, lemma_absent_cells, lemma_boolean_cells, rule_of, CellValue};
use crate::results::{
    build_result, cell_text, first_failure, row_converts, coerce_rows, describe_columns, describes_column,
    first_query_rows, leading_rows, lemma_leading_rows_unique, Column, QueryMessage, QueryResult, RawRow,
};

verus! {

/// Why a database round trip failed.
#[derive(Debug)]
pub enum DbFailure {
    /// The database rejected the statement; its own message.
    Rejected(String),
    /// The session failed otherwise (pool, network, protocol).
    Broken(String),
}

/// What the session reports back after carrying out an action.
#[derive(Debug)]
pub enum Event {
    /// A session was checked out of the pool.
    Connected,
    /// The transaction was opened.
    Begun,
    /// The batch statement ran.
    BatchDone,
    /// A simple query answered.
    Answered(Vec<QueryMessage>),
    /// The commit or rollback completed.
    Finalized,
    /// The last action failed.
    Failed(DbFailure),
}

/// What the session must do next.
#[derive(Debug)]
pub enum Action {
    AcquireSession,
    BeginTransaction,
    ExecuteBatch(String),
    SimpleQuery(String),
    Commit,
    Rollback,
    /// The request is over; this is its outcome.
    Respond(Result<QueryResult, RequestError>),
    /// Nothing is left to do.
    Idle,
}

/// Where a request stands.
#[derive(Debug)]
pub enum Phase {
    Connecting,
    Beginning,
    Creating,
    Describing,
    Fetching { columns: Vec<Column> },
    Committing { result: QueryResult },
    RollingBack { error: RequestError },
    Done,
}

/// Runs one query through a session: each call of `step` takes what the
/// session reported and says what it must do next.
#[derive(Debug)]
pub struct Executor {
    pub query: String,
    pub phase: Phase,
}

/// The error that a failed round trip stands for.
pub open spec fn failure_error(f: DbFailure, e: RequestError) -> bool {
    match f {
        DbFailure::Rejected(m) => e matches RequestError::SqlError(m2) && m2 == m,
        DbFailure::Broken(m) => e matches RequestError::Connection(m2) && m2 == m,
    }
}

/// The moves a request can make, by phase: which action each phase may issue
/// and in which phase that leaves the request.
pub open spec fn transition(p: Phase, a: Action, q: Phase) -> bool {
    match p {
        Phase::Connecting => (a is BeginTransaction && q is Beginning) || (a is Respond && q is Done),
        Phase::Beginning => (a is ExecuteBatch && q is Creating) || (a is Rollback && q is RollingBack)
            || (a is Respond && q is Done),
        Phase::Creating => (a is SimpleQuery && q is Describing) || (a is Rollback && q is RollingBack),
        Phase::Describing => (a is SimpleQuery && q is Fetching) || (a is Rollback && q is RollingBack),
        Phase::Fetching { .. } => (a is Commit && q is Committing) || (a is Rollback && q is RollingBack),
        Phase::Committing { .. } => a is Respond && q is Done,
        Phase::RollingBack { .. } => a is Respond && q is Done,
        Phase::Done => a is Idle && q is Done,
    }
}

/// The action `a` reports failure `f` as the request's outcome.
pub open spec fn responds_failure(a: Action, f: DbFailure) -> bool {
    match a {
        Action::Respond(Err(e)) => failure_error(f, e),
        _ => false,
    }
}

/// `q` is rolling back because of failure `f`, and `a` asks for the rollback.
pub open spec fn rolls_back_failure(q: Phase, a: Action, f: DbFailure) -> bool {
    a is Rollback && match q {
        Phase::RollingBack { error } => failure_error(f, error),
        _ => false,
    }
}

/// The columns read from catalog rows `cat`.
pub open spec fn columns_from(columns: Seq<Column>, cat: Seq<RawRow>) -> bool {
    columns.len() == cat.len() && forall|i: int|
        0 <= i < cat.len() ==> (#[trigger] columns[i]).name@ == cell_text(cat[i]@, 0)->0
            && columns[i].declared_type@ == cell_text(cat[i]@, 1)->0
}

/// After the catalog answered with messages `m`.
pub open spec fn after_catalog(m: Seq<QueryMessage>, q: Phase, a: Action) -> bool {
    forall|cat: Seq<RawRow>|
        #![trigger leading_rows(m, cat)]
        leading_rows(m, cat) ==> if forall|i: int| 0 <= i < cat.len() ==> describes_column(#[trigger] cat[i]@) {
            (a matches Action::SimpleQuery(s) && s@ == rows_statement_text()) && match q {
                Phase::Fetching { columns } => columns_from(columns@, cat),
                _ => false,
            }
        } else {
            a is Rollback && q == (Phase::RollingBack { error: RequestError::Schema })
        }
}

/// `result` holds the coercion of the raw rows `raw` under `columns`.
pub open spec fn result_of(result: QueryResult, columns: Vec<Column>, raw: Seq<RawRow>) -> bool {
    &&& result.wf()
    &&& result.columns == columns
    &&& result.row_count() == raw.len()
    &&& forall|i: int, j: int|
        0 <= i < raw.len() && 0 <= j < columns@.len() ==> Some(#[trigger] result.cell(i, j))
            == coerced(rule_of(columns@[j].declared_type@), cell_text(raw[i]@, j))
}

/// After the rows query answered with messages `m`, the columns being `columns`.
pub open spec fn after_rows(columns: Vec<Column>, m: Seq<QueryMessage>, q: Phase, a: Action) -> bool {
    forall|raw: Seq<RawRow>|
        #![trigger leading_rows(m, raw)]
        leading_rows(m, raw) ==> if forall|i: int| 0 <= i < raw.len() ==> row_converts(columns@, raw, i) {
            if shape_fits(raw.len() as usize, columns@.len() as usize) {
                a is Commit && match q {
                    Phase::Committing { result } => result_of(result, columns, raw),
                    _ => false,
                }
            } else {
                a is Rollback && q == (Phase::RollingBack { error: RequestError::Internal })
            }
        } else {
            a is Rollback && match q {
                Phase::RollingBack { error } => first_failure(columns@, raw, error),
                _ => false,
            }
        }
}

/// What one step does, for the expected event of each phase and for a
/// failure report; any other event makes the request fail.
pub open spec fn step_outcome(query: Seq<char>, p: Phase, e: Event, q: Phase, a: Action) -> bool {
    match p {
        Phase::Connecting => match e {
            Event::Connected => a is BeginTransaction,
            Event::Failed(f) => responds_failure(a, f),
            _ => a == Action::Respond(Err(RequestError::Internal)),
        },
        Phase::Beginning => match e {
            Event::Begun => match decoded_query(query) {
                Some(t) => a matches Action::ExecuteBatch(s) && s@ == setup_statement_of(t),
                None => a is Rollback && q == (Phase::RollingBack { error: RequestError::InvalidInput }),
            },
            Event::Failed(f) => responds_failure(a, f),
            _ => a is Rollback && q == (Phase::RollingBack { error: RequestError::Internal }),
        },
        Phase::Creating => match e {
            Event::BatchDone => a matches Action::SimpleQuery(s) && s@ == metadata_statement_text(),
            Event::Failed(f) => rolls_back_failure(q, a, f),
            _ => a is Rollback && q == (Phase::RollingBack { error: RequestError::Internal }),
        },
        Phase::Describing => match e {
            Event::Answered(m) => after_catalog(m@, q, a),
            Event::Failed(f) => rolls_back_failure(q, a, f),
            _ => a is Rollback && q == (Phase::RollingBack { error: RequestError::Internal }),
        },
        Phase::Fetching { columns } => match e {
            Event::Answered(m) => after_rows(columns, m@, q, a),
            Event::Failed(f) => rolls_back_failure(q, a, f),
            _ => a is Rollback && q == (Phase::RollingBack { error: RequestError::Internal }),
        },
        Phase::Committing { result } => match e {
            Event::Finalized => a == Action::Respond(Ok(result)),
            Event::Failed(f) => responds_failure(a, f),
            _ => a == Action::Respond(Err(RequestError::Internal)),
        },
        Phase::RollingBack { error } => a == Action::Respond(Err(error)),
        Phase::Done => a is Idle,
    }
}

/// A run of a request: its phases, from the first on, and the action issued
/// at each step between two of them.
pub open spec fn is_run(phases: Seq<Phase>, actions: Seq<Action>) -> bool {
    &&& phases.len() == actions.len() + 1
    &&& phases[0] is Connecting
    &&& forall|k: int| 0 <= k < actions.len() ==> transition(#[trigger] phases[k], actions[k], phases[k + 1])
}

proof fn lemma_early_phases(phases: Seq<Phase>, actions: Seq<Action>, m: int)
    requires
        is_run(phases, actions),
        0 <= m < phases.len(),
        phases[m] is Connecting || phases[m] is Beginning,
    ensures
        m <= 1,
        phases[m] is Connecting ==> m == 0,
    decreases m,
{
    if m > 0 {
        assert(transition(phases[m - 1], actions[m - 1], phases[m]));
        lemma_early_phases(phases, actions, m - 1);
    }
}

/// Once a request has materialised its query as a temporary table, it
/// answers only right after a commit or a rollback: the table, dropped when
/// its transaction ends, never outlives the request.
pub proof fn lemma_cleanup_before_response(phases: Seq<Phase>, actions: Seq<Action>, i: int, k: int)
    requires
        is_run(phases, actions),
        0 <= i < k < actions.len(),
        actions[i] is ExecuteBatch,
        actions[k] is Respond,
    ensures
        actions[k - 1] is Commit || actions[k - 1] is Rollback,
{
    assert(transition(phases[i], actions[i], phases[i + 1]));
    assert(transition(phases[k], actions[k], phases[k + 1]));
    assert(transition(phases[k - 1], actions[k - 1], phases[k]));
    if phases[k] is Connecting || phases[k] is Beginning {
        lemma_early_phases(phases, actions, k);
        if phases[i] is Connecting || phases[i] is Beginning {
            lemma_early_phases(phases, actions, i);
        }
    }
}

/// A request opens at most one transaction.
pub proof fn lemma_single_transaction(phases: Seq<Phase>, actions: Seq<Action>, i: int, k: int)
    requires
        is_run(phases, actions),
        0 <= i < actions.len(),
        0 <= k < actions.len(),
        actions[i] is BeginTransaction,
        actions[k] is BeginTransaction,
    ensures
        i == k,
{
    assert(transition(phases[i], actions[i], phases[i + 1]));
    assert(transition(phases[k], actions[k], phases[k + 1]));
    lemma_early_phases(phases, actions, i);
    lemma_early_phases(phases, actions, k);
}

/// Whether an action ends the transaction.
pub open spec fn finalizes(a: Action) -> bool {
    a is Commit || a is Rollback
}

proof fn lemma_after_finalizing(phases: Seq<Phase>, actions: Seq<Action>, i: int, m: int)
    requires
        is_run(phases, actions),
        0 <= i < actions.len(),
        finalizes(actions[i]),
        i < m < phases.len(),
    ensures
        phases[m] is Committing || phases[m] is RollingBack || phases[m] is Done,
    decreases m - i,
{
    assert(transition(phases[m - 1], actions[m - 1], phases[m]));
    if m - 1 > i {
        lemma_after_finalizing(phases, actions, i, m - 1);
    }
}

/// A request ends its transaction at most once: after a commit or a
/// rollback it issues neither again.
pub proof fn lemma_single_finalization(phases: Seq<Phase>, actions: Seq<Action>, i: int, k: int)
    requires
        is_run(phases, actions),
        0 <= i < k < actions.len(),
        finalizes(actions[i]),
    ensures
        !finalizes(actions[k]),
{
    lemma_after_finalizing(phases, actions, i, k);
    assert(transition(phases[k], actions[k], phases[k + 1]));
}

/// In a committed result, an absent cell is null whatever its column's type,
/// and a present cell of a boolean column is true exactly when its text is `t`.
pub proof fn lemma_committed_cells(result: QueryResult, columns: Vec<Column>, raw: Seq<RawRow>, i: int, j: int)
    requires
        result_of(result, columns, raw),
        0 <= i < raw.len(),
        0 <= j < columns@.len(),
    ensures
        cell_text(raw[i]@, j) is None ==> result.cell(i, j) == CellValue::Null,
        columns@[j].declared_type@ == "boolean"@ && cell_text(raw[i]@, j) is Some ==> result.cell(i, j)
            == CellValue::Bool(cell_text(raw[i]@, j)->0 == "t"@),
{
    assert(Some(result.cell(i, j)) == coerced(rule_of(columns@[j].declared_type@), cell_text(raw[i]@, j)));
    lemma_absent_cells(columns@[j].declared_type@);
    if cell_text(raw[i]@, j) is Some {
        lemma_boolean_cells(cell_text(raw[i]@, j)->0);
    }
}

fn error_of(f: DbFailure) -> (e: RequestError)
    ensures
        failure_error(f, e),
{
    match f {
        DbFailure::Rejected(m) => RequestError::SqlError(m),
        DbFailure::Broken(m) => RequestError::Connection(m),
    }
}

impl Executor {
    /// A request for `query`, still percent-encoded; its first action is
    /// `AcquireSession`.
    pub fn new(query: String) -> (r: Executor)
        ensures
            r.query == query,
            r.phase is Connecting,
    {
        Executor { query, phase: Phase::Connecting }
    }

    /// The first action of a request.
    pub fn start(&self) -> (a: Action)
        ensures
            a is AcquireSession,
    {
        Action::AcquireSession
    }

    /// Takes the session's report of the last action and returns the next one.
    pub fn step(&mut self, event: Event) -> (a: Action)
        ensures
            final(self).query == old(self).query,
            transition(old(self).phase, a, final(self).phase),
            step_outcome(old(self).query@, old(self).phase, event, final(self).phase, a),
    {
        let mut phase = Phase::Done;
        core::mem::swap(&mut phase, &mut self.phase);
        let (next, action) = match (phase, event) {
            (Phase::Connecting, Event::Connected) => (Phase::Beginning, Action::BeginTransaction),
            (Phase::Connecting, Event::Failed(f)) => (Phase::Done, Action::Respond(Err(error_of(f)))),
            (Phase::Connecting, _) => (Phase::Done, Action::Respond(Err(RequestError::Internal))),
            (Phase::Beginning, Event::Begun) => match decode_query(self.query.as_str()) {
                Ok(t) => (Phase::Creating, Action::ExecuteBatch(setup_statement(t.as_str()))),
                Err(e) => (Phase::RollingBack { error: e }, Action::Rollback),
            },
            (Phase::Beginning, Event::Failed(f)) => (Phase::Done, Action::Respond(Err(error_of(f)))),
            (Phase::Beginning, _) => (
                Phase::RollingBack { error: RequestError::Internal },
                Action::Rollback,
            ),
            (Phase::Creating, Event::BatchDone) => (Phase::Describing, Action::SimpleQuery(metadata_statement())),
            (Phase::Describing, Event::Answered(m)) => {
                let ghost msgs = m@;
                let catalog = first_query_rows(m);
                proof {
                    assert forall|cat: Seq<RawRow>| leading_rows(msgs, cat) implies cat == catalog@ by {
                        lemma_leading_rows_unique(msgs, cat, catalog@);
                    }
                }
                match describe_columns(&catalog) {
                    Ok(columns) => (Phase::Fetching { columns }, Action::SimpleQuery(rows_statement())),
                    Err(e) => (Phase::RollingBack { error: e }, Action::Rollback),
                }
            },
            (Phase::Fetching { columns }, Event::Answered(m)) => {
                let ghost msgs = m@;
                let raw = first_query_rows(m);
                proof {
                    assert forall|r: Seq<RawRow>| leading_rows(msgs, r) implies r == raw@ by {
                        lemma_leading_rows_unique(msgs, r, raw@);
                    }
                }
                match coerce_rows(&columns, &raw) {
                    Ok(cells) => {
                        let ghost cv = cells@;
                        let ghost cols = columns@;
                        match build_result(columns, cells) {
                            Ok(result) => {
                                proof {
                                    assert forall|i: int, j: int|
                                        0 <= i < raw@.len() && 0 <= j < cols.len() implies Some(
                                        #[trigger] result.cell(i, j),
                                    ) == coerced(rule_of(cols[j].declared_type@), cell_text(raw@[i]@, j)) by {
                                        assert(result.cell(i, j) == cv[i]@[j]@);
                                    }
                                }
                                (Phase::Committing { result }, Action::Commit)
                            },
                            Err(e) => (Phase::RollingBack { error: e }, Action::Rollback),
                        }
                    },
                    Err(e) => (Phase::RollingBack { error: e }, Action::Rollback),
                }
            },
            (Phase::Creating, Event::Failed(f)) => (
                Phase::RollingBack { error: error_of(f) },
                Action::Rollback,
            ),
            (Phase::Describing, Event::Failed(f)) => (
                Phase::RollingBack { error: error_of(f) },
                Action::Rollback,
            ),
            (Phase::Fetching { .. }, Event::Failed(f)) => (
                Phase::RollingBack { error: error_of(f) },
                Action::Rollback,
            ),
            (Phase::Creating, _) | (Phase::Describing, _) | (Phase::Fetching { .. }, _) => (
                Phase::RollingBack { error: RequestError::Internal },
                Action::Rollback,
            ),
            (Phase::Committing { result }, Event::Finalized) => (Phase::Done, Action::Respond(Ok(result))),
            (Phase::Committing { .. }, Event::Failed(f)) => (Phase::Done, Action::Respond(Err(error_of(f)))),
            (Phase::Committing { .. }, _) => (Phase::Done, Action::Respond(Err(RequestError::Internal))),
            (Phase::RollingBack { error }, _) => (Phase::Done, Action::Respond(Err(error))),
            (Phase::Done, _) => (Phase::Done, Action::Idle),
        };
        self.phase = next;
        action
    }
}

} // verus!
