use sql_gateway::coerce::TypedCell;
use sql_gateway::decode::{decode_query, metadata_statement, query_parameter, rows_statement, setup_statement};
use sql_gateway::matrix::grid_from_rows;
use sql_gateway::error::{error_reply, RequestError};
use sql_gateway::executor::{Action, DbFailure, Event, Executor};
use sql_gateway::results::{build_result, coerce_rows, describe_columns, first_query_rows, Column, QueryMessage};

fn row(cells: &[Option<&str>]) -> Vec<Option<String>> {
    cells.iter().map(|c| c.map(|s| s.to_string())).collect()
}

fn column(name: &str, t: &str) -> Column {
    Column { name: name.to_string(), declared_type: t.to_string() }
}

#[test]
fn decodes_percent_escapes() {
    assert_eq!(decode_query("SELECT%201%20AS%20a"), Ok("SELECT 1 AS a".to_string()));
    assert_eq!(decode_query("%e2%82%AC"), Ok("€".to_string()));
    assert_eq!(decode_query("plain"), Ok("plain".to_string()));
}

#[test]
fn malformed_percent_escape_is_invalid_input() {
    assert_eq!(decode_query("%"), Err(RequestError::InvalidInput));
    assert_eq!(decode_query("100%"), Err(RequestError::InvalidInput));
    assert_eq!(decode_query("SELECT 1%zz"), Err(RequestError::InvalidInput));
    assert_eq!(decode_query("%4"), Err(RequestError::InvalidInput));
    assert_eq!(decode_query("%%41"), Err(RequestError::InvalidInput));
    assert_eq!(decode_query("%2541"), Ok("%41".to_string()));
}

#[test]
fn invalid_utf8_escape_is_invalid_input() {
    assert_eq!(decode_query("SELECT%FF"), Err(RequestError::InvalidInput));
    assert_eq!(decode_query("%C3"), Err(RequestError::InvalidInput));
}

#[test]
fn setup_statement_wraps_query() {
    assert_eq!(
        setup_statement("SELECT 1"),
        "CREATE TEMP TABLE tmp\n    ON COMMIT DROP\nAS\nSELECT 1".to_string()
    );
}

#[test]
fn first_rows_stop_at_first_other_message() {
    let msgs = vec![
        QueryMessage::Row(row(&[Some("1")])),
        QueryMessage::Row(row(&[None])),
        QueryMessage::Other,
        QueryMessage::Row(row(&[Some("3")])),
    ];
    let rows = first_query_rows(msgs);
    assert_eq!(rows, vec![row(&[Some("1")]), row(&[None])]);
    assert!(first_query_rows(vec![QueryMessage::Other]).is_empty());
    assert!(first_query_rows(vec![]).is_empty());
}

#[test]
fn describe_reads_names_and_types() {
    let cat = vec![row(&[Some("a"), Some("integer")]), row(&[Some("b"), Some("text")])];
    assert_eq!(describe_columns(&cat), Ok(vec![column("a", "integer"), column("b", "text")]));
}

#[test]
fn describe_rejects_null_name_or_type() {
    assert_eq!(describe_columns(&vec![row(&[None, Some("text")])]), Err(RequestError::Schema));
    assert_eq!(describe_columns(&vec![row(&[Some("a"), None])]), Err(RequestError::Schema));
    assert_eq!(describe_columns(&vec![row(&[Some("a")])]), Err(RequestError::Schema));
}

#[test]
fn coerce_rows_stops_at_first_bad_cell() {
    let cols = vec![column("n", "integer"), column("m", "bigint")];
    let rows = vec![row(&[Some("1"), Some("x")]), row(&[Some("y"), Some("2")])];
    assert_eq!(coerce_rows(&cols, &rows), Err(RequestError::TypeConversion("x".to_string())));
}

#[test]
fn build_rejects_ragged_rows() {
    let cols = vec![column("a", "text")];
    let cells = vec![vec![TypedCell::Null], vec![TypedCell::Null, TypedCell::Null]];
    assert!(matches!(build_result(cols, cells), Err(RequestError::Internal)));
}

#[test]
fn build_keeps_rows_in_order() {
    let cols = vec![column("a", "integer"), column("b", "text")];
    let cells = vec![
        vec![TypedCell::Number("1".to_string()), TypedCell::Text("x".to_string())],
        vec![TypedCell::Null, TypedCell::Text("y".to_string())],
    ];
    let result = build_result(cols, cells.clone()).unwrap();
    assert_eq!(result.rows.nrows(), 2);
    assert_eq!(result.rows.ncols(), 2);
    assert_eq!(result.into_rows(), cells);
}

#[test]
fn build_accepts_no_rows() {
    let result = build_result(vec![column("a", "text")], vec![]).unwrap();
    assert_eq!(result.column_names(), vec!["a".to_string()]);
    assert!(result.into_rows().is_empty());
}

fn expect_sql(action: Action) -> String {
    match action {
        Action::ExecuteBatch(s) => s,
        Action::SimpleQuery(s) => s,
        other => panic!("unexpected action {:?}", other),
    }
}

#[test]
fn select_literals_end_to_end() {
    let mut ex = Executor::new("SELECT%201%20AS%20a,%20true%20AS%20b,%20'x'%20AS%20c".to_string());
    assert!(matches!(ex.start(), Action::AcquireSession));
    assert!(matches!(ex.step(Event::Connected), Action::BeginTransaction));
    let sql = expect_sql(ex.step(Event::Begun));
    assert_eq!(sql, setup_statement("SELECT 1 AS a, true AS b, 'x' AS c"));
    assert_eq!(expect_sql(ex.step(Event::BatchDone)), metadata_statement());
    let catalog = vec![
        QueryMessage::Row(row(&[Some("a"), Some("integer")])),
        QueryMessage::Row(row(&[Some("b"), Some("boolean")])),
        QueryMessage::Row(row(&[Some("c"), Some("text")])),
        QueryMessage::Other,
    ];
    assert_eq!(expect_sql(ex.step(Event::Answered(catalog))), rows_statement());
    let rows = vec![QueryMessage::Row(row(&[Some("1"), Some("t"), Some("x")])), QueryMessage::Other];
    assert!(matches!(ex.step(Event::Answered(rows)), Action::Commit));
    match ex.step(Event::Finalized) {
        Action::Respond(Ok(result)) => {
            assert_eq!(result.column_names(), vec!["a".to_string(), "b".to_string(), "c".to_string()]);
            assert_eq!(
                result.column_types(),
                vec!["integer".to_string(), "boolean".to_string(), "text".to_string()]
            );
            assert_eq!(
                result.into_rows(),
                vec![vec![
                    TypedCell::Number("1".to_string()),
                    TypedCell::Bool(true),
                    TypedCell::Text("x".to_string())
                ]]
            );
        }
        other => panic!("unexpected action {:?}", other),
    }
    assert!(matches!(ex.step(Event::Finalized), Action::Idle));
}

#[test]
fn syntax_error_rolls_back_and_reports_message() {
    let mut ex = Executor::new("SELEC%201".to_string());
    ex.step(Event::Connected);
    assert_eq!(expect_sql(ex.step(Event::Begun)), setup_statement("SELEC 1"));
    let msg = "syntax error at or near \"SELEC\"".to_string();
    assert!(matches!(ex.step(Event::Failed(DbFailure::Rejected(msg.clone()))), Action::Rollback));
    match ex.step(Event::Finalized) {
        Action::Respond(Err(RequestError::SqlError(m))) => assert_eq!(m, msg),
        other => panic!("unexpected action {:?}", other),
    }
}

#[test]
fn invalid_encoding_rolls_back_with_invalid_input() {
    let mut ex = Executor::new("SELECT%FF".to_string());
    ex.step(Event::Connected);
    assert!(matches!(ex.step(Event::Begun), Action::Rollback));
    assert!(matches!(ex.step(Event::Finalized), Action::Respond(Err(RequestError::InvalidInput))));
}

#[test]
fn no_session_fails_without_rollback() {
    let mut ex = Executor::new("SELECT 1".to_string());
    match ex.step(Event::Failed(DbFailure::Broken("pool closed".to_string()))) {
        Action::Respond(Err(RequestError::Connection(m))) => assert_eq!(m, "pool closed"),
        other => panic!("unexpected action {:?}", other),
    }
}

#[test]
fn bad_number_rolls_back_with_conversion_error() {
    let mut ex = Executor::new("q".to_string());
    ex.step(Event::Connected);
    ex.step(Event::Begun);
    ex.step(Event::BatchDone);
    ex.step(Event::Answered(vec![QueryMessage::Row(row(&[Some("n"), Some("bigint")]))]));
    let rows = vec![QueryMessage::Row(row(&[Some("abc")]))];
    assert!(matches!(ex.step(Event::Answered(rows)), Action::Rollback));
    assert!(matches!(
        ex.step(Event::Failed(DbFailure::Broken("gone".to_string()))),
        Action::Respond(Err(RequestError::TypeConversion(_)))
    ));
}

#[test]
fn null_catalog_entry_is_schema_error() {
    let mut ex = Executor::new("q".to_string());
    ex.step(Event::Connected);
    ex.step(Event::Begun);
    ex.step(Event::BatchDone);
    let cat = vec![QueryMessage::Row(row(&[None, Some("text")]))];
    assert!(matches!(ex.step(Event::Answered(cat)), Action::Rollback));
    assert!(matches!(ex.step(Event::Finalized), Action::Respond(Err(RequestError::Schema))));
}

#[test]
fn commit_failure_is_reported() {
    let mut ex = Executor::new("q".to_string());
    ex.step(Event::Connected);
    ex.step(Event::Begun);
    ex.step(Event::BatchDone);
    ex.step(Event::Answered(vec![]));
    assert!(matches!(ex.step(Event::Answered(vec![])), Action::Commit));
    assert!(matches!(
        ex.step(Event::Failed(DbFailure::Broken("reset".to_string()))),
        Action::Respond(Err(RequestError::Connection(_)))
    ));
}

#[test]
fn unexpected_event_inside_transaction_rolls_back() {
    let mut ex = Executor::new("q".to_string());
    ex.step(Event::Connected);
    ex.step(Event::Begun);
    assert!(matches!(ex.step(Event::Finalized), Action::Rollback));
    assert!(matches!(ex.step(Event::Finalized), Action::Respond(Err(RequestError::Internal))));
}

#[test]
fn client_errors_are_input_and_sql() {
    assert!(RequestError::InvalidInput.is_client_error());
    assert!(RequestError::SqlError("x".to_string()).is_client_error());
    assert!(!RequestError::Schema.is_client_error());
    assert!(!RequestError::Internal.is_client_error());
    assert!(!RequestError::Connection("x".to_string()).is_client_error());
    assert!(!RequestError::TypeConversion("x".to_string()).is_client_error());
}

#[test]
fn client_errors_reply_bad_request() {
    assert_eq!(error_reply(&RequestError::InvalidInput), (400, "invalid query string".to_string()));
    assert_eq!(
        error_reply(&RequestError::SqlError("syntax error at or near \"SELEC\"".to_string())),
        (400, "SQL error: syntax error at or near \"SELEC\"".to_string())
    );
}

#[test]
fn server_errors_reply_internal_error() {
    for e in [
        RequestError::Schema,
        RequestError::Internal,
        RequestError::Connection("refused".to_string()),
        RequestError::TypeConversion("abc".to_string()),
    ] {
        assert_eq!(error_reply(&e), (500, "internal server error".to_string()));
    }
}

#[test]
fn query_parameter_takes_first_raw_value() {
    assert_eq!(query_parameter("query=SELECT%201", "query"), Some("SELECT%201".to_string()));
    assert_eq!(query_parameter("a=1&query=x%zz&query=y", "query"), Some("x%zz".to_string()));
    assert_eq!(query_parameter("query=", "query"), Some("".to_string()));
    assert_eq!(query_parameter("queryx=1&xquery=2", "query"), None);
    assert_eq!(query_parameter("query", "query"), None);
    assert_eq!(query_parameter("", "query"), None);
    assert_eq!(query_parameter("a=b=c&query=1=2", "query"), Some("1=2".to_string()));
}

#[test]
fn grid_rejects_shapes_too_large_for_ndarray() {
    assert!(grid_from_rows(usize::MAX, vec![]).is_none());
    assert!(grid_from_rows(0, vec![]).is_some());
    assert!(grid_from_rows(isize::MAX as usize, vec![]).is_some());
}

#[test]
fn malformed_escape_rolls_back_before_any_statement() {
    let mut ex = Executor::new("SELECT 1%zz".to_string());
    ex.step(Event::Connected);
    assert!(matches!(ex.step(Event::Begun), Action::Rollback));
    assert!(matches!(ex.step(Event::Finalized), Action::Respond(Err(RequestError::InvalidInput))));
}

#[test]
fn unexpected_event_after_commit_does_not_roll_back() {
    let mut ex = Executor::new("q".to_string());
    ex.step(Event::Connected);
    ex.step(Event::Begun);
    ex.step(Event::BatchDone);
    ex.step(Event::Answered(vec![]));
    assert!(matches!(ex.step(Event::Answered(vec![])), Action::Commit));
    assert!(matches!(ex.step(Event::BatchDone), Action::Respond(Err(RequestError::Internal))));
}

#[test]
fn coerce_rows_rejects_rows_of_wrong_width() {
    let cols = vec![column("a", "text"), column("b", "text")];
    assert_eq!(coerce_rows(&cols, &vec![row(&[Some("x")])]), Err(RequestError::Internal));
    assert_eq!(
        coerce_rows(&cols, &vec![row(&[Some("x"), Some("y"), Some("z")])]),
        Err(RequestError::Internal)
    );
    assert_eq!(coerce_rows(&cols, &vec![row(&[None, None])]), Ok(vec![vec![TypedCell::Null, TypedCell::Null]]));
}

#[test]
fn coerce_rows_reports_failures_in_row_order() {
    let cols = vec![column("n", "integer")];
    let rows = vec![row(&[Some("x")]), row(&[])];
    assert_eq!(coerce_rows(&cols, &rows), Err(RequestError::TypeConversion("x".to_string())));
    let rows = vec![row(&[]), row(&[Some("x")])];
    assert_eq!(coerce_rows(&cols, &rows), Err(RequestError::Internal));
}

#[test]
fn short_fetched_row_rolls_back_with_internal_error() {
    let mut ex = Executor::new("q".to_string());
    ex.step(Event::Connected);
    ex.step(Event::Begun);
    ex.step(Event::BatchDone);
    let cat = vec![
        QueryMessage::Row(row(&[Some("a"), Some("text")])),
        QueryMessage::Row(row(&[Some("b"), Some("text")])),
    ];
    ex.step(Event::Answered(cat));
    let rows = vec![QueryMessage::Row(row(&[Some("x")])), QueryMessage::Other];
    assert!(matches!(ex.step(Event::Answered(rows)), Action::Rollback));
    assert!(matches!(ex.step(Event::Finalized), Action::Respond(Err(RequestError::Internal))));
    assert_eq!(error_reply(&RequestError::Internal), (500, "internal server error".to_string()));
}
