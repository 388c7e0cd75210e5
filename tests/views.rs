use mysql_es::error::MysqlAggregateError;
use mysql_es::views::{
    plan_view_write, update_outcome, QueryContext, ViewStatements, ViewTable, ViewWrite, WritePlan,
};

#[test]
fn statements_for_query() {
    let s = ViewStatements::new("test_query");
    assert_eq!(
        s.insert_sql,
        "INSERT INTO test_query (payload, version, query_instance_id) VALUES ( ?, ?, ? )"
    );
    assert_eq!(
        s.update_sql,
        "UPDATE test_query SET payload= ? , version= ? WHERE query_instance_id= ? AND version= ?"
    );
    assert_eq!(s.select_sql, "SELECT version,payload FROM test_query WHERE query_instance_id= ?");
}

#[test]
fn version_zero_inserts() {
    let p = plan_view_write(&QueryContext::new("a".to_string(), 0)).unwrap();
    assert_eq!(p, WritePlan { write: ViewWrite::Insert, new_version: 1 });
}

#[test]
fn nonzero_version_updates() {
    let p = plan_view_write(&QueryContext::new("a".to_string(), 5)).unwrap();
    assert_eq!(
        p,
        WritePlan {
            write: ViewWrite::Update { expected_version: 5 },
            new_version: 6
        }
    );
}

#[test]
fn largest_version_cannot_be_written() {
    let r = plan_view_write(&QueryContext::new("a".to_string(), u64::MAX));
    assert!(matches!(r, Err(MysqlAggregateError::UnknownError(_))));
}

#[test]
fn update_matching_no_row_conflicts() {
    assert_eq!(update_outcome(0), Err(MysqlAggregateError::OptimisticLock));
    assert_eq!(update_outcome(1), Ok(()));
}

#[test]
fn test_valid_view_repository() {
    let mut repo = ViewTable::new();
    let view = "just a test event for this view".to_string();
    repo.update_view(view.clone(), QueryContext::new("view-1".to_string(), 0)).unwrap();
    let (found, context) = repo.load("view-1").unwrap();
    assert_eq!(found, view);

    let updated_view = "a totally different view".to_string();
    repo.update_view(updated_view.clone(), context).unwrap();
    let found = repo.load("view-1").unwrap().0;
    assert_eq!(found, updated_view);
}

#[test]
fn missing_view_loads_none() {
    let repo = ViewTable::new();
    assert!(repo.load("nobody").is_none());
}

#[test]
fn round_trip_at_version_one() {
    let mut repo = ViewTable::new();
    repo.update_view("v1".to_string(), QueryContext::new("x".to_string(), 0)).unwrap();
    let (found, context) = repo.load("x").unwrap();
    assert_eq!(found, "v1");
    assert_eq!(context.version, 1);
    assert_eq!(context.view_instance_id, "x");
}

#[test]
fn stale_context_is_refused_and_changes_nothing() {
    let mut repo = ViewTable::new();
    repo.update_view("v1".to_string(), QueryContext::new("x".to_string(), 0)).unwrap();
    repo.update_view("v2".to_string(), QueryContext::new("x".to_string(), 1)).unwrap();
    let r = repo.update_view("stale".to_string(), QueryContext::new("x".to_string(), 1));
    assert_eq!(r, Err(MysqlAggregateError::OptimisticLock));
    let (found, context) = repo.load("x").unwrap();
    assert_eq!(found, "v2");
    assert_eq!(context.version, 2);
}

#[test]
fn second_insert_conflicts() {
    let mut repo = ViewTable::new();
    repo.update_view("v1".to_string(), QueryContext::new("x".to_string(), 0)).unwrap();
    let r = repo.update_view("again".to_string(), QueryContext::new("x".to_string(), 0));
    assert_eq!(r, Err(MysqlAggregateError::OptimisticLock));
    assert_eq!(repo.load("x").unwrap().0, "v1");
}

#[test]
fn update_of_missing_row_conflicts() {
    let mut repo = ViewTable::new();
    let r = repo.update_view("v".to_string(), QueryContext::new("x".to_string(), 3));
    assert_eq!(r, Err(MysqlAggregateError::OptimisticLock));
    assert!(repo.load("x").is_none());
}

#[test]
fn views_are_independent() {
    let mut repo = ViewTable::new();
    repo.update_view("a".to_string(), QueryContext::new("one".to_string(), 0)).unwrap();
    repo.update_view("b".to_string(), QueryContext::new("two".to_string(), 0)).unwrap();
    let (_, ctx) = repo.load("one").unwrap();
    repo.update_view("a2".to_string(), ctx).unwrap();
    assert_eq!(repo.load("one").unwrap().0, "a2");
    assert_eq!(repo.load("one").unwrap().1.version, 2);
    assert_eq!(repo.load("two").unwrap().0, "b");
    assert_eq!(repo.load("two").unwrap().1.version, 1);
}

#[test]
fn user_42_scenario() {
    let mut repo = ViewTable::new();
    let first = r#"{"events":[{"Created":{"id":"user-42"}}]}"#.to_string();
    repo.update_view(first.clone(), QueryContext::new("user-42".to_string(), 0)).unwrap();
    let (found, ctx1) = repo.load("user-42").unwrap();
    assert_eq!(found, first);
    assert_eq!(ctx1.version, 1);

    let second = r#"{"events":[{"Created":{"id":"user-42"}},{"Renamed":{"name":"x"}}]}"#.to_string();
    repo.update_view(second.clone(), ctx1.clone()).unwrap();
    let (found, ctx2) = repo.load("user-42").unwrap();
    assert_eq!(found, second);
    assert_eq!(ctx2.version, 2);

    let r = repo.update_view("lost".to_string(), ctx1);
    assert_eq!(r, Err(MysqlAggregateError::OptimisticLock));
    let (found, ctx) = repo.load("user-42").unwrap();
    assert_eq!(found, second);
    assert_eq!(ctx.version, 2);
}
