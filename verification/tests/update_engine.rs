use stats::date::Date;
use stats::error::UpdateError;
use stats::registry::{Chart, ChartKind, ChartRegistry};
use stats::series::DateValue;
use stats::source::DataSource;

fn date(s: &str) -> Date {
    Date::parse(s).expect("test date must parse")
}

fn row(d: &str, v: &str) -> DateValue {
    DateValue::new(date(d), v.to_string())
}

fn source_of(rows: Vec<DateValue>) -> DataSource {
    DataSource::from_rows(rows).expect("test rows must form a series")
}

fn stored(chart: &Chart) -> Vec<(String, String)> {
    chart
        .store
        .rows
        .iter()
        .map(|r| {
            (
                format!("{:04}-{:02}-{:02}", r.date.year, r.date.month, r.date.day),
                r.value.clone(),
            )
        })
        .collect()
}

fn expected(pairs: &[(&str, &str)]) -> Vec<(String, String)> {
    pairs
        .iter()
        .map(|(d, v)| (d.to_string(), v.to_string()))
        .collect()
}

#[test]
fn update_new_txns() {
    let source = source_of(vec![
        row("2022-11-09", "3"),
        row("2022-11-10", "6"),
        row("2022-11-11", "6"),
        row("2022-11-12", "1"),
    ]);
    let chart = stats::registry::new_txns(source);
    assert_eq!(chart.name(), "newTxns");
    assert_eq!(chart.kind(), ChartKind::Line);
    let mut registry = ChartRegistry::new();
    registry.register(chart).expect("registration must succeed");

    registry
        .update("newTxns", false)
        .expect("update must succeed");

    let chart = registry.get("newTxns").expect("chart must be found");
    assert_eq!(
        stored(chart),
        expected(&[
            ("2022-11-09", "3"),
            ("2022-11-10", "6"),
            ("2022-11-11", "6"),
            ("2022-11-12", "1"),
        ])
    );
    assert_eq!(chart.store.last_date(), Some(date("2022-11-12")));
}

#[test]
fn update_twice_without_new_activity_is_idempotent() {
    let source = source_of(vec![row("2022-11-09", "3"), row("2022-11-10", "6")]);
    let chart = Chart::new("newTxns".to_string(), ChartKind::Line, source);
    let mut registry = ChartRegistry::new();
    registry.register(chart).unwrap();

    registry.update("newTxns", false).unwrap();
    let first = stored(registry.get("newTxns").unwrap());
    registry.update("newTxns", false).unwrap();
    let second = stored(registry.get("newTxns").unwrap());

    assert_eq!(first, second);
    assert_eq!(first, expected(&[("2022-11-09", "3"), ("2022-11-10", "6")]));
}

#[test]
fn update_appends_only_rows_after_the_checkpoint() {
    let source = source_of(vec![row("2022-11-09", "3"), row("2022-11-10", "6")]);
    let chart = Chart::new("newTxns".to_string(), ChartKind::Line, source);
    let mut registry = ChartRegistry::new();
    registry.register(chart).unwrap();
    registry.update("newTxns", false).unwrap();

    // The ledger gains two more days; nothing at or before the checkpoint moves.
    {
        let chart = &mut registry.charts[0];
        chart.source.push_row(row("2022-11-11", "6")).unwrap();
        chart.source.push_row(row("2022-11-12", "1")).unwrap();
    }
    registry.update("newTxns", false).unwrap();

    let chart = registry.get("newTxns").unwrap();
    assert_eq!(
        stored(chart),
        expected(&[
            ("2022-11-09", "3"),
            ("2022-11-10", "6"),
            ("2022-11-11", "6"),
            ("2022-11-12", "1"),
        ])
    );
    assert_eq!(chart.store.last_date(), Some(date("2022-11-12")));
}

#[test]
fn force_full_update_reproduces_a_correct_series() {
    let source = source_of(vec![
        row("2022-11-09", "3"),
        row("2022-11-10", "6"),
        row("2022-11-11", "6"),
    ]);
    let chart = Chart::new("newTxns".to_string(), ChartKind::Line, source);
    let mut registry = ChartRegistry::new();
    registry.register(chart).unwrap();
    registry.update("newTxns", false).unwrap();
    let before = stored(registry.get("newTxns").unwrap());

    registry.update("newTxns", true).unwrap();

    assert_eq!(stored(registry.get("newTxns").unwrap()), before);
}

#[test]
fn force_full_update_overwrites_corrected_history() {
    let source = source_of(vec![row("2022-11-09", "3"), row("2022-11-10", "6")]);
    let chart = Chart::new("newTxns".to_string(), ChartKind::Line, source);
    let mut registry = ChartRegistry::new();
    registry.register(chart).unwrap();
    registry.update("newTxns", false).unwrap();

    // The ledger's history is corrected below the checkpoint.  An incremental
    // update cannot see that; a force-full one must.
    registry.charts[0].source.rows[0] = row("2022-11-09", "4");
    registry.update("newTxns", false).unwrap();
    assert_eq!(
        stored(registry.get("newTxns").unwrap()),
        expected(&[("2022-11-09", "3"), ("2022-11-10", "6")])
    );

    registry.update("newTxns", true).unwrap();
    assert_eq!(
        stored(registry.get("newTxns").unwrap()),
        expected(&[("2022-11-09", "4"), ("2022-11-10", "6")])
    );
}

#[test]
fn unknown_chart_fails_with_not_found_and_touches_nothing() {
    let source = source_of(vec![row("2022-11-09", "3")]);
    let chart = Chart::new("newTxns".to_string(), ChartKind::Line, source);
    let mut registry = ChartRegistry::new();
    registry.register(chart).unwrap();

    let err = registry.update("doesNotExist", false).unwrap_err();
    match err {
        UpdateError::NotFound(name) => assert_eq!(name, "doesNotExist"),
        other => panic!("expected NotFound, got {:?}", other),
    }
    // No store state was touched: the one chart's series is still empty.
    assert!(registry.get("newTxns").unwrap().store.rows.is_empty());

    let err = registry.get("doesNotExist").unwrap_err();
    assert!(matches!(err, UpdateError::NotFound(_)));
}

#[test]
fn source_failure_surfaces_and_leaves_the_checkpoint_alone() {
    let source = source_of(vec![row("2022-11-09", "3"), row("2022-11-10", "6")]);
    let chart = Chart::new("newTxns".to_string(), ChartKind::Line, source);
    let mut registry = ChartRegistry::new();
    registry.register(chart).unwrap();
    registry.update("newTxns", false).unwrap();

    registry.charts[0].source.push_row(row("2022-11-11", "6")).unwrap();
    registry.charts[0].source.available = false;
    let err = registry.update("newTxns", false).unwrap_err();
    assert!(matches!(err, UpdateError::SourceUnavailable));
    assert_eq!(
        registry.get("newTxns").unwrap().store.last_date(),
        Some(date("2022-11-10"))
    );

    // The ledger comes back; the retry fetches from the same point.
    registry.charts[0].source.available = true;
    registry.update("newTxns", false).unwrap();
    assert_eq!(
        registry.get("newTxns").unwrap().store.last_date(),
        Some(date("2022-11-11"))
    );
}

#[test]
fn persistence_failure_is_atomic_and_retry_succeeds() {
    let source = source_of(vec![row("2022-11-09", "3"), row("2022-11-10", "6")]);
    let chart = Chart::new("newTxns".to_string(), ChartKind::Line, source);
    let mut registry = ChartRegistry::new();
    registry.register(chart).unwrap();

    registry.charts[0].store.available = false;
    let err = registry.update("newTxns", false).unwrap_err();
    assert!(matches!(err, UpdateError::PersistenceFailure));
    assert!(registry.get("newTxns").unwrap().store.rows.is_empty());

    // The store comes back; the fetched batch was kept and lands whole.
    registry.charts[0].store.available = true;
    registry.update("newTxns", false).unwrap();
    assert_eq!(
        stored(registry.get("newTxns").unwrap()),
        expected(&[("2022-11-09", "3"), ("2022-11-10", "6")])
    );
}

#[test]
fn upsert_overwrites_by_date_without_duplicates() {
    let mut store = stats::store::Store::new();
    store
        .upsert(&vec![row("2022-11-09", "3"), row("2022-11-10", "6")])
        .unwrap();
    store
        .upsert(&vec![row("2022-11-10", "7"), row("2022-11-11", "2")])
        .unwrap();
    let got: Vec<(String, String)> = store
        .rows
        .iter()
        .map(|r| {
            (
                format!("{:04}-{:02}-{:02}", r.date.year, r.date.month, r.date.day),
                r.value.clone(),
            )
        })
        .collect();
    assert_eq!(
        got,
        expected(&[("2022-11-09", "3"), ("2022-11-10", "7"), ("2022-11-11", "2")])
    );
}

#[test]
fn duplicate_registration_is_refused() {
    let mut registry = ChartRegistry::new();
    let a = Chart::new(
        "newTxns".to_string(),
        ChartKind::Line,
        source_of(vec![]),
    );
    let b = Chart::new(
        "newTxns".to_string(),
        ChartKind::Counter,
        source_of(vec![]),
    );
    registry.register(a).unwrap();
    let err = registry.register(b).unwrap_err();
    assert!(matches!(err, UpdateError::Internal(_)));
    assert_eq!(registry.charts.len(), 1);
    assert_eq!(registry.get("newTxns").unwrap().kind(), ChartKind::Line);
}

#[test]
fn unsorted_source_rows_are_refused() {
    let err = DataSource::from_rows(vec![row("2022-11-10", "6"), row("2022-11-09", "3")])
        .unwrap_err();
    assert!(matches!(err, UpdateError::Internal(_)));
    let err =
        DataSource::from_rows(vec![row("2022-11-09", "3"), row("2022-11-09", "4")]).unwrap_err();
    assert!(matches!(err, UpdateError::Internal(_)));
}

#[test]
fn error_kinds_have_names() {
    assert_eq!(UpdateError::SourceUnavailable.kind_name(), "source unavailable");
    assert_eq!(UpdateError::PersistenceFailure.kind_name(), "persistence failure");
    assert_eq!(
        UpdateError::NotFound("x".to_string()).kind_name(),
        "not found"
    );
    assert_eq!(UpdateError::Internal("y".to_string()).kind_name(), "internal");
}

#[test]
fn out_of_order_source_row_is_refused() {
    let mut source = source_of(vec![row("2022-11-10", "6")]);
    let err = source.push_row(row("2022-11-09", "3")).unwrap_err();
    assert!(matches!(err, UpdateError::Internal(_)));
    let err = source.push_row(row("2022-11-10", "7")).unwrap_err();
    assert!(matches!(err, UpdateError::Internal(_)));
    source.push_row(row("2022-11-11", "1")).unwrap();
    assert_eq!(source.rows.len(), 2);
}
