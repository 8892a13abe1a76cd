use stats::domain_query::{
    check_schema_name, detailed_domain_select, domain_select, gen_sql_select_domains_by_address,
    PageParams, QueryBuilderExt, SelectClause, WhereClause,
};
use stats::error::UpdateError;

#[test]
fn schema_names_pass_the_allow_list_or_not_at_all() {
    assert!(check_schema_name("public"));
    assert!(check_schema_name("sgd1"));
    assert!(check_schema_name("_shadow"));
    assert!(check_schema_name("a"));

    assert!(!check_schema_name(""));
    assert!(!check_schema_name("1abc"));
    assert!(!check_schema_name("Public"));
    assert!(!check_schema_name("sgd-1"));
    assert!(!check_schema_name("sgd1; drop table domain"));
    assert!(!check_schema_name("sgd1.domain"));
    assert!(!check_schema_name(&"a".repeat(64)));
    assert!(check_schema_name(&"a".repeat(63)));
}

#[test]
fn select_constructors_validate_the_schema() {
    let q = domain_select("sgd1").unwrap();
    assert_eq!(q.schema, "sgd1");
    assert_eq!(q.select, SelectClause::DomainDefault);
    assert!(q.wheres.is_empty());
    assert!(q.page.is_none());

    let q = detailed_domain_select("sgd1").unwrap();
    assert_eq!(q.select, SelectClause::DetailedDefault);

    let err = domain_select("sgd1; --").unwrap_err();
    assert!(matches!(err, UpdateError::Internal(_)));
}

#[test]
fn builder_appends_clauses_in_order() {
    let q = domain_select("sgd1")
        .unwrap()
        .with_block_range()
        .with_not_expired()
        .with_non_empty_label()
        .with_resolved_names();
    assert_eq!(
        q.wheres,
        vec![
            WhereClause::BlockRange,
            WhereClause::NotExpired,
            WhereClause::NonEmptyLabel,
            WhereClause::ResolvedNames,
        ]
    );
    assert_eq!(q.schema, "sgd1");
}

#[test]
fn lookup_by_address_builds_the_exact_clause_list() {
    let q = gen_sql_select_domains_by_address(
        "sgd1",
        false,
        true,
        true,
        false,
        Some(PageParams { page_size: 50 }),
    )
    .unwrap();
    assert_eq!(q.select, SelectClause::DomainDefault);
    assert_eq!(
        q.wheres,
        vec![
            WhereClause::BlockRange,
            WhereClause::NonEmptyLabel,
            WhereClause::ResolvedNames,
            WhereClause::NotExpired,
            WhereClause::AddressFilter { resolved_to: true, owned_by: false },
        ]
    );
    assert_eq!(q.page, Some(PageParams { page_size: 50 }));

    let q = gen_sql_select_domains_by_address("sgd1", true, false, false, true, None).unwrap();
    assert_eq!(q.select, SelectClause::CountAll);
    assert_eq!(
        q.wheres,
        vec![
            WhereClause::BlockRange,
            WhereClause::NonEmptyLabel,
            WhereClause::ResolvedNames,
            WhereClause::AddressFilter { resolved_to: false, owned_by: true },
        ]
    );
}

#[test]
fn malformed_pagination_is_an_internal_error() {
    let err = gen_sql_select_domains_by_address(
        "sgd1",
        false,
        false,
        true,
        true,
        Some(PageParams { page_size: 0 }),
    )
    .unwrap_err();
    match err {
        UpdateError::Internal(m) => assert!(m.contains("pagination")),
        other => panic!("expected Internal, got {:?}", other),
    }
}

#[test]
fn single_domain_lookup_builds_the_exact_clause_list() {
    let q = stats::domain_query::get_domain_query("sgd1", true).unwrap();
    assert_eq!(q.select, SelectClause::DetailedDefault);
    assert_eq!(
        q.wheres,
        vec![
            WhereClause::IdList,
            WhereClause::BlockRange,
            WhereClause::NotExpired,
        ]
    );
    let q = stats::domain_query::get_domain_query("sgd1", false).unwrap();
    assert_eq!(q.wheres, vec![WhereClause::IdList, WhereClause::BlockRange]);
    assert!(stats::domain_query::get_domain_query("bad name", false).is_err());
}

#[test]
fn domain_search_builds_the_exact_clause_list() {
    let q = stats::domain_query::find_domains_query(
        "sgd1",
        true,
        true,
        Some(PageParams { page_size: 10 }),
    )
    .unwrap();
    assert_eq!(q.select, SelectClause::DomainDefault);
    assert_eq!(
        q.wheres,
        vec![
            WhereClause::BlockRange,
            WhereClause::NotExpired,
            WhereClause::IdList,
        ]
    );
    assert_eq!(q.page, Some(PageParams { page_size: 10 }));

    let q = stats::domain_query::find_domains_query("sgd1", false, false, None).unwrap();
    assert_eq!(
        q.wheres,
        vec![
            WhereClause::BlockRange,
            WhereClause::NonEmptyLabel,
            WhereClause::ResolvedNames,
        ]
    );
    assert!(q.page.is_none());

    let err = stats::domain_query::find_domains_query(
        "sgd1",
        false,
        false,
        Some(PageParams { page_size: 0 }),
    )
    .unwrap_err();
    assert!(matches!(err, UpdateError::Internal(_)));
}
