//! Allow-list validation and clause composition for domain lookup queries.
//!
//! The one dynamic identifier that ever reaches query text is a schema name,
//! so it is held to a strict allow-list (lower-case ASCII letters, digits and
//! underscores, not starting with a digit) before any query is built; every
//! literal filter stays a bound parameter.  A query is composed as data — a
//! select clause plus an ordered list of where-clauses — which the layer that
//! talks to the database renders; what is verified here is exactly which
//! clauses a request produces, and that no unvalidated identifier gets in.

use vstd::prelude::*;

use crate::error::UpdateError;

verus! {

/// The longest identifier the target database accepts.
pub const SCHEMA_NAME_MAX: usize = 63;

/// The ordered where-clauses a domain query can carry.  `AddressFilter` keeps
/// the address itself a bound parameter; the flags only choose which columns
/// it is matched against.
#[derive(Clone, Copy, PartialEq, Eq, Structural, Debug)]
pub enum WhereClause {
    /// Restrict to the current version of each domain row.
    BlockRange,
    /// Drop rows whose label is still unresolved.
    NonEmptyLabel,
    /// Drop expired domains.
    NotExpired,
    /// Drop rows whose name failed resolution.
    ResolvedNames,
    /// Restrict to an explicit list of domain ids, passed as a bound list.
    IdList,
    /// Match a bound address against the chosen ownership columns.
    AddressFilter { resolved_to: bool, owned_by: bool },
}

/// Which columns the query projects.
#[derive(Clone, Copy, PartialEq, Eq, Structural, Debug)]
pub enum SelectClause {
    /// The default domain projection.
    DomainDefault,
    /// The detailed projection with registration and expiry data.
    DetailedDefault,
    /// A bare row count.
    CountAll,
}

/// Pagination input as the caller hands it over; a page must hold something.
#[derive(Clone, Copy, PartialEq, Eq, Structural, Debug)]
pub struct PageParams {
    pub page_size: u64,
}

pub open spec fn page_ok(page: Option<PageParams>) -> bool {
    page matches Some(p) ==> p.page_size >= 1
}

pub open spec fn schema_char_ok(c: char, first: bool) -> bool {
    ||| 97 <= c as int <= 122
    ||| c as int == 95
    ||| (!first && 48 <= c as int <= 57)
}

/// The allow-list for the one dynamic identifier.
pub open spec fn schema_name_ok(s: Seq<char>) -> bool {
    &&& 1 <= s.len() <= SCHEMA_NAME_MAX
    &&& forall|i: int| 0 <= i < s.len() ==> schema_char_ok(#[trigger] s[i], i == 0)
}

/// Checks a schema name against the allow-list.
pub fn check_schema_name(s: &str) -> (r: bool)
    ensures
        r == schema_name_ok(s@),
{
    let n = s.unicode_len();
    if n < 1 || n > SCHEMA_NAME_MAX {
        return false;
    }
    let mut i: usize = 0;
    while i < n
        invariant
            n == s@.len(),
            i <= n,
            forall|k: int| 0 <= k < i ==> schema_char_ok(#[trigger] s@[k], k == 0),
        decreases n - i,
    {
        let c = s.get_char(i);
        let v = c as u32;
        let ok: bool = (97 <= v && v <= 122) || v == 95 || (i != 0 && 48 <= v && v <= 57);
        if !ok {
            return false;
        }
        i = i + 1;
    }
    true
}

/// A domain query as data: a validated schema, a projection, where-clauses
/// in the order they were added, and optional pagination.
#[derive(Debug)]
pub struct DomainQuery {
    pub schema: String,
    pub select: SelectClause,
    pub wheres: Vec<WhereClause>,
    pub page: Option<PageParams>,
}

impl DomainQuery {
    /// A query never escapes construction with an unvalidated identifier.
    pub open spec fn wf(&self) -> bool {
        schema_name_ok(self.schema@)
    }
}

/// Composition of the shared where-clauses, usable on any query type that
/// exposes its clause list.
pub trait QueryBuilderExt: Sized {
    /// The where-clauses gathered so far.
    spec fn clauses(&self) -> Seq<WhereClause>;

    /// Everything about the query apart from its where-clauses.
    spec fn same_frame(&self, other: &Self) -> bool;

    fn with_block_range(self) -> (r: Self)
        ensures
            r.clauses() == self.clauses().push(WhereClause::BlockRange),
            r.same_frame(&self),
    ;

    fn with_non_empty_label(self) -> (r: Self)
        ensures
            r.clauses() == self.clauses().push(WhereClause::NonEmptyLabel),
            r.same_frame(&self),
    ;

    fn with_not_expired(self) -> (r: Self)
        ensures
            r.clauses() == self.clauses().push(WhereClause::NotExpired),
            r.same_frame(&self),
    ;

    fn with_resolved_names(self) -> (r: Self)
        ensures
            r.clauses() == self.clauses().push(WhereClause::ResolvedNames),
            r.same_frame(&self),
    ;
}

impl QueryBuilderExt for DomainQuery {
    open spec fn clauses(&self) -> Seq<WhereClause> {
        self.wheres@
    }

    open spec fn same_frame(&self, other: &Self) -> bool {
        self.schema@ == other.schema@ && self.select == other.select && self.page == other.page
    }

    fn with_block_range(self) -> (r: Self) {
        let mut r = self;
        r.wheres.push(WhereClause::BlockRange);
        r
    }

    fn with_non_empty_label(self) -> (r: Self) {
        let mut r = self;
        r.wheres.push(WhereClause::NonEmptyLabel);
        r
    }

    fn with_not_expired(self) -> (r: Self) {
        let mut r = self;
        r.wheres.push(WhereClause::NotExpired);
        r
    }

    fn with_resolved_names(self) -> (r: Self) {
        let mut r = self;
        r.wheres.push(WhereClause::ResolvedNames);
        r
    }
}

/// A fresh query over the domain table with a chosen projection, refusing a
/// schema name outside the allow-list.
pub fn domain_select_custom(schema: &str, select: SelectClause) -> (r: Result<
    DomainQuery,
    UpdateError,
>)
    ensures
        (r is Ok) <==> schema_name_ok(schema@),
        r matches Ok(q) ==> q.wf() && q.schema@ == schema@ && q.select == select && q.wheres@
            == Seq::<WhereClause>::empty() && q.page is None,
        r matches Err(e) ==> e matches UpdateError::Internal(m) && m@
            == "schema name refused by the allow-list"@,
{
    if !check_schema_name(schema) {
        return Err(UpdateError::Internal("schema name refused by the allow-list".to_owned()));
    }
    let q = DomainQuery { schema: schema.to_owned(), select, wheres: Vec::new(), page: None };
    proof {
        assert(q.wheres@ =~= Seq::<WhereClause>::empty());
    }
    Ok(q)
}

/// A fresh query with the default domain projection.
pub fn domain_select(schema: &str) -> (r: Result<DomainQuery, UpdateError>)
    ensures
        (r is Ok) <==> schema_name_ok(schema@),
        r matches Ok(q) ==> q.wf() && q.schema@ == schema@ && q.select
            == SelectClause::DomainDefault && q.wheres@ == Seq::<WhereClause>::empty() && q.page
            is None,
        r matches Err(e) ==> e matches UpdateError::Internal(m) && m@
            == "schema name refused by the allow-list"@,
{
    domain_select_custom(schema, SelectClause::DomainDefault)
}

/// A fresh query with the detailed projection.
pub fn detailed_domain_select(schema: &str) -> (r: Result<DomainQuery, UpdateError>)
    ensures
        (r is Ok) <==> schema_name_ok(schema@),
        r matches Ok(q) ==> q.wf() && q.schema@ == schema@ && q.select
            == SelectClause::DetailedDefault && q.wheres@ == Seq::<WhereClause>::empty() && q.page
            is None,
        r matches Err(e) ==> e matches UpdateError::Internal(m) && m@
            == "schema name refused by the allow-list"@,
{
    domain_select_custom(schema, SelectClause::DetailedDefault)
}

/// The exact clause list a single-domain lookup carries: the bound id, the
/// current-version filter, and — only when asked — the not-expired filter.
pub open spec fn get_domain_clauses(only_active: bool) -> Seq<WhereClause> {
    seq![WhereClause::IdList, WhereClause::BlockRange] + (if only_active {
        seq![WhereClause::NotExpired]
    } else {
        Seq::<WhereClause>::empty()
    })
}

/// Builds the single-domain lookup: the detailed projection, the domain id
/// as a bound parameter, and the active filter exactly when requested.
pub fn get_domain_query(schema: &str, only_active: bool) -> (r: Result<DomainQuery, UpdateError>)
    ensures
        (r is Ok) <==> schema_name_ok(schema@),
        r matches Ok(q) ==> q.wf() && q.schema@ == schema@ && q.select
            == SelectClause::DetailedDefault && q.wheres@ == get_domain_clauses(only_active)
            && q.page is None,
        r matches Err(e) ==> e matches UpdateError::Internal(m) && m@
            == "schema name refused by the allow-list"@,
{
    let mut q = match detailed_domain_select(schema) {
        Ok(q) => q,
        Err(e) => {
            return Err(e);
        },
    };
    q.wheres.push(WhereClause::IdList);
    let mut q = q.with_block_range();
    if only_active {
        q = q.with_not_expired();
    }
    proof {
        assert(q.wheres@ =~= get_domain_clauses(only_active));
    }
    Ok(q)
}

/// The exact clause list a domain search carries: the current-version
/// filter, the not-expired filter when asked, and then either the bound id
/// list or the two filters that keep only presentable names.
pub open spec fn find_domains_clauses(with_names: bool, only_active: bool) -> Seq<WhereClause> {
    seq![WhereClause::BlockRange] + (if only_active {
        seq![WhereClause::NotExpired]
    } else {
        Seq::<WhereClause>::empty()
    }) + (if with_names {
        seq![WhereClause::IdList]
    } else {
        seq![WhereClause::NonEmptyLabel, WhereClause::ResolvedNames]
    })
}

/// Builds the domain search: by an explicit bound list of ids, or across all
/// presentable domains, with pagination validated.
pub fn find_domains_query(
    schema: &str,
    with_names: bool,
    only_active: bool,
    page: Option<PageParams>,
) -> (r: Result<DomainQuery, UpdateError>)
    ensures
        (r is Ok) <==> (schema_name_ok(schema@) && page_ok(page)),
        r matches Ok(q) ==> q.wf() && q.schema@ == schema@ && q.select
            == SelectClause::DomainDefault && q.wheres@ == find_domains_clauses(
            with_names,
            only_active,
        ) && q.page == page,
        r matches Err(e) ==> e matches UpdateError::Internal(m) && (if !schema_name_ok(schema@) {
            m@ == "schema name refused by the allow-list"@
        } else {
            m@ == "pagination input refused: a page must hold at least one row"@
        }),
{
    let base = match domain_select(schema) {
        Ok(q) => q,
        Err(e) => {
            return Err(e);
        },
    };
    let mut q = base.with_block_range();
    if only_active {
        q = q.with_not_expired();
    }
    if with_names {
        q.wheres.push(WhereClause::IdList);
    } else {
        q = q.with_non_empty_label().with_resolved_names();
    }
    match page {
        None => {},
        Some(p) => {
            if p.page_size < 1 {
                return Err(UpdateError::Internal(
                    "pagination input refused: a page must hold at least one row".to_owned(),
                ));
            }
            q.page = Some(p);
        },
    }
    proof {
        assert(q.wheres@ =~= find_domains_clauses(with_names, only_active));
    }
    Ok(q)
}

/// The exact clause list a lookup-by-address query carries.
pub open spec fn address_filter_clauses(
    only_active: bool,
    resolved_to: bool,
    owned_by: bool,
) -> Seq<WhereClause> {
    seq![WhereClause::BlockRange, WhereClause::NonEmptyLabel, WhereClause::ResolvedNames] + (
    if only_active {
        seq![WhereClause::NotExpired]
    } else {
        Seq::<WhereClause>::empty()
    }) + seq![WhereClause::AddressFilter { resolved_to, owned_by }]
}

/// Builds the lookup-by-address query: count or row projection, the shared
/// domain filters, optionally the not-expired filter, and the address match
/// against the chosen ownership columns, with pagination validated.
pub fn gen_sql_select_domains_by_address(
    schema: &str,
    count_only: bool,
    only_active: bool,
    resolved_to: bool,
    owned_by: bool,
    page: Option<PageParams>,
) -> (r: Result<DomainQuery, UpdateError>)
    ensures
        (r is Ok) <==> (schema_name_ok(schema@) && page_ok(page)),
        r matches Ok(q) ==> q.wf() && q.schema@ == schema@ && q.select == (if count_only {
            SelectClause::CountAll
        } else {
            SelectClause::DomainDefault
        }) && q.wheres@ == address_filter_clauses(only_active, resolved_to, owned_by) && q.page
            == page,
        r matches Err(e) ==> e matches UpdateError::Internal(m) && (if !schema_name_ok(schema@) {
            m@ == "schema name refused by the allow-list"@
        } else {
            m@ == "pagination input refused: a page must hold at least one row"@
        }),
{
    let select = if count_only {
        SelectClause::CountAll
    } else {
        SelectClause::DomainDefault
    };
    let base = match domain_select_custom(schema, select) {
        Ok(q) => q,
        Err(e) => {
            return Err(e);
        },
    };
    let mut q = base.with_block_range().with_non_empty_label().with_resolved_names();
    if only_active {
        q = q.with_not_expired();
    }
    q.wheres.push(WhereClause::AddressFilter { resolved_to, owned_by });
    match page {
        None => {},
        Some(p) => {
            if p.page_size < 1 {
                return Err(UpdateError::Internal(
                    "pagination input refused: a page must hold at least one row".to_owned(),
                ));
            }
            q.page = Some(p);
        },
    }
    proof {
        assert(q.wheres@ =~= address_filter_clauses(only_active, resolved_to, owned_by));
    }
    Ok(q)
}

} // verus!
