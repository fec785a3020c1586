//! The mathematical model of a builder: a record of the fragment
//! sequences held per clause, the anchored raw entries, and the attached
//! sub-queries, together with the transition functions that every fluent
//! method is specified against.

use vstd::prelude::*;
use crate::text::trimmed;

verus! {

/// The closed set of clause identifiers, used both to anchor raw
/// fragments and to fix the rendering order.
#[derive(Clone, Copy, PartialEq, Eq, Structural, Debug)]
pub enum SelectClause {
    With,
    Select,
    From,
    Join,
    Where,
    GroupBy,
    Having,
    OrderBy,
    Limit,
    Offset,
    Union,
    Intersect,
    Except,
}

/// The abstract state of a builder.  Every fragment sequence keeps the
/// first-push order; `limit` and `offset` are single overwritable
/// scalars; anchored raw entries are kept in call order and never
/// deduplicated; attached sub-queries are models of whole builders.
#[verifier::ext_equal]
pub struct QueryModel {
    /// Deduplicated raw fragments rendered before every other clause.
    pub raw: Seq<Seq<char>>,
    /// CTE bindings: (name, sub-query), in call order.
    pub ctes: Seq<(Seq<char>, QueryModel)>,
    /// SELECT list fragments.
    pub select: Seq<Seq<char>>,
    /// FROM fragments.
    pub from: Seq<Seq<char>>,
    /// JOIN fragments, each self-contained with its keyword.
    pub join: Seq<Seq<char>>,
    /// WHERE conditions.
    pub where_conds: Seq<Seq<char>>,
    /// GROUP BY columns.
    pub group_by: Seq<Seq<char>>,
    /// HAVING conditions.
    pub having: Seq<Seq<char>>,
    /// ORDER BY columns.
    pub order_by: Seq<Seq<char>>,
    /// The LIMIT scalar; empty when never set.
    pub limit: Seq<char>,
    /// The OFFSET scalar; empty when never set.
    pub offset: Seq<char>,
    /// Raw entries rendered immediately before their anchor clause.
    pub raw_before: Seq<(SelectClause, Seq<char>)>,
    /// Raw entries rendered immediately after their anchor clause.
    pub raw_after: Seq<(SelectClause, Seq<char>)>,
    /// UNION operands, in attachment order.
    pub unions: Seq<QueryModel>,
    /// INTERSECT operands, in attachment order.
    pub intersects: Seq<QueryModel>,
    /// EXCEPT operands, in attachment order.
    pub excepts: Seq<QueryModel>,
}

/// The state of a freshly created builder: everything empty.
pub open spec fn empty_query() -> QueryModel {
    QueryModel {
        raw: Seq::empty(),
        ctes: Seq::empty(),
        select: Seq::empty(),
        from: Seq::empty(),
        join: Seq::empty(),
        where_conds: Seq::empty(),
        group_by: Seq::empty(),
        having: Seq::empty(),
        order_by: Seq::empty(),
        limit: Seq::empty(),
        offset: Seq::empty(),
        raw_before: Seq::empty(),
        raw_after: Seq::empty(),
        unions: Seq::empty(),
        intersects: Seq::empty(),
        excepts: Seq::empty(),
    }
}

/// Append-if-new: `x` is appended at the end unless an equal value is
/// already present, in which case the sequence is left unchanged.
pub open spec fn push_unique(s: Seq<Seq<char>>, x: Seq<char>) -> Seq<Seq<char>> {
    if s.contains(x) {
        s
    } else {
        s.push(x)
    }
}

/// The texts of the entries of `es` anchored to clause `c`, in call order.
pub open spec fn anchored(es: Seq<(SelectClause, Seq<char>)>, c: SelectClause) -> Seq<Seq<char>>
    decreases es.len(),
{
    if es.len() == 0 {
        Seq::empty()
    } else {
        anchored(es.drop_last(), c) + if es[es.len() - 1].0 == c {
            seq![es[es.len() - 1].1]
        } else {
            Seq::empty()
        }
    }
}

/// `select(column)`: unique-push of the trimmed column list.
pub open spec fn select_t(m: QueryModel, c: Seq<char>) -> QueryModel {
    QueryModel { select: push_unique(m.select, trimmed(c)), ..m }
}

/// `from(tables)`: unique-push of the trimmed table list.
pub open spec fn from_t(m: QueryModel, c: Seq<char>) -> QueryModel {
    QueryModel { from: push_unique(m.from, trimmed(c)), ..m }
}

/// A join helper: the keyword is composed into the fragment before the
/// unique-push, so deduplication sees the full join text.
pub open spec fn join_t(m: QueryModel, kw: Seq<char>, table: Seq<char>) -> QueryModel {
    QueryModel { join: push_unique(m.join, kw + trimmed(table)), ..m }
}

/// `where_clause(condition)` and its synonym `and(condition)`.
pub open spec fn where_t(m: QueryModel, c: Seq<char>) -> QueryModel {
    QueryModel { where_conds: push_unique(m.where_conds, trimmed(c)), ..m }
}

/// `group_by(column)`.
pub open spec fn group_by_t(m: QueryModel, c: Seq<char>) -> QueryModel {
    QueryModel { group_by: push_unique(m.group_by, trimmed(c)), ..m }
}

/// `having(condition)`.
pub open spec fn having_t(m: QueryModel, c: Seq<char>) -> QueryModel {
    QueryModel { having: push_unique(m.having, trimmed(c)), ..m }
}

/// `order_by(column)`.
pub open spec fn order_by_t(m: QueryModel, c: Seq<char>) -> QueryModel {
    QueryModel { order_by: push_unique(m.order_by, trimmed(c)), ..m }
}

/// `limit(num)`: last write wins.
pub open spec fn limit_t(m: QueryModel, n: Seq<char>) -> QueryModel {
    QueryModel { limit: trimmed(n), ..m }
}

/// `offset(num)`: last write wins.
pub open spec fn offset_t(m: QueryModel, n: Seq<char>) -> QueryModel {
    QueryModel { offset: trimmed(n), ..m }
}

/// `raw(raw_sql)`: unique-push of the fragments rendered at the top.
pub open spec fn raw_t(m: QueryModel, s: Seq<char>) -> QueryModel {
    QueryModel { raw: push_unique(m.raw, trimmed(s)), ..m }
}

/// `raw_before(clause, raw_sql)`: plain append, never deduplicated.
pub open spec fn raw_before_t(m: QueryModel, c: SelectClause, s: Seq<char>) -> QueryModel {
    QueryModel { raw_before: m.raw_before.push((c, trimmed(s))), ..m }
}

/// `raw_after(clause, raw_sql)`: plain append, never deduplicated.
pub open spec fn raw_after_t(m: QueryModel, c: SelectClause, s: Seq<char>) -> QueryModel {
    QueryModel { raw_after: m.raw_after.push((c, trimmed(s))), ..m }
}

/// `with(name, query)`: binds `q` under the trimmed name, in call order.
pub open spec fn with_t(m: QueryModel, name: Seq<char>, q: QueryModel) -> QueryModel {
    QueryModel { ctes: m.ctes.push((trimmed(name), q)), ..m }
}

/// `union(query)`: appends a full sub-query operand.
pub open spec fn union_t(m: QueryModel, q: QueryModel) -> QueryModel {
    QueryModel { unions: m.unions.push(q), ..m }
}

/// `intersect(query)`: appends a full sub-query operand.
pub open spec fn intersect_t(m: QueryModel, q: QueryModel) -> QueryModel {
    QueryModel { intersects: m.intersects.push(q), ..m }
}

/// `except(query)`: appends a full sub-query operand.
pub open spec fn except_t(m: QueryModel, q: QueryModel) -> QueryModel {
    QueryModel { excepts: m.excepts.push(q), ..m }
}

} // verus!
