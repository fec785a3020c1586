//! The rendering algorithm, stated over [`QueryModel`].
//!
//! A model renders to an ordered sequence of non-empty pieces — the raw
//! fragments, then per clause its anchored raw-before entries, its block
//! (when it has one) and its raw-after entries, in the fixed clause order
//! WITH, SELECT, FROM, JOIN, WHERE, GROUP BY, HAVING, ORDER BY, LIMIT,
//! OFFSET, UNION, INTERSECT, EXCEPT.  The pieces are joined with a single
//! space in one-line mode and with a line break (plus the running
//! indentation) in multi-line mode.  In colorized output every emitted
//! keyword is wrapped in terminal colour codes; fragments are never
//! inspected.

use vstd::prelude::*;
use crate::model::QueryModel;
use crate::model::SelectClause;
use crate::model::anchored;
use crate::text::joined;

verus! {

/// How a terminal call renders: on one line or across several, and with
/// or without colour codes around the emitted keywords.
#[derive(Clone, Copy, PartialEq, Eq, Structural, Debug)]
pub struct RenderMode {
    /// Start a new (indented) line for each piece instead of spacing.
    pub multi_line: bool,
    /// Wrap emitted SQL keywords in terminal colour codes.
    pub color: bool,
}

/// Plain one-line rendering, as produced by `as_string`.
pub open spec fn plain_mode() -> RenderMode {
    RenderMode { multi_line: false, color: false }
}

/// Multi-line colorized rendering, as produced by `as_debug_string`.
pub open spec fn debug_mode() -> RenderMode {
    RenderMode { multi_line: true, color: true }
}

/// One-line colorized rendering, as produced by `as_print_string`.
pub open spec fn print_mode() -> RenderMode {
    RenderMode { multi_line: false, color: true }
}

/// A keyword as emitted: wrapped in colour codes when `mode` colorizes.
pub open spec fn keyword(mode: RenderMode, w: Seq<char>) -> Seq<char> {
    if mode.color {
        "\u{1b}[34m"@ + w + "\u{1b}[0m"@
    } else {
        w
    }
}

/// The separator put between neighbouring pieces.
pub open spec fn piece_sep(mode: RenderMode, prefix: Seq<char>) -> Seq<char> {
    if mode.multi_line {
        "\n"@ + prefix
    } else {
        " "@
    }
}

/// The separator between WHERE (or HAVING) conditions.
pub open spec fn and_sep(mode: RenderMode) -> Seq<char> {
    " "@ + keyword(mode, "AND"@) + " "@
}

/// The block of a fragment-list clause: the keyword, a space, and the
/// fragments joined with `sep` — or no piece at all when the list is
/// empty.
pub open spec fn list_block(
    mode: RenderMode,
    kw: Seq<char>,
    items: Seq<Seq<char>>,
    sep: Seq<char>,
) -> Seq<Seq<char>> {
    if items.len() == 0 {
        Seq::empty()
    } else {
        seq![keyword(mode, kw) + " "@ + joined(items, sep)]
    }
}

/// The block of a keyword-less clause (raw, JOIN): the fragments joined
/// with `sep`, or no piece when the list is empty.
pub open spec fn plain_block(items: Seq<Seq<char>>, sep: Seq<char>) -> Seq<Seq<char>> {
    if items.len() == 0 {
        Seq::empty()
    } else {
        seq![joined(items, sep)]
    }
}

/// The block of a scalar clause (LIMIT, OFFSET): rendered only when the
/// scalar was ever set to non-empty text.
pub open spec fn scalar_block(mode: RenderMode, kw: Seq<char>, v: Seq<char>) -> Seq<Seq<char>> {
    if v.len() == 0 {
        Seq::empty()
    } else {
        seq![keyword(mode, kw) + " "@ + v]
    }
}

/// The pieces of one clause: its anchored raw-before entries, its block,
/// and its anchored raw-after entries.  Anchors render even when the
/// clause itself produced no block.
pub open spec fn clause_pieces(m: QueryModel, c: SelectClause, block: Seq<Seq<char>>) -> Seq<
    Seq<char>,
> {
    anchored(m.raw_before, c) + block + anchored(m.raw_after, c)
}

/// One CTE entry: `name AS (<sub-query>)`, with the sub-query on its own
/// deeper-indented lines in multi-line mode.
pub open spec fn cte_entry(
    name: Seq<char>,
    q: QueryModel,
    mode: RenderMode,
    prefix: Seq<char>,
) -> Seq<char>
    decreases q, 3int,
{
    name + " "@ + keyword(mode, "AS"@) + " ("@ + if mode.multi_line {
        "\n"@ + prefix + "  "@ + rendered_with(q, mode, prefix + "  "@) + "\n"@ + prefix
    } else {
        rendered_with(q, mode, prefix)
    } + ")"@
}

/// The comma-joined CTE entries, in binding order.
pub open spec fn cte_entries(
    ctes: Seq<(Seq<char>, QueryModel)>,
    mode: RenderMode,
    prefix: Seq<char>,
) -> Seq<Seq<char>>
    decreases ctes, 4int,
{
    if ctes.len() == 0 {
        Seq::empty()
    } else {
        cte_entries(ctes.drop_last(), mode, prefix).push(
            cte_entry(ctes[ctes.len() - 1].0, ctes[ctes.len() - 1].1, mode, prefix),
        )
    }
}

/// The WITH block: the keyword followed by the comma-joined entries.
pub open spec fn with_block(m: QueryModel, mode: RenderMode, prefix: Seq<char>) -> Seq<Seq<char>>
    decreases m, 0int,
{
    if m.ctes.len() == 0 {
        Seq::empty()
    } else {
        seq![keyword(mode, "WITH"@) + " "@ + joined(cte_entries(m.ctes, mode, prefix), ", "@)]
    }
}

/// The pieces of a set-operator clause: for each operand, in attachment
/// order, the operator keyword and the recursively rendered operand.
pub open spec fn op_pieces(
    subs: Seq<QueryModel>,
    kw: Seq<char>,
    mode: RenderMode,
    prefix: Seq<char>,
) -> Seq<Seq<char>>
    decreases subs, 4int,
{
    if subs.len() == 0 {
        Seq::empty()
    } else {
        op_pieces(subs.drop_last(), kw, mode, prefix) + seq![
            keyword(mode, kw),
            rendered_with(subs[subs.len() - 1], mode, prefix),
        ]
    }
}

/// Every piece of the statement, in the fixed clause order.
pub open spec fn query_pieces(m: QueryModel, mode: RenderMode, prefix: Seq<char>) -> Seq<Seq<char>>
    decreases m, 1int,
{
    plain_block(m.raw, " "@) + clause_pieces(m, SelectClause::With, with_block(m, mode, prefix))
        + clause_pieces(m, SelectClause::Select, list_block(mode, "SELECT"@, m.select, ", "@))
        + clause_pieces(m, SelectClause::From, list_block(mode, "FROM"@, m.from, ", "@))
        + clause_pieces(m, SelectClause::Join, plain_block(m.join, " "@)) + clause_pieces(
        m,
        SelectClause::Where,
        list_block(mode, "WHERE"@, m.where_conds, and_sep(mode)),
    ) + clause_pieces(m, SelectClause::GroupBy, list_block(mode, "GROUP BY"@, m.group_by, ", "@))
        + clause_pieces(m, SelectClause::Having, list_block(mode, "HAVING"@, m.having, and_sep(mode)))
        + clause_pieces(m, SelectClause::OrderBy, list_block(mode, "ORDER BY"@, m.order_by, ", "@))
        + clause_pieces(m, SelectClause::Limit, scalar_block(mode, "LIMIT"@, m.limit))
        + clause_pieces(m, SelectClause::Offset, scalar_block(mode, "OFFSET"@, m.offset))
        + clause_pieces(m, SelectClause::Union, op_pieces(m.unions, "UNION"@, mode, prefix))
        + clause_pieces(m, SelectClause::Intersect, op_pieces(m.intersects, "INTERSECT"@, mode, prefix))
        + clause_pieces(m, SelectClause::Except, op_pieces(m.excepts, "EXCEPT"@, mode, prefix))
}

/// The full rendering of `m` at indentation `prefix`: its pieces joined
/// with the mode's separator.  Empty clauses contribute nothing, so the
/// result has no stray separators and no leading or trailing whitespace
/// of its own.
pub open spec fn rendered_with(m: QueryModel, mode: RenderMode, prefix: Seq<char>) -> Seq<char>
    decreases m, 2int,
{
    joined(query_pieces(m, mode, prefix), piece_sep(mode, prefix))
}

/// The top-level rendering of `m` in `mode`.
pub open spec fn rendered(m: QueryModel, mode: RenderMode) -> Seq<char> {
    rendered_with(m, mode, Seq::empty())
}

} // verus!
