//! Laws of the clause-assembly engine, stated and proved over the model
//! and the rendering algorithm.

use vstd::prelude::*;
use crate::model::QueryModel;
use crate::model::SelectClause;
use crate::model::anchored;
use crate::model::from_t;
use crate::model::group_by_t;
use crate::model::having_t;
use crate::model::join_t;
use crate::model::limit_t;
use crate::model::offset_t;
use crate::model::order_by_t;
use crate::model::push_unique;
use crate::model::raw_t;
use crate::model::select_t;
use crate::model::where_t;
use crate::render::RenderMode;
use crate::render::clause_pieces;
use crate::render::rendered_with;
use crate::text::trimmed;

verus! {

/// Unique-push is idempotent: once a value is in, pushing it again
/// changes nothing.
pub proof fn lemma_push_unique_repeat(s: Seq<Seq<char>>, x: Seq<char>)
    ensures
        push_unique(push_unique(s, x), x) == push_unique(s, x),
{
    if !s.contains(x) {
        assert(s.push(x)[s.len() as int] == x);
        assert(s.push(x).contains(x));
    }
}

/// Repeated unique-pushes of distinct, not-yet-present values.
pub open spec fn push_unique_all(s: Seq<Seq<char>>, xs: Seq<Seq<char>>) -> Seq<Seq<char>>
    decreases xs.len(),
{
    if xs.len() == 0 {
        s
    } else {
        push_unique_all(push_unique(s, xs[0]), xs.drop_first())
    }
}

/// Fragments whose texts are pairwise distinct and not yet present
/// append in first-push order: the clause sequence is exactly the push
/// order, never sorted or reordered — and every clause block renders its
/// sequence in that order.
pub proof fn lemma_first_push_order(s: Seq<Seq<char>>, xs: Seq<Seq<char>>)
    requires
        forall|i: int, j: int| 0 <= i < j < xs.len() ==> xs[i] != xs[j],
        forall|i: int| 0 <= i < xs.len() ==> !s.contains(xs[i]),
    ensures
        push_unique_all(s, xs) == s + xs,
    decreases xs.len(),
{
    if xs.len() == 0 {
        assert(push_unique_all(s, xs) =~= s + xs);
    } else {
        let x = xs[0];
        assert(!s.contains(x));
        let s1 = s.push(x);
        assert(push_unique(s, x) == s1);
        let rest = xs.drop_first();
        assert forall|i: int| 0 <= i < rest.len() implies !s1.contains(rest[i]) by {
            let y = rest[i];
            assert(y == xs[i + 1]);
            assert(y != x);
            assert(!s.contains(y));
            if s1.contains(y) {
                let j = choose|j: int| 0 <= j < s1.len() && s1[j] == y;
                if j < s.len() {
                    assert(s[j] == y);
                    assert(s.contains(y));
                } else {
                    assert(s1[j] == x);
                }
            }
        }
        lemma_first_push_order(s1, rest);
        assert(s1 + rest =~= s + xs);
    }
}

/// The state after chaining `select` over every column of `cs` in order.
pub open spec fn select_all_t(m: QueryModel, cs: Seq<Seq<char>>) -> QueryModel
    decreases cs.len(),
{
    if cs.len() == 0 {
        m
    } else {
        select_all_t(select_t(m, cs[0]), cs.drop_first())
    }
}

/// Columns whose trimmed texts are pairwise distinct and not yet present
/// land in the SELECT list in first-push order — never sorted — and no
/// other clause moves.
pub proof fn lemma_select_order(m: QueryModel, cs: Seq<Seq<char>>)
    requires
        forall|i: int, j: int| 0 <= i < j < cs.len() ==> trimmed(cs[i]) != trimmed(cs[j]),
        forall|i: int| 0 <= i < cs.len() ==> !m.select.contains(trimmed(cs[i])),
    ensures
        select_all_t(m, cs) == (QueryModel {
            select: m.select + cs.map_values(|c: Seq<char>| trimmed(c)),
            ..m
        }),
    decreases cs.len(),
{
    let f = |c: Seq<char>| trimmed(c);
    if cs.len() == 0 {
        assert(m.select + cs.map_values(f) =~= m.select);
        assert(select_all_t(m, cs) =~= (QueryModel { select: m.select + cs.map_values(f), ..m }));
    } else {
        let t0 = trimmed(cs[0]);
        assert(!m.select.contains(t0));
        let m1 = select_t(m, cs[0]);
        assert(m1.select == m.select.push(t0));
        let rest = cs.drop_first();
        assert forall|i: int| 0 <= i < rest.len() implies !m1.select.contains(trimmed(rest[i])) by {
            let y = trimmed(rest[i]);
            assert(rest[i] == cs[i + 1]);
            assert(y != t0);
            assert(!m.select.contains(y));
            if m1.select.contains(y) {
                let j = choose|j: int| 0 <= j < m1.select.len() && m1.select[j] == y;
                if j < m.select.len() {
                    assert(m.select[j] == y);
                    assert(m.select.contains(y));
                } else {
                    assert(m1.select[j] == t0);
                }
            }
        }
        lemma_select_order(m1, rest);
        assert(m1.select + rest.map_values(f) =~= m.select + cs.map_values(f));
        assert(select_all_t(m, cs) =~= (QueryModel { select: m.select + cs.map_values(f), ..m }));
    }
}

/// Pushing the same column to the SELECT list twice leaves the state,
/// and hence every rendering, exactly as after pushing it once.
pub proof fn lemma_select_twice(m: QueryModel, c: Seq<char>, mode: RenderMode, prefix: Seq<char>)
    ensures
        select_t(select_t(m, c), c) == select_t(m, c),
        rendered_with(select_t(select_t(m, c), c), mode, prefix) == rendered_with(
            select_t(m, c),
            mode,
            prefix,
        ),
{
    lemma_push_unique_repeat(m.select, trimmed(c));
    assert(select_t(select_t(m, c), c) =~= select_t(m, c));
}

/// Pushing the same table list to FROM twice equals pushing it once.
pub proof fn lemma_from_twice(m: QueryModel, c: Seq<char>, mode: RenderMode, prefix: Seq<char>)
    ensures
        from_t(from_t(m, c), c) == from_t(m, c),
        rendered_with(from_t(from_t(m, c), c), mode, prefix) == rendered_with(
            from_t(m, c),
            mode,
            prefix,
        ),
{
    lemma_push_unique_repeat(m.from, trimmed(c));
    assert(from_t(from_t(m, c), c) =~= from_t(m, c));
}

/// Pushing the same condition to WHERE twice equals pushing it once;
/// `and` is the same transition, so this covers it too.
pub proof fn lemma_where_twice(m: QueryModel, c: Seq<char>, mode: RenderMode, prefix: Seq<char>)
    ensures
        where_t(where_t(m, c), c) == where_t(m, c),
        rendered_with(where_t(where_t(m, c), c), mode, prefix) == rendered_with(
            where_t(m, c),
            mode,
            prefix,
        ),
{
    lemma_push_unique_repeat(m.where_conds, trimmed(c));
    assert(where_t(where_t(m, c), c) =~= where_t(m, c));
}

/// A join helper called twice with the same keyword and table text
/// leaves one join fragment: deduplication sees the composed join text.
pub proof fn lemma_join_twice(
    m: QueryModel,
    kw: Seq<char>,
    table: Seq<char>,
    mode: RenderMode,
    prefix: Seq<char>,
)
    ensures
        join_t(join_t(m, kw, table), kw, table) == join_t(m, kw, table),
        rendered_with(join_t(join_t(m, kw, table), kw, table), mode, prefix) == rendered_with(
            join_t(m, kw, table),
            mode,
            prefix,
        ),
{
    lemma_push_unique_repeat(m.join, kw + trimmed(table));
    assert(join_t(join_t(m, kw, table), kw, table) =~= join_t(m, kw, table));
}

/// Pushing the same column to GROUP BY twice equals pushing it once.
pub proof fn lemma_group_by_twice(m: QueryModel, c: Seq<char>, mode: RenderMode, prefix: Seq<char>)
    ensures
        group_by_t(group_by_t(m, c), c) == group_by_t(m, c),
        rendered_with(group_by_t(group_by_t(m, c), c), mode, prefix) == rendered_with(
            group_by_t(m, c),
            mode,
            prefix,
        ),
{
    lemma_push_unique_repeat(m.group_by, trimmed(c));
    assert(group_by_t(group_by_t(m, c), c) =~= group_by_t(m, c));
}

/// Pushing the same condition to HAVING twice equals pushing it once.
pub proof fn lemma_having_twice(m: QueryModel, c: Seq<char>, mode: RenderMode, prefix: Seq<char>)
    ensures
        having_t(having_t(m, c), c) == having_t(m, c),
        rendered_with(having_t(having_t(m, c), c), mode, prefix) == rendered_with(
            having_t(m, c),
            mode,
            prefix,
        ),
{
    lemma_push_unique_repeat(m.having, trimmed(c));
    assert(having_t(having_t(m, c), c) =~= having_t(m, c));
}

/// Pushing the same column to ORDER BY twice equals pushing it once.
pub proof fn lemma_order_by_twice(m: QueryModel, c: Seq<char>, mode: RenderMode, prefix: Seq<char>)
    ensures
        order_by_t(order_by_t(m, c), c) == order_by_t(m, c),
        rendered_with(order_by_t(order_by_t(m, c), c), mode, prefix) == rendered_with(
            order_by_t(m, c),
            mode,
            prefix,
        ),
{
    lemma_push_unique_repeat(m.order_by, trimmed(c));
    assert(order_by_t(order_by_t(m, c), c) =~= order_by_t(m, c));
}

/// Pushing the same raw fragment twice equals pushing it once: the
/// top-of-statement raw clause deduplicates, unlike the anchored raw
/// entries.
pub proof fn lemma_raw_twice(m: QueryModel, s: Seq<char>, mode: RenderMode, prefix: Seq<char>)
    ensures
        raw_t(raw_t(m, s), s) == raw_t(m, s),
        rendered_with(raw_t(raw_t(m, s), s), mode, prefix) == rendered_with(
            raw_t(m, s),
            mode,
            prefix,
        ),
{
    lemma_push_unique_repeat(m.raw, trimmed(s));
    assert(raw_t(raw_t(m, s), s) =~= raw_t(m, s));
}

/// A later LIMIT overwrites an earlier one entirely: the scalar is the
/// opposite policy from dedup-append.
pub proof fn lemma_limit_overwrite(
    m: QueryModel,
    a: Seq<char>,
    b: Seq<char>,
    mode: RenderMode,
    prefix: Seq<char>,
)
    ensures
        limit_t(limit_t(m, a), b) == limit_t(m, b),
        rendered_with(limit_t(limit_t(m, a), b), mode, prefix) == rendered_with(
            limit_t(m, b),
            mode,
            prefix,
        ),
{
    assert(limit_t(limit_t(m, a), b) =~= limit_t(m, b));
}

/// A later OFFSET overwrites an earlier one entirely.
pub proof fn lemma_offset_overwrite(
    m: QueryModel,
    a: Seq<char>,
    b: Seq<char>,
    mode: RenderMode,
    prefix: Seq<char>,
)
    ensures
        offset_t(offset_t(m, a), b) == offset_t(m, b),
        rendered_with(offset_t(offset_t(m, a), b), mode, prefix) == rendered_with(
            offset_t(m, b),
            mode,
            prefix,
        ),
{
    assert(offset_t(offset_t(m, a), b) =~= offset_t(m, b));
}

/// Anchored raw entries are emitted even when their clause produced no
/// block: a clause's pieces with an empty block are exactly its anchors.
pub proof fn lemma_anchors_without_block(m: QueryModel, c: SelectClause)
    ensures
        clause_pieces(m, c, Seq::empty()) == anchored(m.raw_before, c) + anchored(m.raw_after, c),
{
    assert(clause_pieces(m, c, Seq::empty()) =~= anchored(m.raw_before, c) + anchored(
        m.raw_after,
        c,
    ));
}

} // verus!
