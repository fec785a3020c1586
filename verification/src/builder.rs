//! The fluent SELECT statement builder.
//!
//! Every method consumes the builder and returns the updated value; the
//! contracts state each update as a transition on the builder's model
//! (see [`crate::model`]) and each terminal call as the rendering of that
//! model (see [`crate::render`]).

use vstd::prelude::*;
use vstd::string::StrSliceExecFns;
use vstd::string::StringExecFns;
use crate::model::QueryModel;
use crate::model::SelectClause;
use crate::model::anchored;
use crate::model::empty_query;
use crate::model::except_t;
use crate::model::from_t;
use crate::model::group_by_t;
use crate::model::having_t;
use crate::model::intersect_t;
use crate::model::join_t;
use crate::model::limit_t;
use crate::model::offset_t;
use crate::model::order_by_t;
use crate::model::push_unique;
use crate::model::raw_after_t;
use crate::model::raw_before_t;
use crate::model::raw_t;
use crate::model::select_t;
use crate::model::union_t;
use crate::model::where_t;
use crate::model::with_t;
use crate::render::RenderMode;
use crate::render::and_sep;
use crate::render::cte_entries;
use crate::render::cte_entry;
use crate::render::clause_pieces;
use crate::render::debug_mode;
use crate::render::keyword;
use crate::render::list_block;
use crate::render::op_pieces;
use crate::render::plain_block;
use crate::render::plain_mode;
use crate::render::print_mode;
use crate::render::query_pieces;
use crate::render::rendered;
use crate::render::rendered_with;
use crate::render::scalar_block;
use crate::render::with_block;
use crate::text::joined;
use crate::text::join_strs;
use crate::text::texts_of;
use crate::text::trim_str;
use crate::text::trimmed;

verus! {

/// A raw fragment anchored to a named clause.
pub struct RawAnchor {
    /// The clause the fragment renders next to.
    pub clause: SelectClause,
    /// The trimmed fragment text.
    pub text: String,
}

/// A CTE binding: a sub-query attached under a name.
pub struct CteBinding {
    /// The trimmed binding name.
    pub name: String,
    /// The attached sub-query; read-only after attachment.
    pub query: SelectBuilder,
}

/// A fluent builder for SELECT statement text.
pub struct SelectBuilder {
    _raw: Vec<String>,
    _with: Vec<CteBinding>,
    _select: Vec<String>,
    _from: Vec<String>,
    _join: Vec<String>,
    _where: Vec<String>,
    _group_by: Vec<String>,
    _having: Vec<String>,
    _order_by: Vec<String>,
    _limit: String,
    _offset: String,
    _raw_before: Vec<RawAnchor>,
    _raw_after: Vec<RawAnchor>,
    _union: Vec<SelectBuilder>,
    _intersect: Vec<SelectBuilder>,
    _except: Vec<SelectBuilder>,
}

/// The anchor entries of `v` as (clause, text) pairs.
pub closed spec fn anchors_of(v: Seq<RawAnchor>) -> Seq<(SelectClause, Seq<char>)> {
    Seq::new(v.len(), |i: int| (v[i].clause, v[i].text@))
}

/// The models of the builders of `v`, in order.
pub closed spec fn models_of(v: Seq<SelectBuilder>) -> Seq<QueryModel>
    decreases v,
{
    if v.len() == 0 {
        Seq::empty()
    } else {
        models_of(v.drop_last()).push(model(v[v.len() - 1]))
    }
}

/// The CTE bindings of `v` as (name, model) pairs, in order.
pub closed spec fn ctes_of(v: Seq<CteBinding>) -> Seq<(Seq<char>, QueryModel)>
    decreases v,
{
    if v.len() == 0 {
        Seq::empty()
    } else {
        ctes_of(v.drop_last()).push((v[v.len() - 1].name@, model(v[v.len() - 1].query)))
    }
}

/// The abstract state of a builder.
pub closed spec fn model(b: SelectBuilder) -> QueryModel
    decreases b,
{
    QueryModel {
        raw: texts_of(b._raw@),
        ctes: ctes_of(b._with@),
        select: texts_of(b._select@),
        from: texts_of(b._from@),
        join: texts_of(b._join@),
        where_conds: texts_of(b._where@),
        group_by: texts_of(b._group_by@),
        having: texts_of(b._having@),
        order_by: texts_of(b._order_by@),
        limit: b._limit@,
        offset: b._offset@,
        raw_before: anchors_of(b._raw_before@),
        raw_after: anchors_of(b._raw_after@),
        unions: models_of(b._union@),
        intersects: models_of(b._intersect@),
        excepts: models_of(b._except@),
    }
}

impl View for SelectBuilder {
    type V = QueryModel;

    closed spec fn view(&self) -> QueryModel {
        model(*self)
    }
}

proof fn lemma_models_of_index(v: Seq<SelectBuilder>)
    ensures
        models_of(v).len() == v.len(),
        forall|i: int| 0 <= i < v.len() ==> models_of(v)[i] == model(v[i]),
    decreases v.len(),
{
    if v.len() > 0 {
        lemma_models_of_index(v.drop_last());
    }
}

proof fn lemma_ctes_of_index(v: Seq<CteBinding>)
    ensures
        ctes_of(v).len() == v.len(),
        forall|i: int|
            0 <= i < v.len() ==> ctes_of(v)[i] == (v[i].name@, model(v[i].query)),
    decreases v.len(),
{
    if v.len() > 0 {
        lemma_ctes_of_index(v.drop_last());
    }
}

/// Appends `x` to `v` unless an equal string is already present.
fn push_unique_vec(v: &mut Vec<String>, x: String)
    ensures
        texts_of(final(v)@) == push_unique(texts_of(old(v)@), x@),
{
    let n = v.len();
    let mut i: usize = 0;
    while i < n
        invariant
            n == v@.len(),
            i <= n,
            *v == *old(v),
            forall|j: int| 0 <= j < i ==> v@[j]@ != x@,
        decreases n - i,
    {
        if v[i] == x {
            proof {
                assert(texts_of(v@)[i as int] == x@);
                assert(texts_of(v@).contains(x@));
            }
            return ;
        }
        i = i + 1;
    }
    proof {
        assert(forall|j: int| 0 <= j < texts_of(v@).len() ==> texts_of(v@)[j] != x@);
        assert(!texts_of(v@).contains(x@));
    }
    let ghost before = v@;
    v.push(x);
    proof {
        assert(texts_of(v@) =~= texts_of(before).push(x@));
    }
}

impl SelectBuilder {
    /// Creates an empty builder.
    pub fn new() -> (res: Self)
        ensures
            res@ == empty_query(),
    {
        let res = SelectBuilder {
            _raw: Vec::new(),
            _with: Vec::new(),
            _select: Vec::new(),
            _from: Vec::new(),
            _join: Vec::new(),
            _where: Vec::new(),
            _group_by: Vec::new(),
            _having: Vec::new(),
            _order_by: Vec::new(),
            _limit: String::new(),
            _offset: String::new(),
            _raw_before: Vec::new(),
            _raw_after: Vec::new(),
            _union: Vec::new(),
            _intersect: Vec::new(),
            _except: Vec::new(),
        };
        proof {
            assert(model(res) =~~= empty_query());
        }
        res
    }

    /// The select clause: unique-push of the trimmed column list.
    pub fn select(self, column: &str) -> (res: Self)
        ensures
            res@ == select_t(self@, column@),
    {
        let ghost m0 = model(self);
        let mut this = self;
        let t = trim_str(column);
        push_unique_vec(&mut this._select, t);
        proof {
            assert(model(this) =~~= select_t(m0, column@));
        }
        this
    }

    /// The from clause: unique-push of the trimmed table list.
    pub fn from(self, tables: &str) -> (res: Self)
        ensures
            res@ == from_t(self@, tables@),
    {
        let ghost m0 = model(self);
        let mut this = self;
        let t = trim_str(tables);
        push_unique_vec(&mut this._from, t);
        proof {
            assert(model(this) =~~= from_t(m0, tables@));
        }
        this
    }

    /// The where clause: unique-push of the trimmed condition.
    pub fn where_clause(self, condition: &str) -> (res: Self)
        ensures
            res@ == where_t(self@, condition@),
    {
        let ghost m0 = model(self);
        let mut this = self;
        let t = trim_str(condition);
        push_unique_vec(&mut this._where, t);
        proof {
            assert(model(this) =~~= where_t(m0, condition@));
        }
        this
    }

    /// The same as `where_clause`, useful to write more idiomatic SQL.
    pub fn and(self, condition: &str) -> (res: Self)
        ensures
            res@ == where_t(self@, condition@),
    {
        self.where_clause(condition)
    }

    /// The group by clause: unique-push of the trimmed column.
    pub fn group_by(self, column: &str) -> (res: Self)
        ensures
            res@ == group_by_t(self@, column@),
    {
        let ghost m0 = model(self);
        let mut this = self;
        let t = trim_str(column);
        push_unique_vec(&mut this._group_by, t);
        proof {
            assert(model(this) =~~= group_by_t(m0, column@));
        }
        this
    }

    /// The having clause: unique-push of the trimmed condition.
    pub fn having(self, condition: &str) -> (res: Self)
        ensures
            res@ == having_t(self@, condition@),
    {
        let ghost m0 = model(self);
        let mut this = self;
        let t = trim_str(condition);
        push_unique_vec(&mut this._having, t);
        proof {
            assert(model(this) =~~= having_t(m0, condition@));
        }
        this
    }

    /// The order by clause: unique-push of the trimmed column.
    pub fn order_by(self, column: &str) -> (res: Self)
        ensures
            res@ == order_by_t(self@, column@),
    {
        let ghost m0 = model(self);
        let mut this = self;
        let t = trim_str(column);
        push_unique_vec(&mut this._order_by, t);
        proof {
            assert(model(this) =~~= order_by_t(m0, column@));
        }
        this
    }

    /// Composes a join fragment: the keyword, a space, the trimmed table.
    fn join_with_keyword(self, kw: &str, table: &str) -> (res: Self)
        ensures
            res@ == join_t(self@, kw@, table@),
    {
        let ghost m0 = model(self);
        let mut this = self;
        let t = trim_str(table);
        let mut frag = String::from_str(kw);
        frag.append(t.as_str());
        push_unique_vec(&mut this._join, frag);
        proof {
            assert(model(this) =~~= join_t(m0, kw@, table@));
        }
        this
    }

    /// The cross join clause.
    pub fn cross_join(self, table: &str) -> (res: Self)
        ensures
            res@ == join_t(self@, "CROSS JOIN "@, table@),
    {
        self.join_with_keyword("CROSS JOIN ", table)
    }

    /// The inner join clause.
    pub fn inner_join(self, table: &str) -> (res: Self)
        ensures
            res@ == join_t(self@, "INNER JOIN "@, table@),
    {
        self.join_with_keyword("INNER JOIN ", table)
    }

    /// The left join clause.
    pub fn left_join(self, table: &str) -> (res: Self)
        ensures
            res@ == join_t(self@, "LEFT JOIN "@, table@),
    {
        self.join_with_keyword("LEFT JOIN ", table)
    }

    /// The right join clause.
    pub fn right_join(self, table: &str) -> (res: Self)
        ensures
            res@ == join_t(self@, "RIGHT JOIN "@, table@),
    {
        self.join_with_keyword("RIGHT JOIN ", table)
    }

    /// The limit clause; overwrites any previous value.
    pub fn limit(self, num: &str) -> (res: Self)
        ensures
            res@ == limit_t(self@, num@),
    {
        let ghost m0 = model(self);
        let mut this = self;
        this._limit = trim_str(num);
        proof {
            assert(model(this) =~~= limit_t(m0, num@));
        }
        this
    }

    /// The offset clause; overwrites any previous value.
    pub fn offset(self, num: &str) -> (res: Self)
        ensures
            res@ == offset_t(self@, num@),
    {
        let ghost m0 = model(self);
        let mut this = self;
        this._offset = trim_str(num);
        proof {
            assert(model(this) =~~= offset_t(m0, num@));
        }
        this
    }

    /// Adds a raw SQL fragment rendered before every other clause.
    pub fn raw(self, raw_sql: &str) -> (res: Self)
        ensures
            res@ == raw_t(self@, raw_sql@),
    {
        let ghost m0 = model(self);
        let mut this = self;
        let t = trim_str(raw_sql);
        push_unique_vec(&mut this._raw, t);
        proof {
            assert(model(this) =~~= raw_t(m0, raw_sql@));
        }
        this
    }

    /// Adds a raw SQL fragment rendered immediately before `clause`.
    pub fn raw_before(self, clause: SelectClause, raw_sql: &str) -> (res: Self)
        ensures
            res@ == raw_before_t(self@, clause, raw_sql@),
    {
        let ghost m0 = model(self);
        let mut this = self;
        let t = trim_str(raw_sql);
        this._raw_before.push(RawAnchor { clause, text: t });
        proof {
            assert(anchors_of(this._raw_before@) =~= m0.raw_before.push(
                (clause, trimmed(raw_sql@)),
            ));
            assert(model(this) =~~= raw_before_t(m0, clause, raw_sql@));
        }
        this
    }

    /// Adds a raw SQL fragment rendered immediately after `clause`.
    pub fn raw_after(self, clause: SelectClause, raw_sql: &str) -> (res: Self)
        ensures
            res@ == raw_after_t(self@, clause, raw_sql@),
    {
        let ghost m0 = model(self);
        let mut this = self;
        let t = trim_str(raw_sql);
        this._raw_after.push(RawAnchor { clause, text: t });
        proof {
            assert(anchors_of(this._raw_after@) =~= m0.raw_after.push(
                (clause, trimmed(raw_sql@)),
            ));
            assert(model(this) =~~= raw_after_t(m0, clause, raw_sql@));
        }
        this
    }

    /// Binds `query` as a CTE under the trimmed `name`.
    pub fn with(self, name: &str, query: SelectBuilder) -> (res: Self)
        ensures
            res@ == with_t(self@, name@, query@),
    {
        let ghost m0 = model(self);
        let mut this = self;
        let ghost q = model(query);
        let ghost w0 = this._with@;
        let t = trim_str(name);
        this._with.push(CteBinding { name: t, query });
        proof {
            assert(this._with@.drop_last() =~= w0);
            assert(model(this) =~~= with_t(m0, name@, q));
        }
        this
    }

    /// Appends a UNION operand.
    pub fn union(self, select: SelectBuilder) -> (res: Self)
        ensures
            res@ == union_t(self@, select@),
    {
        let ghost m0 = model(self);
        let mut this = self;
        let ghost q = model(select);
        let ghost u0 = this._union@;
        this._union.push(select);
        proof {
            assert(this._union@.drop_last() =~= u0);
            assert(model(this) =~~= union_t(m0, q));
        }
        this
    }

    /// Appends an INTERSECT operand.
    pub fn intersect(self, select: SelectBuilder) -> (res: Self)
        ensures
            res@ == intersect_t(self@, select@),
    {
        let ghost m0 = model(self);
        let mut this = self;
        let ghost q = model(select);
        let ghost u0 = this._intersect@;
        this._intersect.push(select);
        proof {
            assert(this._intersect@.drop_last() =~= u0);
            assert(model(this) =~~= intersect_t(m0, q));
        }
        this
    }

    /// Appends an EXCEPT operand.
    pub fn except(self, select: SelectBuilder) -> (res: Self)
        ensures
            res@ == except_t(self@, select@),
    {
        let ghost m0 = model(self);
        let mut this = self;
        let ghost q = model(select);
        let ghost u0 = this._except@;
        this._except.push(select);
        proof {
            assert(this._except@.drop_last() =~= u0);
            assert(model(this) =~~= except_t(m0, q));
        }
        this
    }
}


/// Appends the keyword `w` to `out`, colour-wrapped when `mode` asks.
fn append_keyword(out: &mut String, mode: RenderMode, w: &str)
    ensures
        final(out)@ == old(out)@ + keyword(mode, w@),
{
    if mode.color {
        out.append("\u{1b}[34m");
        out.append(w);
        out.append("\u{1b}[0m");
        proof {
            assert(out@ =~= old(out)@ + keyword(mode, w@));
        }
    } else {
        out.append(w);
    }
}

/// The keyword `w` alone as a piece of its own.
fn keyword_string(mode: RenderMode, w: &str) -> (r: String)
    ensures
        r@ == keyword(mode, w@),
{
    let mut out = String::new();
    append_keyword(&mut out, mode, w);
    proof {
        assert(out@ =~= keyword(mode, w@));
    }
    out
}

/// The separator between WHERE (or HAVING) conditions.
fn and_sep_string(mode: RenderMode) -> (r: String)
    ensures
        r@ == and_sep(mode),
{
    let mut out = String::from_str(" ");
    append_keyword(&mut out, mode, "AND");
    out.append(" ");
    proof {
        assert(out@ =~= and_sep(mode));
    }
    out
}

/// Appends one rendered piece to the piece list.
fn push_piece(out: &mut Vec<String>, piece: String)
    ensures
        texts_of(final(out)@) == texts_of(old(out)@).push(piece@),
{
    let ghost before = out@;
    out.push(piece);
    proof {
        assert(texts_of(out@) =~= texts_of(before).push(piece@));
    }
}

/// Appends the texts of the entries of `anchors` anchored to `c`.
fn push_anchor_texts(out: &mut Vec<String>, anchors: &Vec<RawAnchor>, c: SelectClause)
    ensures
        texts_of(final(out)@) == texts_of(old(out)@) + anchored(anchors_of(anchors@), c),
{
    let ghost a = anchors_of(anchors@);
    let mut i: usize = 0;
    proof {
        assert(texts_of(out@) =~= texts_of(old(out)@) + anchored(a.take(0), c));
    }
    while i < anchors.len()
        invariant
            i <= anchors@.len(),
            a == anchors_of(anchors@),
            texts_of(out@) == texts_of(old(out)@) + anchored(a.take(i as int), c),
        decreases anchors@.len() - i,
    {
        proof {
            assert(a.take(i + 1).drop_last() =~= a.take(i as int));
            assert(a[i as int] == (anchors@[i as int].clause, anchors@[i as int].text@));
        }
        if anchors[i].clause == c {
            push_piece(out, anchors[i].text.clone());
            proof {
                assert(texts_of(out@) =~= texts_of(old(out)@) + anchored(a.take(i + 1), c));
            }
        } else {
            proof {
                assert(anchored(a.take(i + 1), c) =~= anchored(a.take(i as int), c));
            }
        }
        i = i + 1;
    }
    proof {
        assert(a.take(anchors@.len() as int) =~= a);
    }
}

/// A fragment-list clause block: keyword, space, joined fragments.
fn list_clause_string(mode: RenderMode, kw: &str, items: &Vec<String>, sep: &str) -> (r: String)
    ensures
        r@ == keyword(mode, kw@) + " "@ + joined(texts_of(items@), sep@),
{
    let mut out = String::new();
    append_keyword(&mut out, mode, kw);
    out.append(" ");
    let body = join_strs(items, sep);
    out.append(body.as_str());
    proof {
        assert(out@ =~= keyword(mode, kw@) + " "@ + joined(texts_of(items@), sep@));
    }
    out
}

/// Appends, per operand of `subs` in order, the operator keyword and the
/// recursively rendered operand.
fn push_op_pieces(
    out: &mut Vec<String>,
    subs: &Vec<SelectBuilder>,
    kw: &str,
    mode: RenderMode,
    prefix: &str,
)
    ensures
        texts_of(final(out)@) == texts_of(old(out)@) + op_pieces(
            models_of(subs@),
            kw@,
            mode,
            prefix@,
        ),
    decreases *subs, 9int,
{
    let ghost ms = models_of(subs@);
    let mut i: usize = 0;
    proof {
        lemma_models_of_index(subs@);
        assert(texts_of(out@) =~= texts_of(old(out)@) + op_pieces(ms.take(0), kw@, mode, prefix@));
    }
    while i < subs.len()
        invariant
            i <= subs@.len(),
            ms == models_of(subs@),
            ms.len() == subs@.len(),
            forall|j: int| 0 <= j < subs@.len() ==> ms[j] == model(subs@[j]),
            texts_of(out@) == texts_of(old(out)@) + op_pieces(ms.take(i as int), kw@, mode, prefix@),
        decreases subs@.len() - i,
    {
        let k = keyword_string(mode, kw);
        push_piece(out, k);
        proof {
            assert(decreases_to!(*subs => subs@));
            assert(decreases_to!(subs@ => subs@[i as int]));
        }
        let sub = &subs[i];
        let r = sub.render_with(mode, prefix);
        push_piece(out, r);
        proof {
            assert(ms.take(i + 1).drop_last() =~= ms.take(i as int));
            assert(ms.take(i + 1)[ms.take(i + 1).len() - 1] == ms[i as int]);
            assert(texts_of(out@) =~= texts_of(old(out)@) + op_pieces(
                ms.take(i + 1),
                kw@,
                mode,
                prefix@,
            ));
        }
        i = i + 1;
    }
    proof {
        assert(ms.take(subs@.len() as int) =~= ms);
    }
}

/// The optional block of a clause as a piece list.
spec fn block_pieces(b: Option<String>) -> Seq<Seq<char>> {
    match b {
        Some(s) => seq![s@],
        None => Seq::empty(),
    }
}

/// Emits one clause: its raw-before entries, its block when it has one,
/// and its raw-after entries.
fn emit_clause(
    out: &mut Vec<String>,
    before: &Vec<RawAnchor>,
    after: &Vec<RawAnchor>,
    c: SelectClause,
    blk: Option<String>,
)
    ensures
        texts_of(final(out)@) == texts_of(old(out)@) + (anchored(anchors_of(before@), c)
            + block_pieces(blk) + anchored(anchors_of(after@), c)),
{
    let ghost t0 = texts_of(out@);
    let ghost bp = block_pieces(blk);
    push_anchor_texts(out, before, c);
    match blk {
        Some(s) => {
            push_piece(out, s);
        },
        None => {},
    }
    push_anchor_texts(out, after, c);
    proof {
        assert(texts_of(out@) =~= t0 + (anchored(anchors_of(before@), c) + bp + anchored(
            anchors_of(after@),
            c,
        )));
    }
}

/// Emits a set-operator clause: its raw-before entries, its operand
/// pieces, and its raw-after entries.
fn emit_op_clause(
    out: &mut Vec<String>,
    before: &Vec<RawAnchor>,
    after: &Vec<RawAnchor>,
    c: SelectClause,
    subs: &Vec<SelectBuilder>,
    kw: &str,
    mode: RenderMode,
    prefix: &str,
)
    ensures
        texts_of(final(out)@) == texts_of(old(out)@) + (anchored(anchors_of(before@), c)
            + op_pieces(models_of(subs@), kw@, mode, prefix@) + anchored(anchors_of(after@), c)),
    decreases *subs, 10int,
{
    let ghost t0 = texts_of(out@);
    push_anchor_texts(out, before, c);
    push_op_pieces(out, subs, kw, mode, prefix);
    push_anchor_texts(out, after, c);
    proof {
        assert(texts_of(out@) =~= t0 + (anchored(anchors_of(before@), c) + op_pieces(
            models_of(subs@),
            kw@,
            mode,
            prefix@,
        ) + anchored(anchors_of(after@), c)));
    }
}

impl SelectBuilder {
    /// The WITH block text: the keyword and the comma-joined CTE entries.
    fn with_block_string(&self, mode: RenderMode, prefix: &str) -> (r: String)
        ensures
            r@ == keyword(mode, "WITH"@) + " "@ + joined(
                cte_entries(self@.ctes, mode, prefix@),
                ", "@,
            ),
        decreases *self, 4int,
    {
        let mut deeper = String::from_str(prefix);
        deeper.append("  ");
        let mut entries: Vec<String> = Vec::new();
        let ghost cs = ctes_of(self._with@);
        let mut i: usize = 0;
        proof {
            lemma_ctes_of_index(self._with@);
            assert(texts_of(entries@) =~= cte_entries(cs.take(0), mode, prefix@));
        }
        while i < self._with.len()
            invariant
                i <= self._with@.len(),
                cs == ctes_of(self._with@),
                cs.len() == self._with@.len(),
                forall|j: int|
                    0 <= j < self._with@.len() ==> cs[j] == (
                        self._with@[j].name@,
                        model(self._with@[j].query),
                    ),
                deeper@ == prefix@ + "  "@,
                texts_of(entries@) == cte_entries(cs.take(i as int), mode, prefix@),
            decreases self._with@.len() - i,
        {
            proof {
                assert(decreases_to!(*self => self._with));
                assert(decreases_to!(self._with => self._with@));
                assert(decreases_to!(self._with@ => self._with@[i as int]));
                assert(decreases_to!(self._with@[i as int] => self._with@[i as int].query));
            }
            let b = &self._with[i];
            let mut e = String::from_str(b.name.as_str());
            e.append(" ");
            append_keyword(&mut e, mode, "AS");
            e.append(" (");
            if mode.multi_line {
                e.append("\n");
                e.append(deeper.as_str());
                let sub = b.query.render_with(mode, deeper.as_str());
                e.append(sub.as_str());
                e.append("\n");
                e.append(prefix);
            } else {
                let sub = b.query.render_with(mode, prefix);
                e.append(sub.as_str());
            }
            e.append(")");
            proof {
                assert(e@ =~= cte_entry(cs[i as int].0, cs[i as int].1, mode, prefix@));
                assert(cs.take(i + 1).drop_last() =~= cs.take(i as int));
                assert(cs.take(i + 1)[cs.take(i + 1).len() - 1] == cs[i as int]);
            }
            push_piece(&mut entries, e);
            proof {
                assert(texts_of(entries@) =~= cte_entries(cs.take(i + 1), mode, prefix@));
            }
            i = i + 1;
        }
        proof {
            assert(cs.take(self._with@.len() as int) =~= cs);
        }
        let mut blk = String::new();
        append_keyword(&mut blk, mode, "WITH");
        blk.append(" ");
        let j = join_strs(&entries, ", ");
        blk.append(j.as_str());
        proof {
            assert(blk@ =~= keyword(mode, "WITH"@) + " "@ + joined(
                cte_entries(self@.ctes, mode, prefix@),
                ", "@,
            ));
        }
        blk
    }

    /// The pieces of the statement, in the fixed clause order.
    #[verifier::rlimit(100)]
    #[verifier::spinoff_prover]
    fn render_pieces(&self, mode: RenderMode, prefix: &str) -> (out: Vec<String>)
        ensures
            texts_of(out@) == query_pieces(self@, mode, prefix@),
        decreases *self, 5int,
    {
        let ghost m = model(*self);
        let mut out: Vec<String> = Vec::new();
        proof {
            assert(texts_of(out@) =~= Seq::<Seq<char>>::empty());
        }
        // raw fragments, at the very top
        if self._raw.len() > 0 {
            let blk = join_strs(&self._raw, " ");
            push_piece(&mut out, blk);
        }
        proof {
            assert(texts_of(out@) =~= plain_block(m.raw, " "@));
        }
        let ghost mut acc: Seq<Seq<char>> = plain_block(m.raw, " "@);
        // WITH
        let blk: Option<String> = if self._with.len() > 0 {
            Some(self.with_block_string(mode, prefix))
        } else {
            None
        };
        let ghost bp = block_pieces(blk);
        emit_clause(&mut out, &self._raw_before, &self._raw_after, SelectClause::With, blk);
        proof {
            assert(bp =~= with_block(m, mode, prefix@));
            assert(texts_of(out@) =~= acc + clause_pieces(
                m,
                SelectClause::With,
                with_block(m, mode, prefix@),
            ));
            acc = acc + clause_pieces(m, SelectClause::With, with_block(m, mode, prefix@));
        }
        // SELECT
        let blk: Option<String> = if self._select.len() > 0 {
            Some(list_clause_string(mode, "SELECT", &self._select, ", "))
        } else {
            None
        };
        let ghost bp = block_pieces(blk);
        emit_clause(&mut out, &self._raw_before, &self._raw_after, SelectClause::Select, blk);
        proof {
            assert(bp =~= list_block(mode, "SELECT"@, m.select, ", "@));
            assert(texts_of(out@) =~= acc + clause_pieces(
                m,
                SelectClause::Select,
                list_block(mode, "SELECT"@, m.select, ", "@),
            ));
            acc = acc + clause_pieces(
                m,
                SelectClause::Select,
                list_block(mode, "SELECT"@, m.select, ", "@),
            );
        }
        // FROM
        let blk: Option<String> = if self._from.len() > 0 {
            Some(list_clause_string(mode, "FROM", &self._from, ", "))
        } else {
            None
        };
        let ghost bp = block_pieces(blk);
        emit_clause(&mut out, &self._raw_before, &self._raw_after, SelectClause::From, blk);
        proof {
            assert(bp =~= list_block(mode, "FROM"@, m.from, ", "@));
            assert(texts_of(out@) =~= acc + clause_pieces(
                m,
                SelectClause::From,
                list_block(mode, "FROM"@, m.from, ", "@),
            ));
            acc = acc + clause_pieces(m, SelectClause::From, list_block(mode, "FROM"@, m.from, ", "@));
        }
        // JOIN
        let blk: Option<String> = if self._join.len() > 0 {
            Some(join_strs(&self._join, " "))
        } else {
            None
        };
        let ghost bp = block_pieces(blk);
        emit_clause(&mut out, &self._raw_before, &self._raw_after, SelectClause::Join, blk);
        proof {
            assert(bp =~= plain_block(m.join, " "@));
            assert(texts_of(out@) =~= acc + clause_pieces(
                m,
                SelectClause::Join,
                plain_block(m.join, " "@),
            ));
            acc = acc + clause_pieces(m, SelectClause::Join, plain_block(m.join, " "@));
        }
        // WHERE
        let blk: Option<String> = if self._where.len() > 0 {
            let sep = and_sep_string(mode);
            Some(list_clause_string(mode, "WHERE", &self._where, sep.as_str()))
        } else {
            None
        };
        let ghost bp = block_pieces(blk);
        emit_clause(&mut out, &self._raw_before, &self._raw_after, SelectClause::Where, blk);
        proof {
            assert(bp =~= list_block(mode, "WHERE"@, m.where_conds, and_sep(mode)));
            assert(texts_of(out@) =~= acc + clause_pieces(
                m,
                SelectClause::Where,
                list_block(mode, "WHERE"@, m.where_conds, and_sep(mode)),
            ));
            acc = acc + clause_pieces(
                m,
                SelectClause::Where,
                list_block(mode, "WHERE"@, m.where_conds, and_sep(mode)),
            );
        }
        // GROUP BY
        let blk: Option<String> = if self._group_by.len() > 0 {
            Some(list_clause_string(mode, "GROUP BY", &self._group_by, ", "))
        } else {
            None
        };
        let ghost bp = block_pieces(blk);
        emit_clause(&mut out, &self._raw_before, &self._raw_after, SelectClause::GroupBy, blk);
        proof {
            assert(bp =~= list_block(mode, "GROUP BY"@, m.group_by, ", "@));
            assert(texts_of(out@) =~= acc + clause_pieces(
                m,
                SelectClause::GroupBy,
                list_block(mode, "GROUP BY"@, m.group_by, ", "@),
            ));
            acc = acc + clause_pieces(
                m,
                SelectClause::GroupBy,
                list_block(mode, "GROUP BY"@, m.group_by, ", "@),
            );
        }
        // HAVING
        let blk: Option<String> = if self._having.len() > 0 {
            let sep = and_sep_string(mode);
            Some(list_clause_string(mode, "HAVING", &self._having, sep.as_str()))
        } else {
            None
        };
        let ghost bp = block_pieces(blk);
        emit_clause(&mut out, &self._raw_before, &self._raw_after, SelectClause::Having, blk);
        proof {
            assert(bp =~= list_block(mode, "HAVING"@, m.having, and_sep(mode)));
            assert(texts_of(out@) =~= acc + clause_pieces(
                m,
                SelectClause::Having,
                list_block(mode, "HAVING"@, m.having, and_sep(mode)),
            ));
            acc = acc + clause_pieces(
                m,
                SelectClause::Having,
                list_block(mode, "HAVING"@, m.having, and_sep(mode)),
            );
        }
        // ORDER BY
        let blk: Option<String> = if self._order_by.len() > 0 {
            Some(list_clause_string(mode, "ORDER BY", &self._order_by, ", "))
        } else {
            None
        };
        let ghost bp = block_pieces(blk);
        emit_clause(&mut out, &self._raw_before, &self._raw_after, SelectClause::OrderBy, blk);
        proof {
            assert(bp =~= list_block(mode, "ORDER BY"@, m.order_by, ", "@));
            assert(texts_of(out@) =~= acc + clause_pieces(
                m,
                SelectClause::OrderBy,
                list_block(mode, "ORDER BY"@, m.order_by, ", "@),
            ));
            acc = acc + clause_pieces(
                m,
                SelectClause::OrderBy,
                list_block(mode, "ORDER BY"@, m.order_by, ", "@),
            );
        }
        // LIMIT
        let blk: Option<String> = if !self._limit.as_str().is_empty() {
            let mut b = String::new();
            append_keyword(&mut b, mode, "LIMIT");
            b.append(" ");
            b.append(self._limit.as_str());
            proof {
                assert(b@ =~= keyword(mode, "LIMIT"@) + " "@ + m.limit);
            }
            Some(b)
        } else {
            None
        };
        let ghost bp = block_pieces(blk);
        emit_clause(&mut out, &self._raw_before, &self._raw_after, SelectClause::Limit, blk);
        proof {
            assert(bp =~= scalar_block(mode, "LIMIT"@, m.limit));
            assert(texts_of(out@) =~= acc + clause_pieces(
                m,
                SelectClause::Limit,
                scalar_block(mode, "LIMIT"@, m.limit),
            ));
            acc = acc + clause_pieces(m, SelectClause::Limit, scalar_block(mode, "LIMIT"@, m.limit));
        }
        // OFFSET
        let blk: Option<String> = if !self._offset.as_str().is_empty() {
            let mut b = String::new();
            append_keyword(&mut b, mode, "OFFSET");
            b.append(" ");
            b.append(self._offset.as_str());
            proof {
                assert(b@ =~= keyword(mode, "OFFSET"@) + " "@ + m.offset);
            }
            Some(b)
        } else {
            None
        };
        let ghost bp = block_pieces(blk);
        emit_clause(&mut out, &self._raw_before, &self._raw_after, SelectClause::Offset, blk);
        proof {
            assert(bp =~= scalar_block(mode, "OFFSET"@, m.offset));
            assert(texts_of(out@) =~= acc + clause_pieces(
                m,
                SelectClause::Offset,
                scalar_block(mode, "OFFSET"@, m.offset),
            ));
            acc = acc + clause_pieces(m, SelectClause::Offset, scalar_block(mode, "OFFSET"@, m.offset));
        }
        // UNION
        proof {
            assert(decreases_to!(*self => self._union));
        }
        emit_op_clause(
            &mut out,
            &self._raw_before,
            &self._raw_after,
            SelectClause::Union,
            &self._union,
            "UNION",
            mode,
            prefix,
        );
        proof {
            assert(texts_of(out@) =~= acc + clause_pieces(
                m,
                SelectClause::Union,
                op_pieces(m.unions, "UNION"@, mode, prefix@),
            ));
            acc = acc + clause_pieces(
                m,
                SelectClause::Union,
                op_pieces(m.unions, "UNION"@, mode, prefix@),
            );
        }
        // INTERSECT
        proof {
            assert(decreases_to!(*self => self._intersect));
        }
        emit_op_clause(
            &mut out,
            &self._raw_before,
            &self._raw_after,
            SelectClause::Intersect,
            &self._intersect,
            "INTERSECT",
            mode,
            prefix,
        );
        proof {
            assert(texts_of(out@) =~= acc + clause_pieces(
                m,
                SelectClause::Intersect,
                op_pieces(m.intersects, "INTERSECT"@, mode, prefix@),
            ));
            acc = acc + clause_pieces(
                m,
                SelectClause::Intersect,
                op_pieces(m.intersects, "INTERSECT"@, mode, prefix@),
            );
        }
        // EXCEPT
        proof {
            assert(decreases_to!(*self => self._except));
        }
        emit_op_clause(
            &mut out,
            &self._raw_before,
            &self._raw_after,
            SelectClause::Except,
            &self._except,
            "EXCEPT",
            mode,
            prefix,
        );
        proof {
            assert(texts_of(out@) =~= acc + clause_pieces(
                m,
                SelectClause::Except,
                op_pieces(m.excepts, "EXCEPT"@, mode, prefix@),
            ));
            assert(texts_of(out@) == query_pieces(m, mode, prefix@));
        }
        out
    }

    /// Renders the builder at the given indentation prefix.
    fn render_with(&self, mode: RenderMode, prefix: &str) -> (r: String)
        ensures
            r@ == rendered_with(self@, mode, prefix@),
        decreases *self, 6int,
    {
        let pieces = self.render_pieces(mode, prefix);
        if mode.multi_line {
            let mut sep = String::from_str("\n");
            sep.append(prefix);
            join_strs(&pieces, sep.as_str())
        } else {
            join_strs(&pieces, " ")
        }
    }

    /// Renders the accumulated state as plain one-line SQL text.
    pub fn as_string(&self) -> (r: String)
        ensures
            r@ == rendered(self@, plain_mode()),
    {
        proof {
            reveal_strlit("");
            assert(""@ =~= Seq::<char>::empty());
        }
        self.render_with(RenderMode { multi_line: false, color: false }, "")
    }

    /// Renders the accumulated state across several lines with the SQL
    /// keywords wrapped in terminal colour codes; this is the text the
    /// `debug` helper prints.
    pub fn as_debug_string(&self) -> (r: String)
        ensures
            r@ == rendered(self@, debug_mode()),
    {
        proof {
            reveal_strlit("");
            assert(""@ =~= Seq::<char>::empty());
        }
        self.render_with(RenderMode { multi_line: true, color: true }, "")
    }

    /// Renders the accumulated state on one line with the SQL keywords
    /// wrapped in terminal colour codes; this is the text the `print`
    /// helper prints.
    pub fn as_print_string(&self) -> (r: String)
        ensures
            r@ == rendered(self@, print_mode()),
    {
        proof {
            reveal_strlit("");
            assert(""@ =~= Seq::<char>::empty());
        }
        self.render_with(RenderMode { multi_line: false, color: true }, "")
    }
}

/// A copy of every string of `v`.
fn clone_texts(v: &Vec<String>) -> (r: Vec<String>)
    ensures
        r@ == v@,
{
    let mut r: Vec<String> = Vec::new();
    let mut i: usize = 0;
    while i < v.len()
        invariant
            i <= v@.len(),
            r@ == v@.take(i as int),
        decreases v@.len() - i,
    {
        r.push(v[i].clone());
        proof {
            assert(r@ =~= v@.take(i + 1));
        }
        i = i + 1;
    }
    proof {
        assert(v@.take(v@.len() as int) =~= v@);
    }
    r
}

/// A copy of every anchor entry of `v`.
fn clone_anchors(v: &Vec<RawAnchor>) -> (r: Vec<RawAnchor>)
    ensures
        r@ == v@,
{
    let mut r: Vec<RawAnchor> = Vec::new();
    let mut i: usize = 0;
    while i < v.len()
        invariant
            i <= v@.len(),
            r@ == v@.take(i as int),
        decreases v@.len() - i,
    {
        let a = RawAnchor { clause: v[i].clause, text: v[i].text.clone() };
        proof {
            assert(a == v@[i as int]);
        }
        r.push(a);
        proof {
            assert(r@ =~= v@.take(i + 1));
        }
        i = i + 1;
    }
    proof {
        assert(v@.take(v@.len() as int) =~= v@);
    }
    r
}

/// A copy of every builder of `v`, equal in model.
fn clone_builders(v: &Vec<SelectBuilder>) -> (r: Vec<SelectBuilder>)
    ensures
        models_of(r@) == models_of(v@),
    decreases *v, 2int,
{
    let ghost ms = models_of(v@);
    let mut r: Vec<SelectBuilder> = Vec::new();
    let mut i: usize = 0;
    proof {
        lemma_models_of_index(v@);
        assert(models_of(r@) =~= ms.take(0));
    }
    while i < v.len()
        invariant
            i <= v@.len(),
            ms == models_of(v@),
            ms.len() == v@.len(),
            forall|j: int| 0 <= j < v@.len() ==> ms[j] == model(v@[j]),
            r@.len() == i,
            models_of(r@) == ms.take(i as int),
        decreases v@.len() - i,
    {
        proof {
            assert(decreases_to!(*v => v@));
            assert(decreases_to!(v@ => v@[i as int]));
        }
        let c = v[i].duplicate();
        let ghost r0 = r@;
        r.push(c);
        proof {
            assert(r@.drop_last() =~= r0);
            assert(models_of(r@) == models_of(r0).push(model(c)));
            assert(ms.take(i + 1).drop_last() =~= ms.take(i as int));
            assert(models_of(r@) =~= ms.take(i + 1));
        }
        i = i + 1;
    }
    proof {
        assert(ms.take(v@.len() as int) =~= ms);
    }
    r
}

/// A copy of every CTE binding of `v`, equal in name and model.
fn clone_ctes(v: &Vec<CteBinding>) -> (r: Vec<CteBinding>)
    ensures
        ctes_of(r@) == ctes_of(v@),
    decreases *v, 2int,
{
    let ghost cs = ctes_of(v@);
    let mut r: Vec<CteBinding> = Vec::new();
    let mut i: usize = 0;
    proof {
        lemma_ctes_of_index(v@);
        assert(ctes_of(r@) =~= cs.take(0));
    }
    while i < v.len()
        invariant
            i <= v@.len(),
            cs == ctes_of(v@),
            cs.len() == v@.len(),
            forall|j: int|
                0 <= j < v@.len() ==> cs[j] == (v@[j].name@, model(v@[j].query)),
            r@.len() == i,
            ctes_of(r@) == cs.take(i as int),
        decreases v@.len() - i,
    {
        proof {
            assert(decreases_to!(*v => v@));
            assert(decreases_to!(v@ => v@[i as int]));
            assert(decreases_to!(v@[i as int] => v@[i as int].query));
        }
        let b = &v[i];
        let c = CteBinding { name: b.name.clone(), query: b.query.duplicate() };
        let ghost r0 = r@;
        r.push(c);
        proof {
            assert(r@.drop_last() =~= r0);
            assert(ctes_of(r@) == ctes_of(r0).push((c.name@, model(c.query))));
            assert(cs.take(i + 1).drop_last() =~= cs.take(i as int));
            assert(ctes_of(r@) =~= cs.take(i + 1));
        }
        i = i + 1;
    }
    proof {
        assert(cs.take(v@.len() as int) =~= cs);
    }
    r
}

impl SelectBuilder {
    /// A copy with the same model: mutating either value afterwards
    /// never changes what the other renders.
    fn duplicate(&self) -> (res: Self)
        ensures
            res@ == self@,
        decreases *self, 3int,
    {
        proof {
            assert(decreases_to!(*self => self._with));
            assert(decreases_to!(*self => self._union));
            assert(decreases_to!(*self => self._intersect));
            assert(decreases_to!(*self => self._except));
        }
        let res = SelectBuilder {
            _raw: clone_texts(&self._raw),
            _with: clone_ctes(&self._with),
            _select: clone_texts(&self._select),
            _from: clone_texts(&self._from),
            _join: clone_texts(&self._join),
            _where: clone_texts(&self._where),
            _group_by: clone_texts(&self._group_by),
            _having: clone_texts(&self._having),
            _order_by: clone_texts(&self._order_by),
            _limit: self._limit.clone(),
            _offset: self._offset.clone(),
            _raw_before: clone_anchors(&self._raw_before),
            _raw_after: clone_anchors(&self._raw_after),
            _union: clone_builders(&self._union),
            _intersect: clone_builders(&self._intersect),
            _except: clone_builders(&self._except),
        };
        proof {
            assert(model(res) =~~= model(*self));
        }
        res
    }
}

impl Default for SelectBuilder {
    /// The default value is the empty builder.
    fn default() -> (res: Self)
        ensures
            res@ == empty_query(),
    {
        SelectBuilder::new()
    }
}

impl Clone for SelectBuilder {
    /// A clone has the same model as the original; the two values are
    /// independent afterwards.
    fn clone(&self) -> (res: Self)
        ensures
            res@ == self@,
    {
        self.duplicate()
    }
}


} // verus!
