use sql_query_builder::SelectBuilder;
use sql_query_builder::SelectClause;

#[test]
fn pushing_a_fragment_twice_renders_it_once() {
    let twice = SelectBuilder::new().select("a").select("a").from("t");
    let once = SelectBuilder::new().select("a").from("t");

    assert_eq!(twice.as_string(), once.as_string());
    assert_eq!(twice.as_string(), "SELECT a FROM t");
}

#[test]
fn fragments_render_in_first_push_order() {
    let select = SelectBuilder::new().select("b").select("a").select("c");

    assert_eq!(select.as_string(), "SELECT b, a, c");
}

#[test]
fn limit_overwrites_instead_of_accumulating() {
    let select = SelectBuilder::new().limit("100").limit("200");

    assert_eq!(select.as_string(), "LIMIT 200");
}

#[test]
fn offset_overwrites_instead_of_accumulating() {
    let select = SelectBuilder::new().offset("10").offset("25");

    assert_eq!(select.as_string(), "OFFSET 25");
}

#[test]
fn raw_before_renders_without_the_anchored_clause() {
    let select = SelectBuilder::new().raw_before(SelectClause::Where, "X");

    assert_eq!(select.as_string(), "X");
}

#[test]
fn select_and_from_render_with_single_spaces() {
    let select = SelectBuilder::new().select("a").from("t");

    assert_eq!(select.as_string(), "SELECT a FROM t");
}

#[test]
fn where_and_and_join_with_the_and_keyword() {
    let select = SelectBuilder::new().select("*").from("t").where_clause("a=1").and("b=2");

    assert_eq!(select.as_string(), "SELECT * FROM t WHERE a=1 AND b=2");
}

#[test]
fn identical_inner_join_texts_dedup_to_one_fragment() {
    let select = SelectBuilder::new()
        .select("*")
        .from("t1")
        .inner_join("t2 ON t2.id = t1.id")
        .inner_join("t2 ON t2.id = t1.id");

    assert_eq!(select.as_string(), "SELECT * FROM t1 INNER JOIN t2 ON t2.id = t1.id");
}

#[test]
fn differing_join_kinds_on_the_same_table_stay_distinct() {
    let select = SelectBuilder::new().from("t1").inner_join("t2 ON c").left_join("t2 ON c");

    assert_eq!(select.as_string(), "FROM t1 INNER JOIN t2 ON c LEFT JOIN t2 ON c");
}

#[test]
fn cross_and_right_joins_compose_their_keyword() {
    let select = SelectBuilder::new().from("t1").cross_join("t2").right_join("t3 ON c");

    assert_eq!(select.as_string(), "FROM t1 CROSS JOIN t2 RIGHT JOIN t3 ON c");
}

#[test]
fn with_binds_a_named_sub_query() {
    let inner = SelectBuilder::new().select("a").from("t");
    let select = SelectBuilder::new().with("x", inner).select("*").from("x");

    assert_eq!(select.as_string(), "WITH x AS (SELECT a FROM t) SELECT * FROM x");
}

#[test]
fn two_ctes_are_comma_joined() {
    let first = SelectBuilder::new().select("a").from("t");
    let second = SelectBuilder::new().select("b").from("u");
    let select = SelectBuilder::new().with("x", first).with("y", second).select("*").from("x");

    assert_eq!(
        select.as_string(),
        "WITH x AS (SELECT a FROM t), y AS (SELECT b FROM u) SELECT * FROM x"
    );
}

#[test]
fn terminal_helpers_leave_the_builder_unchanged() {
    let select = SelectBuilder::new().select("*").from("users").where_clause("login = foo");

    let before = select.as_string();
    let _ = select.as_debug_string();
    let _ = select.as_print_string();
    let after = select.as_string();

    let untouched = SelectBuilder::new().select("*").from("users").where_clause("login = foo");

    assert_eq!(before, after);
    assert_eq!(after, untouched.as_string());
}

#[test]
fn mutating_a_clone_leaves_the_original_alone() {
    let original = SelectBuilder::new().select("a").from("t");
    let clone = original.clone().select("b").where_clause("c=1").limit("9");

    assert_eq!(original.as_string(), "SELECT a FROM t");
    assert_eq!(clone.as_string(), "SELECT a, b FROM t WHERE c=1 LIMIT 9");
}

#[test]
fn an_empty_builder_renders_nothing() {
    assert_eq!(SelectBuilder::new().as_string(), "");
}

#[test]
fn fragments_are_trimmed_before_dedup_and_render() {
    let select = SelectBuilder::new().select("  a  ").select("a").from("\t t \n");

    assert_eq!(select.as_string(), "SELECT a FROM t");
}

#[test]
fn group_by_having_and_order_by_render_in_clause_order() {
    let select = SelectBuilder::new()
        .select("k, count(*)")
        .from("t")
        .group_by("k")
        .having("count(*) > 1")
        .having("k <> 0")
        .order_by("k desc")
        .limit("10")
        .offset("20");

    assert_eq!(
        select.as_string(),
        "SELECT k, count(*) FROM t GROUP BY k HAVING count(*) > 1 AND k <> 0 ORDER BY k desc LIMIT 10 OFFSET 20"
    );
}

#[test]
fn raw_fragments_render_first_and_dedup() {
    let select = SelectBuilder::new().raw("/* hint */").raw("/* hint */").select("a").from("t");

    assert_eq!(select.as_string(), "/* hint */ SELECT a FROM t");
}

#[test]
fn anchored_raw_entries_are_not_deduped() {
    let select = SelectBuilder::new()
        .from("t")
        .raw_after(SelectClause::From, "X")
        .raw_after(SelectClause::From, "X");

    assert_eq!(select.as_string(), "FROM t X X");
}

#[test]
fn union_renders_each_operand_after_its_keyword() {
    let other = SelectBuilder::new().select("b").from("u");
    let select = SelectBuilder::new().select("a").from("t").union(other);

    assert_eq!(select.as_string(), "SELECT a FROM t UNION SELECT b FROM u");
}

#[test]
fn intersect_and_except_render_in_fixed_order() {
    let select = SelectBuilder::new()
        .select("a")
        .from("t")
        .except(SelectBuilder::new().select("c").from("v"))
        .intersect(SelectBuilder::new().select("b").from("u"));

    assert_eq!(
        select.as_string(),
        "SELECT a FROM t INTERSECT SELECT b FROM u EXCEPT SELECT c FROM v"
    );
}

#[test]
fn debug_text_is_multi_line_with_colorized_keywords() {
    let select = SelectBuilder::new().select("*").from("users").where_clause("a=1").and("b=2");

    assert_eq!(
        select.as_debug_string(),
        "\u{1b}[34mSELECT\u{1b}[0m *\n\u{1b}[34mFROM\u{1b}[0m users\n\u{1b}[34mWHERE\u{1b}[0m a=1 \u{1b}[34mAND\u{1b}[0m b=2"
    );
}

#[test]
fn debug_text_indents_a_cte_under_its_binding() {
    let inner = SelectBuilder::new().select("a").from("t");
    let select = SelectBuilder::new().with("x", inner).select("*").from("x");

    assert_eq!(
        select.as_debug_string(),
        "\u{1b}[34mWITH\u{1b}[0m x \u{1b}[34mAS\u{1b}[0m (\n  \u{1b}[34mSELECT\u{1b}[0m a\n  \u{1b}[34mFROM\u{1b}[0m t\n)\n\u{1b}[34mSELECT\u{1b}[0m *\n\u{1b}[34mFROM\u{1b}[0m x"
    );
}

#[test]
fn print_text_is_one_line_with_colorized_keywords() {
    let select = SelectBuilder::new().select("a").from("t");

    assert_eq!(
        select.as_print_string(),
        "\u{1b}[34mSELECT\u{1b}[0m a \u{1b}[34mFROM\u{1b}[0m t"
    );
}

#[test]
fn plain_render_never_holds_colour_codes() {
    let select = SelectBuilder::new().select("a").from("t").where_clause("x=1");

    assert!(!select.as_string().contains('\u{1b}'));
}

#[test]
fn raw_before_and_after_surround_a_populated_clause() {
    let select = SelectBuilder::new()
        .select("a")
        .from("t")
        .raw_before(SelectClause::Where, "/* b */")
        .where_clause("x=1")
        .raw_after(SelectClause::Where, "/* a */");

    assert_eq!(select.as_string(), "SELECT a FROM t /* b */ WHERE x=1 /* a */");
}

#[test]
fn an_unset_limit_renders_nothing() {
    let select = SelectBuilder::new().select("a").from("t").limit("");

    assert_eq!(select.as_string(), "SELECT a FROM t");
}
