//! The properties the expansion engine is built around, each stated over the
//! contracts of the public functions and proved once and for all.

use vstd::prelude::*;
use crate::emit::{
    spec_emit_binding, spec_emit_bindings, spec_emit_case, spec_emit_test_attr, spec_emit_trace,
};
use crate::expand::{
    case_matrix_env, ext_resolve, matrix_case_module_ok, matrix_shape, parametrized_case_ok,
    spec_case_table, spec_emit_items, spec_emit_tree, spec_group_text, spec_list_name, CaseTree,
    MatrixEnv,
};
use crate::model::{opt_view, spec_attr_ends_with, spec_attr_is, Attr, AttrArgs, CaseInfo, Config,
    Param, Template, TestInfo};
use crate::resolver::spec_table_lookup;
use crate::names::{
    case_name, decimal_digits, lemma_case_name_injective, lemma_decimal_len_monotonic,
    lemma_list_case_name_injective,
};
use crate::render::{
    attrs_without, rendered_case_spec, spec_first_attr_named, spec_has_test_marker,
    spec_resolved_value,
    spec_test_attr_outcome, spec_test_call, spec_effective_timeout, spec_trace_stmt,
    spec_trace_stmts, CaseBinding, RenderedCase, TestAttrOutcome,
};

verus! {

/// The name of a rendered leaf, the empty sequence for a module.
pub open spec fn leaf_name(t: CaseTree) -> Seq<char> {
    match t {
        CaseTree::Leaf(rc) => rc.name@,
        CaseTree::Module { .. } => Seq::empty(),
    }
}

/// An explicit-case list of length N expands to exactly N rendered cases,
/// in declaration order, each named `case_` plus the 1-based index
/// zero-padded to the digit width of N, plus the case's description; and no
/// two of those names collide.
pub proof fn law_explicit_case_names(
    items: Seq<CaseTree>,
    test: Template,
    info: TestInfo,
    cfg: Config,
)
    requires
        items.len() == info.cases@.len(),
        forall|i: int|
            0 <= i < items.len() ==> parametrized_case_ok(#[trigger] items[i], test, info, cfg, i),
    ensures
        forall|i: int|
            0 <= i < items.len() ==> ((#[trigger] items[i]) matches CaseTree::Leaf(rc)
                && rc.name@ == case_name(
                (i + 1) as nat,
                decimal_digits(info.cases@.len() as nat).len(),
                opt_view(info.cases@[i].description),
            )),
        forall|i: int, j: int|
            0 <= i < j < items.len() ==> leaf_name(#[trigger] items[i]) != leaf_name(
                #[trigger] items[j],
            ),
{
    let n = info.cases@.len() as nat;
    let w = decimal_digits(n).len();
    assert forall|i: int, j: int| 0 <= i < j < items.len() implies leaf_name(items[i])
        != leaf_name(items[j]) by {
        lemma_decimal_len_monotonic((i + 1) as nat, n);
        lemma_decimal_len_monotonic((j + 1) as nat, n);
        lemma_case_name_injective(
            (i + 1) as nat,
            (j + 1) as nat,
            w,
            opt_view(info.cases@[i].description),
            opt_view(info.cases@[j].description),
        );
    }
}

/// How many rendered cases a tree node holds.
pub open spec fn leaf_count(t: CaseTree) -> nat
    decreases t,
{
    match t {
        CaseTree::Leaf(_) => 1,
        CaseTree::Module { items, .. } => items_leaf_count(items@),
    }
}

/// How many rendered cases a list of tree nodes holds.
pub open spec fn items_leaf_count(items: Seq<CaseTree>) -> nat
    decreases items,
{
    if items.len() == 0 {
        0
    } else {
        leaf_count(items[0]) + items_leaf_count(items.drop_first())
    }
}

/// The product of the dimension sizes from dimension `k` on.
pub open spec fn dims_product(lists: Seq<crate::model::ValueList>, k: int) -> nat
    decreases lists.len() - k,
{
    if k < 0 || k >= lists.len() {
        1
    } else {
        lists[k].values@.len() * dims_product(lists, k + 1)
    }
}

/// A matrix expansion of the dimensions from `k` on, started at value index
/// `t`, holds one rendered case per remaining combination.
pub proof fn lemma_matrix_count(
    items: Seq<CaseTree>,
    lists: Seq<crate::model::ValueList>,
    k: int,
    t: int,
    env: MatrixEnv,
)
    requires
        matrix_shape(items, lists, k, t, env),
        0 <= k < lists.len(),
        0 <= t <= lists[k].values@.len(),
    ensures
        items_leaf_count(items) == (lists[k].values@.len() - t) * dims_product(lists, k + 1),
    decreases lists.len() - k, items.len(),
{
    let n = lists[k].values@.len() as int;
    let p = dims_product(lists, k + 1);
    if items.len() == 0 {
        assert((n - t) * p == 0) by (nonlinear_arith)
            requires
                n == t,
        ;
    } else {
        lemma_matrix_count(items.drop_first(), lists, k, t + 1, env);
        if k == lists.len() - 1 {
            assert(leaf_count(items[0]) == 1);
            assert(p == 1);
        } else {
            let sub = items[0]->Module_items;
            let env2 = MatrixEnv {
                explicit: ext_resolve(lists[k].arg@, lists[k].values@[t].expr@, env.explicit),
                ..env
            };
            lemma_matrix_count(sub@, lists, k + 1, 0, env2);
            assert(items_leaf_count(sub@) == (lists[k + 1].values@.len() - 0) * dims_product(
                lists,
                k + 2,
            ));
            assert(leaf_count(items[0]) == p);
        }
        assert(p + (n - t - 1) * p == (n - t) * p) by (nonlinear_arith)
            requires
                t < n,
        ;
    }
}

/// A full matrix expansion yields exactly the product of the dimension sizes:
/// for dimensions of sizes a, b, c, exactly a·b·c rendered cases.
pub proof fn law_matrix_case_count(
    items: Seq<CaseTree>,
    lists: Seq<crate::model::ValueList>,
    env: MatrixEnv,
)
    requires
        matrix_shape(items, lists, 0, 0, env),
        lists.len() > 0,
    ensures
        items_leaf_count(items) == dims_product(lists, 0),
{
    lemma_matrix_count(items, lists, 0, 0, env);
    assert(lists[0].values@.len() * dims_product(lists, 1) == dims_product(lists, 0));
}

/// When explicit cases (count M) are combined with a matrix, the expansion
/// nests one full matrix under each case's namespace, so the total rendered
/// case count is M times the product of the dimension sizes.
pub proof fn law_combined_case_count(
    items: Seq<CaseTree>,
    test: Template,
    info: TestInfo,
    cfg: Config,
    allow: Attr,
)
    requires
        items.len() == info.cases@.len(),
        info.lists@.len() > 0,
        forall|i: int|
            0 <= i < items.len() ==> matrix_case_module_ok(
                #[trigger] items[i],
                test,
                info,
                cfg,
                allow,
                i,
            ),
    ensures
        items_leaf_count(items) == items.len() * dims_product(info.lists@, 0),
{
    assert forall|i: int|
        0 <= i < items.len() implies uniform_module_ok(#[trigger] items[i], info.lists@) by {
        assert(matrix_case_module_ok(items[i], test, info, cfg, allow, i));
        let env = case_matrix_env(test, info, cfg, allow, i);
        assert(matrix_shape(items[i]->Module_items@, info.lists@, 0, 0, env));
    }
    lemma_uniform_count(items, info.lists@);
}

/// A module holding one full matrix expansion, whatever its name.
pub open spec fn uniform_module_ok(item: CaseTree, lists: Seq<crate::model::ValueList>) -> bool {
    item matches CaseTree::Module { items: sub, .. } && exists|env: MatrixEnv|
        #[trigger] matrix_shape(sub@, lists, 0, 0, env)
}

/// A list of modules that each hold one full matrix expansion holds the
/// expansion once per module.
pub proof fn lemma_uniform_count(items: Seq<CaseTree>, lists: Seq<crate::model::ValueList>)
    requires
        lists.len() > 0,
        forall|i: int| 0 <= i < items.len() ==> uniform_module_ok(#[trigger] items[i], lists),
    ensures
        items_leaf_count(items) == items.len() * dims_product(lists, 0),
    decreases items.len(),
{
    if items.len() == 0 {
    } else {
        assert(uniform_module_ok(items[0], lists));
        let sub = items[0]->Module_items;
        let env = choose|env: MatrixEnv| matrix_shape(sub@, lists, 0, 0, env);
        law_matrix_case_count(sub@, lists, env);
        assert(leaf_count(items[0]) == items_leaf_count(sub@));
        assert(items_leaf_count(items) == leaf_count(items[0]) + items_leaf_count(
            items.drop_first(),
        ));
        assert forall|i: int|
            0 <= i < items.drop_first().len() implies uniform_module_ok(
            #[trigger] items.drop_first()[i],
            lists,
        ) by {
            assert(uniform_module_ok(items[i + 1], lists));
        }
        lemma_uniform_count(items.drop_first(), lists);
        let m = items.len();
        let p = dims_product(lists, 0);
        assert(items.drop_first().len() == m - 1);
        assert(p + (m - 1) * p == m * p) by (nonlinear_arith)
            requires
                m >= 1,
        ;
    }
}

/// The fully qualified names of the rendered cases under one tree node:
/// each is the path of namespace names down to and including the case name.
pub open spec fn tree_quals(t: CaseTree) -> Seq<Seq<Seq<char>>>
    decreases t,
{
    match t {
        CaseTree::Leaf(rc) => seq![seq![rc.name@]],
        CaseTree::Module { name, items, .. } => items_quals(items@).map_values(
            |q: Seq<Seq<char>>| seq![name@] + q,
        ),
    }
}

/// The fully qualified names of the rendered cases under a list of nodes.
pub open spec fn items_quals(items: Seq<CaseTree>) -> Seq<Seq<Seq<char>>>
    decreases items,
{
    if items.len() == 0 {
        Seq::empty()
    } else {
        tree_quals(items[0]) + items_quals(items.drop_first())
    }
}

/// There is one fully qualified name per rendered case.
pub proof fn lemma_quals_count_tree(t: CaseTree)
    ensures
        tree_quals(t).len() == leaf_count(t),
    decreases t,
{
    match t {
        CaseTree::Leaf(_) => {},
        CaseTree::Module { name, items, .. } => {
            lemma_quals_count_items(items@);
        },
    }
}

/// There is one fully qualified name per rendered case under a node list.
pub proof fn lemma_quals_count_items(items: Seq<CaseTree>)
    ensures
        items_quals(items).len() == items_leaf_count(items),
    decreases items,
{
    if items.len() > 0 {
        lemma_quals_count_tree(items[0]);
        lemma_quals_count_items(items.drop_first());
    }
}

/// In a matrix expansion of the dimensions from `k` on, started at value
/// index `t`: every qualified name is one segment per remaining dimension
/// deep, its first segment is the name of one of the remaining values of
/// dimension `k`, and no two qualified names coincide.
pub proof fn lemma_matrix_quals(
    items: Seq<CaseTree>,
    lists: Seq<crate::model::ValueList>,
    k: int,
    t: int,
    env: MatrixEnv,
)
    requires
        matrix_shape(items, lists, k, t, env),
        0 <= k < lists.len(),
        0 <= t <= lists[k].values@.len(),
    ensures
        forall|a: int|
            0 <= a < items_quals(items).len() ==> (#[trigger] items_quals(items)[a]).len()
                == lists.len() - k,
        forall|a: int|
            0 <= a < items_quals(items).len() ==> exists|s: int|
                t <= s < lists[k].values@.len() && (#[trigger] items_quals(items)[a])[0]
                    == spec_list_name(lists, k, s),
        forall|a: int, b: int|
            0 <= a < b < items_quals(items).len() ==> items_quals(items)[a] != items_quals(
                items,
            )[b],
    decreases lists.len() - k, items.len(),
{
    let n = lists[k].values@.len() as int;
    let w = decimal_digits(lists[k].values@.len() as nat).len();
    if items.len() == 0 {
    } else {
        let hq = tree_quals(items[0]);
        let tq = items_quals(items.drop_first());
        let q = items_quals(items);
        lemma_matrix_quals(items.drop_first(), lists, k, t + 1, env);
        if k == lists.len() - 1 {
            assert(hq =~= seq![seq![spec_list_name(lists, k, t)]]);
        } else {
            let sub = items[0]->Module_items;
            let env2 = MatrixEnv {
                explicit: ext_resolve(lists[k].arg@, lists[k].values@[t].expr@, env.explicit),
                ..env
            };
            lemma_matrix_quals(sub@, lists, k + 1, 0, env2);
            let subq = items_quals(sub@);
            assert(hq.len() == subq.len());
            assert forall|a: int| 0 <= a < hq.len() implies (#[trigger] hq[a]).len() == lists.len()
                - k && hq[a][0] == spec_list_name(lists, k, t) && hq[a].drop_first()
                == subq[a] by {
                assert(hq[a] == seq![spec_list_name(lists, k, t)] + subq[a]);
                assert(hq[a].drop_first() =~= subq[a]);
            }
            assert forall|a: int, b: int| 0 <= a < b < hq.len() implies hq[a] != hq[b] by {
                assert(subq[a] != subq[b]);
                assert(hq[a].drop_first() == subq[a]);
                assert(hq[b].drop_first() == subq[b]);
            }
        }
        // Every qualified name of the head block starts with the name of
        // value `t`; every one of the tail block starts with the name of a
        // later value, and names of distinct values differ.
        assert forall|a: int| 0 <= a < hq.len() implies (#[trigger] hq[a]).len() == lists.len() - k
            && hq[a][0] == spec_list_name(lists, k, t) by {}
        assert(q =~= hq + tq);
        assert forall|a: int| 0 <= a < q.len() implies (#[trigger] q[a]).len() == lists.len()
            - k by {
            if a >= hq.len() {
                assert(q[a] == tq[a - hq.len()]);
            }
        }
        assert forall|a: int|
            0 <= a < q.len() implies exists|s: int|
                t <= s < n && (#[trigger] q[a])[0] == spec_list_name(lists, k, s) by {
            if a < hq.len() {
                assert(t <= t < n && q[a][0] == spec_list_name(lists, k, t));
            } else {
                assert(q[a] == tq[a - hq.len()]);
                let s = choose|s: int|
                    t + 1 <= s < n && tq[a - hq.len()][0] == spec_list_name(lists, k, s);
                assert(t <= s < n && q[a][0] == spec_list_name(lists, k, s));
            }
        }
        assert forall|a: int, b: int| 0 <= a < b < q.len() implies q[a] != q[b] by {
            if a < hq.len() && b < hq.len() {
                assert(hq[a] != hq[b]);
            } else if a >= hq.len() && b >= hq.len() {
                assert(q[a] == tq[a - hq.len()]);
                assert(q[b] == tq[b - hq.len()]);
            } else {
                assert(q[a] == hq[a]);
                assert(q[b] == tq[b - hq.len()]);
                let s = choose|s: int|
                    t + 1 <= s < n && tq[b - hq.len()][0] == spec_list_name(lists, k, s);
                lemma_decimal_len_monotonic((t + 1) as nat, lists[k].values@.len() as nat);
                lemma_decimal_len_monotonic((s + 1) as nat, lists[k].values@.len() as nat);
                lemma_list_case_name_injective(
                    lists[k].arg@,
                    (t + 1) as nat,
                    (s + 1) as nat,
                    w,
                    crate::expand::spec_list_desc(lists, k, t),
                    crate::expand::spec_list_desc(lists, k, s),
                );
                assert(q[a][0] != q[b][0]);
            }
        }
    }
}

/// In a value-list matrix expansion every rendered case sits one namespace
/// level per dimension deep (the last level being the case name itself), and
/// two distinct combinations never receive identical fully-qualified names.
pub proof fn law_matrix_names_unique(
    items: Seq<CaseTree>,
    lists: Seq<crate::model::ValueList>,
    env: MatrixEnv,
)
    requires
        matrix_shape(items, lists, 0, 0, env),
        lists.len() > 0,
    ensures
        items_quals(items).len() == items_leaf_count(items),
        forall|a: int|
            0 <= a < items_quals(items).len() ==> (#[trigger] items_quals(items)[a]).len()
                == lists.len(),
        forall|a: int, b: int|
            0 <= a < b < items_quals(items).len() ==> items_quals(items)[a] != items_quals(
                items,
            )[b],
{
    lemma_quals_count_items(items);
    lemma_matrix_quals(items, lists, 0, 0, env);
}

/// A parameter bound by an explicit case value resolves to that value,
/// whatever any fixture default or context request says: the chain stops at
/// the first source.
pub proof fn law_explicit_precedence(
    p: Param,
    explicit: spec_fn(Seq<char>) -> Option<Seq<char>>,
    fixtures: spec_fn(Seq<char>) -> Option<Seq<char>>,
    testfn: Seq<char>,
    d: Option<Seq<char>>,
    pos: Option<nat>,
    v: Seq<char>,
)
    requires
        explicit(p.name@) == Some(v),
    ensures
        spec_resolved_value(p, explicit, fixtures, testfn, d, pos) == Some(v),
{
}

/// A context-requesting parameter that is also explicitly bound under the
/// same identifier takes the explicit binding; the synthesized context value
/// is consulted only when no explicit binding exists.
pub proof fn law_explicit_over_context(
    p: Param,
    explicit: spec_fn(Seq<char>) -> Option<Seq<char>>,
    fixtures: spec_fn(Seq<char>) -> Option<Seq<char>>,
    testfn: Seq<char>,
    d: Option<Seq<char>>,
    pos: Option<nat>,
    v: Seq<char>,
)
    requires
        p.is_context,
        explicit(p.name@) == Some(v),
    ensures
        spec_resolved_value(p, explicit, fixtures, testfn, d, pos) == Some(v),
{
}

/// Context synthesis is consulted only for context-requesting parameters: a
/// plain parameter without an explicit binding falls through to the fixture
/// defaults.
pub proof fn law_context_only_for_context_params(
    p: Param,
    explicit: spec_fn(Seq<char>) -> Option<Seq<char>>,
    fixtures: spec_fn(Seq<char>) -> Option<Seq<char>>,
    testfn: Seq<char>,
    d: Option<Seq<char>>,
    pos: Option<nat>,
)
    requires
        !p.is_context,
        explicit(p.name@) is None,
    ensures
        spec_resolved_value(p, explicit, fixtures, testfn, d, pos) == fixtures(p.name@),
{
}

/// With no explicit and no attribute-level timeout, a process-wide override
/// applies exactly as if it had been written as an explicit timeout parsing
/// that value as whole seconds.
pub proof fn law_env_timeout_applies(
    testfn: Seq<char>,
    args: Seq<Seq<char>>,
    is_async: bool,
    env_val: Seq<char>,
    crate_path: Seq<char>,
)
    ensures
        spec_test_call(testfn, args, None, is_async, Some(env_val), crate_path) == spec_test_call(
            testfn,
            args,
            Some(
                "core::time::Duration::from_secs((\""@ + env_val + "\").parse().unwrap())"@,
            ),
            is_async,
            None,
            crate_path,
        ),
        spec_effective_timeout(None, Some(env_val)) is Some,
{
}

/// An asynchronous template with no test-entry marker and no explicit
/// override resolves to a compile-time error, never to a silently skipped
/// test: the emitted marker line is a `compile_error!` invocation.
pub proof fn law_async_needs_marker(attrs: Seq<Attr>)
    requires
        spec_first_attr_named(attrs, "test_attr"@) is None,
        !spec_has_test_marker(attrs),
    ensures
        spec_test_attr_outcome(true, attrs) == TestAttrOutcome::MissingAsyncMarker,
        spec_emit_test_attr(spec_test_attr_outcome(true, attrs))
            == "compile_error!{\"async tests require either an explicit `test_attr` or an attribute whose path ends with `test`\"}\n"@,
{
}

/// A traced parameter contributes its print statement to the trace block.
pub proof fn lemma_trace_stmt_present(params: Seq<Param>, i: int)
    requires
        0 <= i < params.len(),
        params[i].traced,
    ensures
        spec_trace_stmts(params).contains(spec_trace_stmt(params[i].name@)),
        spec_trace_stmts(params).len() > 0,
    decreases params.len(),
{
    if i == 0 {
        assert(spec_trace_stmts(params)[0] == spec_trace_stmt(params[0].name@));
    } else {
        lemma_trace_stmt_present(params.drop_first(), i - 1);
        let stmt = spec_trace_stmt(params[i].name@);
        let rest = spec_trace_stmts(params.drop_first());
        let j = choose|j: int| 0 <= j < rest.len() && rest[j] == stmt;
        if params[0].traced {
            assert(spec_trace_stmts(params)[j + 1] == stmt);
        } else {
            assert(spec_trace_stmts(params)[j] == stmt);
        }
    }
}

/// A parameter flagged traced produces, ahead of the wrapped call, a trace
/// block of exactly two separator lines around the per-parameter prints, one
/// of which is this parameter's `name = value` print.
pub proof fn law_trace_output(params: Seq<Param>, i: int)
    requires
        0 <= i < params.len(),
        params[i].traced,
    ensures
        spec_trace_stmts(params).contains(spec_trace_stmt(params[i].name@)),
        spec_emit_trace(spec_trace_stmts(params))
            == "println!(\"{:-^40}\", \" TEST ARGUMENTS \");\n"@ + crate::emit::spec_emit_lines(
            spec_trace_stmts(params),
        ) + "println!(\"{:-^40}\", \" TEST START \");\n"@,
{
    lemma_trace_stmt_present(params, i);
}

/// Two bindings that agree on their shape and character content.
pub open spec fn binding_eqv(a: CaseBinding, b: CaseBinding) -> bool {
    match (a, b) {
        (CaseBinding::Formal, CaseBinding::Formal) => true,
        (
            CaseBinding::Bound { name: n1, expr: e1 },
            CaseBinding::Bound { name: n2, expr: e2 },
        ) => n1@ == n2@ && e1@ == e2@,
        (CaseBinding::Unresolved { name: n1 }, CaseBinding::Unresolved { name: n2 }) => n1@
            == n2@,
        _ => false,
    }
}

/// Bindings that agree pointwise emit the same lines.
pub proof fn lemma_emit_bindings_congruent(a: Seq<CaseBinding>, b: Seq<CaseBinding>)
    requires
        a.len() == b.len(),
        forall|i: int| 0 <= i < a.len() ==> binding_eqv(#[trigger] a[i], b[i]),
    ensures
        spec_emit_bindings(a) == spec_emit_bindings(b),
    decreases a.len(),
{
    if a.len() > 0 {
        assert(binding_eqv(a[0], b[0]));
        assert(spec_emit_binding(a[0]) == spec_emit_binding(b[0]));
        assert forall|i: int|
            0 <= i < a.drop_first().len() implies binding_eqv(
            #[trigger] a.drop_first()[i],
            b.drop_first()[i],
        ) by {
            assert(binding_eqv(a[i + 1], b[i + 1]));
        }
        lemma_emit_bindings_congruent(a.drop_first(), b.drop_first());
    }
}

/// Rendering is deterministic: any two cases rendered from the same inputs
/// under the renderer's contract emit byte-identical text.
pub proof fn law_render_deterministic(
    r1: RenderedCase,
    r2: RenderedCase,
    name: Seq<char>,
    testfn: Seq<char>,
    params: Seq<Param>,
    attrs: Seq<Attr>,
    ret: Option<String>,
    is_async: bool,
    embedded: Option<String>,
    explicit: spec_fn(Seq<char>) -> Option<Seq<char>>,
    fixtures: spec_fn(Seq<char>) -> Option<Seq<char>>,
    global_trace: bool,
    lifetimes: Seq<String>,
    ci: Option<CaseInfo>,
    cfg: Config,
)
    requires
        rendered_case_spec(
            r1,
            name,
            testfn,
            params,
            attrs,
            ret,
            is_async,
            embedded,
            explicit,
            fixtures,
            global_trace,
            lifetimes,
            ci,
            cfg,
        ),
        rendered_case_spec(
            r2,
            name,
            testfn,
            params,
            attrs,
            ret,
            is_async,
            embedded,
            explicit,
            fixtures,
            global_trace,
            lifetimes,
            ci,
            cfg,
        ),
    ensures
        spec_emit_case(r1) == spec_emit_case(r2),
{
    assert forall|i: int| 0 <= i < params.len() implies binding_eqv(
        #[trigger] r1.bindings@[i],
        r2.bindings@[i],
    ) by {
        let d = crate::render::spec_ci_desc(ci);
        let pos = crate::render::spec_ci_pos(ci);
        assert(crate::render::spec_binding_ok(
            r1.bindings@[i],
            params[i],
            explicit,
            fixtures,
            testfn,
            d,
            pos,
        ));
        assert(crate::render::spec_binding_ok(
            r2.bindings@[i],
            params[i],
            explicit,
            fixtures,
            testfn,
            d,
            pos,
        ));
    }
    lemma_emit_bindings_congruent(r1.bindings@, r2.bindings@);
}

/// Tree nodes that emit identical text position by position emit identical
/// concatenated text.
pub proof fn lemma_emit_items_pointwise(a: Seq<CaseTree>, b: Seq<CaseTree>)
    requires
        a.len() == b.len(),
        forall|i: int|
            0 <= i < a.len() ==> spec_emit_tree(#[trigger] a[i]) == spec_emit_tree(b[i]),
    ensures
        spec_emit_items(a) == spec_emit_items(b),
    decreases a.len(),
{
    if a.len() > 0 {
        assert forall|i: int|
            0 <= i < a.drop_first().len() implies spec_emit_tree(#[trigger] a.drop_first()[i])
            == spec_emit_tree(b.drop_first()[i]) by {
            assert(spec_emit_tree(a[i + 1]) == spec_emit_tree(b[i + 1]));
        }
        lemma_emit_items_pointwise(a.drop_first(), b.drop_first());
    }
}

/// Expanding the same explicit-case input twice yields byte-identical
/// generated source: the whole pipeline is deterministic.
pub proof fn law_expansion_deterministic(
    test: Template,
    info: TestInfo,
    cfg: Config,
    items1: Seq<CaseTree>,
    text1: Seq<char>,
    items2: Seq<CaseTree>,
    text2: Seq<char>,
)
    requires
        items1.len() == info.cases@.len(),
        items2.len() == info.cases@.len(),
        forall|i: int|
            0 <= i < items1.len() ==> parametrized_case_ok(
                #[trigger] items1[i],
                test,
                info,
                cfg,
                i,
            ),
        forall|i: int|
            0 <= i < items2.len() ==> parametrized_case_ok(
                #[trigger] items2[i],
                test,
                info,
                cfg,
                i,
            ),
        text1 == spec_group_text(test, spec_emit_items(items1)),
        text2 == spec_group_text(test, spec_emit_items(items2)),
    ensures
        text1 == text2,
{
    assert forall|i: int|
        0 <= i < items1.len() implies spec_emit_tree(#[trigger] items1[i]) == spec_emit_tree(
        items2[i],
    ) by {
        assert(parametrized_case_ok(items1[i], test, info, cfg, i));
        assert(parametrized_case_ok(items2[i], test, info, cfg, i));
        let c = info.cases@[i];
        let rc1 = items1[i]->Leaf_0;
        let rc2 = items2[i]->Leaf_0;
        law_render_deterministic(
            rc1,
            rc2,
            case_name(
                (i + 1) as nat,
                decimal_digits(info.cases@.len() as nat).len(),
                opt_view(c.description),
            ),
            test.name@,
            test.params@,
            test.attrs@ + c.attrs@,
            test.ret,
            test.is_async,
            None::<String>,
            |n: Seq<char>| spec_table_lookup(spec_case_table(info.case_args@, c.args@), n),
            |n: Seq<char>| spec_table_lookup(info.fixtures@, n),
            info.global_trace,
            test.lifetimes@,
            Some(CaseInfo { description: c.description, pos: i as usize }),
            cfg,
        );
    }
    lemma_emit_items_pointwise(items1, items2);
}

} // verus!
