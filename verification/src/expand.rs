//! Case and matrix expansion: explicit case lists expand flat, value-list
//! matrices expand as a cartesian product realized as a tree of nested
//! namespaces, and the group assembler wraps template and cases into one
//! enclosing namespace.

use vstd::prelude::*;
use vstd::string::StringExecFns;
use crate::emit::{emit_case, emit_template, spec_emit_case, spec_emit_template};
use crate::model::{
    dup_attrs, dup_opt_string, opt_view, ArgValue, Attr, AttrArgs, CaseInfo, Config, Template,
    TestInfo,
};
use crate::names::{
    case_name, decimal_digits, display_len, format_case_name, format_list_case_name,
    list_case_name, sanitize_ident, sanitized, truncate_chars, truncated,
};
use crate::render::{rendered_case_spec, resolve_fn, single_test_case, RenderedCase};
use crate::resolver::{spec_resolve, spec_table_lookup, Resolver};

verus! {

broadcast use
    vstd::seq::axiom_seq_index_decreases,
    vstd::seq::axiom_seq_subrange_decreases,
    vstd::std_specs::vec::axiom_vec_decreases_to_view,
    vstd::std_specs::vec::axiom_vec_index_decreases,
;

/// The rendered output: a leaf is one rendered case; a module is one nested
/// namespace level of a cartesian-product expansion or one explicit case's
/// sub-tree.
pub enum CaseTree {
    Leaf(RenderedCase),
    Module { name: String, allow_non_snake: bool, items: Vec<CaseTree> },
}

/// The text of one output tree node.
pub open spec fn spec_emit_tree(t: CaseTree) -> Seq<char>
    decreases t,
{
    match t {
        CaseTree::Leaf(rc) => spec_emit_case(rc),
        CaseTree::Module { name, allow_non_snake, items } => (if allow_non_snake {
            "#[allow(non_snake_case)]\n"@
        } else {
            Seq::<char>::empty()
        }) + "mod "@ + name@ + " {\nuse super::*;\n"@ + spec_emit_items(items@) + "}\n"@,
    }
}

/// The concatenated text of a list of output tree nodes.
pub open spec fn spec_emit_items(items: Seq<CaseTree>) -> Seq<char>
    decreases items,
{
    if items.len() == 0 {
        Seq::empty()
    } else {
        spec_emit_tree(items[0]) + spec_emit_items(items.drop_first())
    }
}

/// Emits one output tree node.
pub fn emit_tree(t: &CaseTree) -> (r: String)
    ensures
        r@ == spec_emit_tree(*t),
    decreases *t,
{
    match t {
        CaseTree::Leaf(rc) => emit_case(rc),
        CaseTree::Module { name, allow_non_snake, items } => {
            let mut r = if *allow_non_snake {
                String::from_str("#[allow(non_snake_case)]\n")
            } else {
                String::new()
            };
            r.append("mod ");
            r.append(name.as_str());
            r.append(" {\nuse super::*;\n");
            let body = emit_items(items);
            r.append(body.as_str());
            r.append("}\n");
            proof {
                assert(r@ =~= spec_emit_tree(*t));
            }
            r
        },
    }
}

/// Emits the concatenated text of a list of output tree nodes.
#[verifier::loop_isolation(false)]
pub fn emit_items(items: &Vec<CaseTree>) -> (r: String)
    ensures
        r@ == spec_emit_items(items@),
    decreases items@,
{
    let mut r = String::new();
    let mut i: usize = 0;
    proof {
        assert(items@.skip(0) =~= items@);
        assert(r@ + spec_emit_items(items@) =~= spec_emit_items(items@));
    }
    while i < items.len()
        invariant
            i <= items@.len(),
            r@ + spec_emit_items(items@.skip(i as int)) == spec_emit_items(items@),
        decreases items@.len() - i,
    {
        proof {
            assert(items@.skip(i as int)[0] == items@[i as int]);
            assert(items@.skip(i as int).drop_first() =~= items@.skip(i as int + 1));
        }
        let piece = emit_tree(&items[i]);
        r.append(piece.as_str());
        proof {
            assert(r@ + spec_emit_items(items@.skip(i as int + 1)) =~= spec_emit_items(items@));
        }
        i = i + 1;
    }
    proof {
        assert(items@.skip(items@.len() as int) =~= Seq::<CaseTree>::empty());
        assert(r@ + spec_emit_items(items@.skip(items@.len() as int)) =~= r@);
    }
    r
}

/// The explicit row one case binds: its positional values zipped with the
/// declared case arguments.
pub open spec fn spec_case_table(case_args: Seq<String>, vals: Seq<String>) -> Seq<ArgValue> {
    Seq::new(
        if case_args.len() <= vals.len() {
            case_args.len()
        } else {
            vals.len()
        },
        |j: int| ArgValue { name: case_args[j], expr: vals[j] },
    )
}

/// One expanded explicit case, before rendering: its unique name, its
/// per-case attributes, its explicit-row resolver and its metadata.
pub struct CaseData {
    pub name: String,
    pub attrs: Vec<Attr>,
    pub resolver: Resolver,
    pub info: Option<CaseInfo>,
}

/// What explicit-case expansion guarantees of entry `i`.
pub open spec fn case_data_ok(cd: CaseData, info: TestInfo, i: int) -> bool {
    let c = info.cases@[i];
    &&& cd.name@ == case_name(
        (i + 1) as nat,
        decimal_digits(info.cases@.len() as nat).len(),
        opt_view(c.description),
    )
    &&& cd.attrs@ == c.attrs@
    &&& (forall|n: Seq<char>|
        spec_resolve(cd.resolver, n) == spec_table_lookup(
            spec_case_table(info.case_args@, c.args@),
            n,
        ))
    &&& cd.info matches Some(ci) && ci.description == c.description && (ci.pos as int) == i
}

/// Expands the explicit case list: case number `n` (1-based, zero-padded to
/// the digit width of the total count so names sort in declaration order)
/// gets its row resolver, its per-case attributes and its ordinal metadata.
pub fn cases_data(info: &TestInfo) -> (r: Vec<CaseData>)
    ensures
        r@.len() == info.cases@.len(),
        forall|i: int| 0 <= i < r@.len() ==> case_data_ok(#[trigger] r@[i], *info, i),
{
    let w = display_len(info.cases.len());
    let mut r: Vec<CaseData> = Vec::new();
    let mut i: usize = 0;
    while i < info.cases.len()
        invariant
            i <= info.cases@.len(),
            r@.len() == i,
            w == decimal_digits(info.cases@.len() as nat).len(),
            forall|j: int| 0 <= j < i ==> case_data_ok(#[trigger] r@[j], *info, j),
        decreases info.cases@.len() - i,
    {
        let c = &info.cases[i];
        let name = format_case_name(c, i + 1, w);
        let attrs = dup_attrs(&c.attrs);
        let m: usize = if info.case_args.len() <= c.args.len() {
            info.case_args.len()
        } else {
            c.args.len()
        };
        let mut entries: Vec<ArgValue> = Vec::new();
        let mut j: usize = 0;
        while j < m
            invariant
                j <= m,
                m == spec_case_table(info.case_args@, info.cases@[i as int].args@).len(),
                m <= info.case_args@.len(),
                m <= info.cases@[i as int].args@.len(),
                i < info.cases@.len(),
                c == &info.cases@[i as int],
                entries@.len() == j,
                forall|k: int|
                    0 <= k < j ==> #[trigger] entries@[k] == spec_case_table(
                        info.case_args@,
                        info.cases@[i as int].args@,
                    )[k],
            decreases m - j,
        {
            entries.push(ArgValue { name: info.case_args[j].clone(), expr: c.args[j].clone() });
            j = j + 1;
        }
        proof {
            assert(entries@ =~= spec_case_table(info.case_args@, info.cases@[i as int].args@));
        }
        let ci = CaseInfo { description: dup_opt_string(&c.description), pos: i };
        r.push(CaseData { name, attrs, resolver: Resolver::Table(entries), info: Some(ci) });
        i = i + 1;
    }
    r
}

/// The sanitized description of value `t` of a dimension, truncated to the
/// 64 characters a generated name may carry.
pub open spec fn spec_list_desc(lists: Seq<crate::model::ValueList>, k: int, t: int) -> Seq<char> {
    truncated(sanitized(lists[k].values@[t].description@), 64)
}

/// The name of value `t` (0-based) of dimension `k`.
pub open spec fn spec_list_name(lists: Seq<crate::model::ValueList>, k: int, t: int) -> Seq<char> {
    list_case_name(
        lists[k].arg@,
        (t + 1) as nat,
        decimal_digits(lists[k].values@.len() as nat).len(),
        spec_list_desc(lists, k, t),
    )
}

/// A resolver function extended in front by one explicit (parameter →
/// expression) binding: the value of one matrix dimension.
pub open spec fn ext_resolve(
    arg: Seq<char>,
    expr: Seq<char>,
    outer: spec_fn(Seq<char>) -> Option<Seq<char>>,
) -> spec_fn(Seq<char>) -> Option<Seq<char>> {
    |n: Seq<char>|
        if n == arg {
            Some(expr)
        } else {
            outer(n)
        }
}

/// The rendering context a matrix expansion threads through its levels: the
/// template, the per-case base attributes, the resolver chain built so far,
/// the fixture defaults, the trace flag, the case metadata, the
/// configuration, and the `allow` attribute stamped onto every leaf.
pub struct MatrixEnv {
    pub test: Template,
    pub base_attrs: Seq<Attr>,
    pub explicit: spec_fn(Seq<char>) -> Option<Seq<char>>,
    pub fixtures: spec_fn(Seq<char>) -> Option<Seq<char>>,
    pub global_trace: bool,
    pub ci: Option<CaseInfo>,
    pub cfg: Config,
    pub allow: Attr,
}

/// The shape of a cartesian-product expansion: `items` are the sub-trees for
/// the values of dimension `k` from index `t` on. The last dimension renders
/// one case per value against the resolver chain extended by that value;
/// every earlier dimension wraps the expansion of the remaining ones in one
/// named namespace per value.
pub open spec fn matrix_shape(
    items: Seq<CaseTree>,
    lists: Seq<crate::model::ValueList>,
    k: int,
    t: int,
    env: MatrixEnv,
) -> bool
    decreases lists.len() - k, items.len(),
{
    if k < 0 || k >= lists.len() {
        items.len() == 0
    } else if items.len() == 0 {
        t == lists[k].values@.len()
    } else {
        let ex = ext_resolve(lists[k].arg@, lists[k].values@[t].expr@, env.explicit);
        &&& 0 <= t < lists[k].values@.len()
        &&& (if k == lists.len() - 1 {
            items[0] matches CaseTree::Leaf(rc) && rc.name@ == spec_list_name(lists, k, t)
                && rendered_case_spec(
                rc,
                spec_list_name(lists, k, t),
                env.test.name@,
                env.test.params@,
                env.test.attrs@ + env.base_attrs + seq![env.allow],
                env.test.ret,
                env.test.is_async,
                None::<String>,
                ex,
                env.fixtures,
                env.global_trace,
                env.test.lifetimes@,
                env.ci,
                env.cfg,
            )
        } else {
            items[0] matches CaseTree::Module { name, allow_non_snake, items: sub }
                && name@ == spec_list_name(lists, k, t) && allow_non_snake && matrix_shape(
                sub@,
                lists,
                k + 1,
                0,
                MatrixEnv { explicit: ex, ..env },
            )
        })
        &&& matrix_shape(items.drop_first(), lists, k, t + 1, env)
    }
}

/// Expands dimensions `k..` of a value-list matrix, from value index `t` of
/// dimension `k` on. Each value of the last remaining dimension renders one
/// case against the combined resolver; each value of an earlier dimension
/// produces a nested namespace holding the expansion over the rest.
#[verifier::loop_isolation(false)]
pub fn matrix_level(
    test: &Template,
    info: &TestInfo,
    k: usize,
    t: usize,
    base_attrs: &Vec<Attr>,
    explicit: &Resolver,
    fixtures: &Resolver,
    case_info: &Option<CaseInfo>,
    cfg: &Config,
    allow: &Attr,
) -> (r: Vec<CaseTree>)
    requires
        k < info.lists@.len(),
        t <= info.lists@[k as int].values@.len(),
    ensures
        matrix_shape(
            r@,
            info.lists@,
            k as int,
            t as int,
            MatrixEnv {
                test: *test,
                base_attrs: base_attrs@,
                explicit: resolve_fn(*explicit),
                fixtures: resolve_fn(*fixtures),
                global_trace: info.global_trace,
                ci: *case_info,
                cfg: *cfg,
                allow: *allow,
            },
        ),
    decreases info.lists@.len() - k, info.lists@[k as int].values@.len() - t,
{
    let ghost env = MatrixEnv {
        test: *test,
        base_attrs: base_attrs@,
        explicit: resolve_fn(*explicit),
        fixtures: resolve_fn(*fixtures),
        global_trace: info.global_trace,
        ci: *case_info,
        cfg: *cfg,
        allow: *allow,
    };
    let lists = &info.lists;
    let n = lists[k].values.len();
    if t == n {
        let r: Vec<CaseTree> = Vec::new();
        return r;
    }
    let ghost ex = ext_resolve(
        lists@[k as int].arg@,
        lists@[k as int].values@[t as int].expr@,
        env.explicit,
    );
    let w = display_len(n);
    let desc_raw = sanitize_ident(lists[k].values[t].description.as_str());
    let desc = truncate_chars(desc_raw.as_str(), 64);
    let nm = format_list_case_name(lists[k].arg.as_str(), t + 1, w, desc.as_str());
    let mut row: Vec<ArgValue> = Vec::new();
    row.push(
        ArgValue { name: lists[k].arg.clone(), expr: lists[k].values[t].expr.clone() },
    );
    let ghost row0 = row@;
    let tbl = Resolver::Table(row);
    let ghost tbl0 = tbl;
    let dup = explicit.duplicate();
    let ghost dup0 = dup;
    let this_explicit = Resolver::Pair(Box::new(tbl), Box::new(dup));
    proof {
        assert(row0.len() == 1);
        assert(row0[0].name == lists@[k as int].arg);
        assert(row0[0].expr == lists@[k as int].values@[t as int].expr);
        assert(row0.drop_first() =~= Seq::<ArgValue>::empty());
        assert(this_explicit == Resolver::Pair(Box::new(tbl0), Box::new(dup0)));
        assert forall|nm2: Seq<char>| #[trigger] spec_resolve(this_explicit, nm2) == ex(nm2) by {
            assert(spec_resolve(tbl0, nm2) == spec_table_lookup(row0, nm2));
            if nm2 == lists@[k as int].arg@ {
                assert(spec_table_lookup(row0, nm2) == Some(
                    lists@[k as int].values@[t as int].expr@,
                ));
            } else {
                assert(spec_table_lookup(row0, nm2) == spec_table_lookup(
                    row0.drop_first(),
                    nm2,
                ));
                assert(spec_table_lookup(row0, nm2) is None);
                assert(spec_resolve(dup0, nm2) == spec_resolve(*explicit, nm2));
                assert(ex(nm2) == resolve_fn(*explicit)(nm2));
                assert(resolve_fn(*explicit)(nm2) == spec_resolve(*explicit, nm2));
            }
        }
        assert(resolve_fn(this_explicit) =~= ex);
    }
    let head: CaseTree = if k == lists.len() - 1 {
        let mut leaf_attrs = dup_attrs(&test.attrs);
        let mut extra = dup_attrs(base_attrs);
        leaf_attrs.append(&mut extra);
        leaf_attrs.push(allow.duplicate());
        proof {
            assert(leaf_attrs@ =~= test.attrs@ + base_attrs@ + seq![*allow]);
        }
        let rc = single_test_case(
            nm.as_str(),
            test.name.as_str(),
            &test.params,
            leaf_attrs,
            &test.ret,
            test.is_async,
            None,
            &this_explicit,
            fixtures,
            info.global_trace,
            &test.lifetimes,
            case_info,
            cfg,
        );
        CaseTree::Leaf(rc)
    } else {
        let sub = matrix_level(
            test,
            info,
            k + 1,
            0,
            base_attrs,
            &this_explicit,
            fixtures,
            case_info,
            cfg,
            allow,
        );
        proof {
            assert(MatrixEnv {
                test: *test,
                base_attrs: base_attrs@,
                explicit: resolve_fn(this_explicit),
                fixtures: resolve_fn(*fixtures),
                global_trace: info.global_trace,
                ci: *case_info,
                cfg: *cfg,
                allow: *allow,
            } == MatrixEnv { explicit: ex, ..env });
        }
        CaseTree::Module { name: nm, allow_non_snake: true, items: sub }
    };
    let ghost head0 = head;
    let mut r: Vec<CaseTree> = Vec::new();
    r.push(head);
    let mut rest = matrix_level(
        test,
        info,
        k,
        t + 1,
        base_attrs,
        explicit,
        fixtures,
        case_info,
        cfg,
        allow,
    );
    let ghost rest0 = rest@;
    r.append(&mut rest);
    proof {
        assert(r@[0] == head0);
        assert(r@.drop_first() =~= rest0);
        assert(matrix_shape(r@.drop_first(), info.lists@, k as int, t as int + 1, env));
    }
    r
}

/// The fixture-default source of one expansion, lowest precedence.
pub fn fixtures_resolver(info: &TestInfo) -> (r: Resolver)
    ensures
        forall|n: Seq<char>| spec_resolve(r, n) == spec_table_lookup(info.fixtures@, n),
{
    let mut v: Vec<ArgValue> = Vec::new();
    let mut i: usize = 0;
    while i < info.fixtures.len()
        invariant
            i <= info.fixtures@.len(),
            v@ == info.fixtures@.take(i as int),
        decreases info.fixtures@.len() - i,
    {
        v.push(
            ArgValue {
                name: info.fixtures[i].name.clone(),
                expr: info.fixtures[i].expr.clone(),
            },
        );
        i = i + 1;
        proof {
            assert(v@ =~= info.fixtures@.take(i as int));
        }
    }
    proof {
        assert(info.fixtures@.take(info.fixtures@.len() as int) =~= info.fixtures@);
    }
    Resolver::Table(v)
}

/// The text of the whole group: the template itself, gated to test builds,
/// then an enclosing namespace named after it, holding the rendered cases
/// and an import bringing the outer scope's names into view.
pub open spec fn spec_group_text(t: Template, inner: Seq<char>) -> Seq<char> {
    "#[cfg(test)]\n"@ + spec_emit_template(t) + "\n#[cfg(test)]\nmod "@ + t.name@
        + " {\nuse super::*;\n\n"@ + inner + "}\n"@
}

/// Wraps the attribute-stripped template and the rendered cases into one
/// enclosing namespace so case names cannot collide with the outer scope.
pub fn test_group(test: &Template, inner: &str) -> (r: String)
    ensures
        r@ == spec_group_text(*test, inner@),
{
    let mut r = String::from_str("#[cfg(test)]\n");
    let t = emit_template(test);
    r.append(t.as_str());
    r.append("\n#[cfg(test)]\nmod ");
    r.append(test.name.as_str());
    r.append(" {\nuse super::*;\n\n");
    r.append(inner);
    r.append("}\n");
    proof {
        assert(r@ =~= spec_group_text(*test, inner@));
    }
    r
}

/// What the single-case shape guarantees: the one rendered case carries the
/// template's own name, embeds the template, and resolves only through the
/// fixture defaults.
pub open spec fn single_case_ok(rc: RenderedCase, test: Template, info: TestInfo, cfg: Config) -> bool {
    &&& rc.embedded matches Some(e) && e@ == spec_emit_template(test)
    &&& rendered_case_spec(
        rc,
        test.name@,
        test.name@,
        test.params@,
        test.attrs@,
        test.ret,
        test.is_async,
        rc.embedded,
        |n: Seq<char>| None::<Seq<char>>,
        |n: Seq<char>| spec_table_lookup(info.fixtures@, n),
        info.global_trace,
        test.lifetimes@,
        None::<CaseInfo>,
        cfg,
    )
}

/// Renders the unparameterized single-case shape: one test named after the
/// template, embedding the template itself, with every parameter resolved
/// through the fixture defaults.
pub fn single(test: &Template, info: &TestInfo, cfg: &Config) -> (r: (RenderedCase, String))
    ensures
        single_case_ok(r.0, *test, *info, *cfg),
        r.1@ == spec_emit_case(r.0),
{
    let fixtures = fixtures_resolver(info);
    let empty = Resolver::empty();
    let embedded = emit_template(test);
    let attrs = dup_attrs(&test.attrs);
    let rc = single_test_case(
        test.name.as_str(),
        test.name.as_str(),
        &test.params,
        attrs,
        &test.ret,
        test.is_async,
        Some(embedded),
        &empty,
        &fixtures,
        info.global_trace,
        &test.lifetimes,
        &None,
        cfg,
    );
    proof {
        assert(resolve_fn(empty) =~= (|n: Seq<char>| None::<Seq<char>>));
        assert(resolve_fn(fixtures) =~= (|n: Seq<char>| spec_table_lookup(info.fixtures@, n)));
    }
    let text = emit_case(&rc);
    (rc, text)
}

/// What explicit-case expansion guarantees of rendered entry `i`.
pub open spec fn parametrized_case_ok(
    item: CaseTree,
    test: Template,
    info: TestInfo,
    cfg: Config,
    i: int,
) -> bool {
    let c = info.cases@[i];
    &&& item matches CaseTree::Leaf(rc) && rendered_case_spec(
        rc,
        case_name(
            (i + 1) as nat,
            decimal_digits(info.cases@.len() as nat).len(),
            opt_view(c.description),
        ),
        test.name@,
        test.params@,
        test.attrs@ + c.attrs@,
        test.ret,
        test.is_async,
        None::<String>,
        |n: Seq<char>| spec_table_lookup(spec_case_table(info.case_args@, c.args@), n),
        |n: Seq<char>| spec_table_lookup(info.fixtures@, n),
        info.global_trace,
        test.lifetimes@,
        Some(CaseInfo { description: c.description, pos: i as usize }),
        cfg,
    )
}

/// Expands an explicit case list: one rendered case per declared case, in
/// declaration order, wrapped with the template into its enclosing group.
pub fn parametrize(test: &Template, info: &TestInfo, cfg: &Config) -> (r: (Vec<CaseTree>, String))
    ensures
        r.0@.len() == info.cases@.len(),
        forall|i: int|
            0 <= i < r.0@.len() ==> parametrized_case_ok(#[trigger] r.0@[i], *test, *info, *cfg, i),
        r.1@ == spec_group_text(*test, spec_emit_items(r.0@)),
{
    let fixtures = fixtures_resolver(info);
    let cds = cases_data(info);
    let mut items: Vec<CaseTree> = Vec::new();
    let mut i: usize = 0;
    while i < cds.len()
        invariant
            i <= cds@.len(),
            items@.len() == i,
            cds@.len() == info.cases@.len(),
            forall|j: int| 0 <= j < cds@.len() ==> case_data_ok(#[trigger] cds@[j], *info, j),
            forall|n: Seq<char>|
                spec_resolve(fixtures, n) == spec_table_lookup(info.fixtures@, n),
            forall|j: int|
                0 <= j < i ==> parametrized_case_ok(#[trigger] items@[j], *test, *info, *cfg, j),
        decreases cds@.len() - i,
    {
        let cd = &cds[i];
        let mut attrs = dup_attrs(&test.attrs);
        let mut extra = dup_attrs(&cd.attrs);
        attrs.append(&mut extra);
        let rc = single_test_case(
            cd.name.as_str(),
            test.name.as_str(),
            &test.params,
            attrs,
            &test.ret,
            test.is_async,
            None,
            &cd.resolver,
            &fixtures,
            info.global_trace,
            &test.lifetimes,
            &cd.info,
            cfg,
        );
        proof {
            let c = info.cases@[i as int];
            assert(resolve_fn(cds@[i as int].resolver) =~= (|n: Seq<char>|
                spec_table_lookup(spec_case_table(info.case_args@, c.args@), n)));
            assert(resolve_fn(fixtures) =~= (|n: Seq<char>|
                spec_table_lookup(info.fixtures@, n)));
            assert(cds@[i as int].info matches Some(ci) && ci == CaseInfo {
                description: c.description,
                pos: i,
            });
        }
        items.push(CaseTree::Leaf(rc));
        i = i + 1;
    }
    let inner = emit_items(&items);
    let text = test_group(test, inner.as_str());
    (items, text)
}

/// The leaf attribute marking generated names as exempt from the snake-case
/// lint, since value descriptions may carry upper-case letters.
fn non_snake_case_attr() -> (a: Attr)
    ensures
        a.path@ == "allow"@,
        a.args matches AttrArgs::Paren(s) && s@ == "non_snake_case"@,
{
    Attr {
        path: String::from_str("allow"),
        args: AttrArgs::Paren(String::from_str("non_snake_case")),
    }
}

/// The matrix rendering context of one explicit case: its row bindings take
/// precedence over everything but the dimension values nested inside.
pub open spec fn case_matrix_env(
    test: Template,
    info: TestInfo,
    cfg: Config,
    allow: Attr,
    i: int,
) -> MatrixEnv {
    let c = info.cases@[i];
    MatrixEnv {
        test: test,
        base_attrs: c.attrs@,
        explicit: |n: Seq<char>| spec_table_lookup(spec_case_table(info.case_args@, c.args@), n),
        fixtures: |n: Seq<char>| spec_table_lookup(info.fixtures@, n),
        global_trace: info.global_trace,
        ci: Some(CaseInfo { description: c.description, pos: i as usize }),
        cfg: cfg,
        allow: allow,
    }
}

/// What matrix expansion guarantees when explicit cases are present: one
/// namespace per case, holding that case's full matrix expansion.
pub open spec fn matrix_case_module_ok(
    item: CaseTree,
    test: Template,
    info: TestInfo,
    cfg: Config,
    allow: Attr,
    i: int,
) -> bool {
    let c = info.cases@[i];
    &&& item matches CaseTree::Module { name, allow_non_snake, items: sub } && name@ == case_name(
        (i + 1) as nat,
        decimal_digits(info.cases@.len() as nat).len(),
        opt_view(c.description),
    ) && !allow_non_snake && (info.lists@.len() > 0 ==> matrix_shape(
        sub@,
        info.lists@,
        0,
        0,
        case_matrix_env(test, info, cfg, allow, i),
    )) && (info.lists@.len() == 0 ==> sub@.len() == 0)
}

/// What one matrix expansion produced, relative to the `allow` attribute
/// value stamped onto its leaves.
pub open spec fn matrix_output_ok(
    items: Seq<CaseTree>,
    test: Template,
    info: TestInfo,
    cfg: Config,
    allow: Attr,
) -> bool {
    &&& allow.path@ == "allow"@
    &&& allow.args matches AttrArgs::Paren(s) && s@ == "non_snake_case"@
    &&& (info.cases@.len() == 0 && info.lists@.len() > 0 ==> matrix_shape(
        items,
        info.lists@,
        0,
        0,
        MatrixEnv {
            test: test,
            base_attrs: Seq::<Attr>::empty(),
            explicit: |n: Seq<char>| None::<Seq<char>>,
            fixtures: |n: Seq<char>| spec_table_lookup(info.fixtures@, n),
            global_trace: info.global_trace,
            ci: None::<CaseInfo>,
            cfg: cfg,
            allow: allow,
        },
    ))
    &&& (info.cases@.len() == 0 && info.lists@.len() == 0 ==> items.len() == 0)
    &&& (info.cases@.len() > 0 ==> items.len() == info.cases@.len() && (forall|i: int|
        0 <= i < items.len() ==> matrix_case_module_ok(
            #[trigger] items[i],
            test,
            info,
            cfg,
            allow,
            i,
        )))
}

/// What one matrix expansion produced: the output relative to some leaf
/// `allow` attribute value.
pub open spec fn matrix_ok(items: Seq<CaseTree>, test: Template, info: TestInfo, cfg: Config) -> bool {
    exists|allow: Attr| matrix_output_ok(items, test, info, cfg, allow)
}

/// Expands a value-list matrix: without explicit cases one cartesian
/// product; with them, the product once per case, nested under that case's
/// namespace, so the total case count multiplies.
pub fn matrix(test: &Template, info: &TestInfo, cfg: &Config) -> (r: (Vec<CaseTree>, String))
    ensures
        matrix_ok(r.0@, *test, *info, *cfg),
        r.1@ == spec_group_text(*test, spec_emit_items(r.0@)),
{
    let fixtures = fixtures_resolver(info);
    let no_attrs: Vec<Attr> = Vec::new();
    let allow = non_snake_case_attr();
    let mut items: Vec<CaseTree> = Vec::new();
    if info.cases.len() == 0 {
        if info.lists.len() > 0 {
            let empty = Resolver::empty();
            items = matrix_level(test, info, 0, 0, &no_attrs, &empty, &fixtures, &None, cfg, &allow);
            proof {
                assert(resolve_fn(empty) =~= (|n: Seq<char>| None::<Seq<char>>));
                assert(resolve_fn(fixtures) =~= (|n: Seq<char>|
                    spec_table_lookup(info.fixtures@, n)));
                assert(no_attrs@ =~= Seq::<Attr>::empty());
            }
        }
    } else {
        let cds = cases_data(info);
        let mut i: usize = 0;
        while i < cds.len()
            invariant
                i <= cds@.len(),
                items@.len() == i,
                cds@.len() == info.cases@.len(),
                forall|j: int| 0 <= j < cds@.len() ==> case_data_ok(#[trigger] cds@[j], *info, j),
                forall|n: Seq<char>|
                    spec_resolve(fixtures, n) == spec_table_lookup(info.fixtures@, n),
                allow.path@ == "allow"@,
                allow.args matches AttrArgs::Paren(s) && s@ == "non_snake_case"@,
                forall|j: int|
                    0 <= j < i ==> matrix_case_module_ok(
                        #[trigger] items@[j],
                        *test,
                        *info,
                        *cfg,
                        allow,
                        j,
                    ),
            decreases cds@.len() - i,
        {
            let cd = &cds[i];
            let attrs = dup_attrs(&cd.attrs);
            let sub: Vec<CaseTree> = if info.lists.len() > 0 {
                matrix_level(test, info, 0, 0, &attrs, &cd.resolver, &fixtures, &cd.info, cfg, &allow)
            } else {
                Vec::new()
            };
            proof {
                let c = info.cases@[i as int];
                assert(resolve_fn(cds@[i as int].resolver) =~= (|n: Seq<char>|
                    spec_table_lookup(spec_case_table(info.case_args@, c.args@), n)));
                assert(resolve_fn(fixtures) =~= (|n: Seq<char>|
                    spec_table_lookup(info.fixtures@, n)));
                assert(cds@[i as int].info matches Some(ci) && ci == CaseInfo {
                    description: c.description,
                    pos: i,
                });
                if info.lists@.len() > 0 {
                    assert(MatrixEnv {
                        test: *test,
                        base_attrs: attrs@,
                        explicit: resolve_fn(cds@[i as int].resolver),
                        fixtures: resolve_fn(fixtures),
                        global_trace: info.global_trace,
                        ci: cds@[i as int].info,
                        cfg: *cfg,
                        allow: allow,
                    } == case_matrix_env(*test, *info, *cfg, allow, i as int));
                }
            }
            let nm = cd.name.clone();
            items.push(CaseTree::Module { name: nm, allow_non_snake: false, items: sub });
            i = i + 1;
        }
    }
    proof {
        assert(matrix_output_ok(items@, *test, *info, *cfg, allow));
        assert(matrix_ok(items@, *test, *info, *cfg));
    }
    let inner = emit_items(&items);
    let text = test_group(test, inner.as_str());
    (items, text)
}

} // verus!
