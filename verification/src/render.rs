//! The single-case renderer: one resolved parameter set plus the template
//! signature becomes one concrete, independently invocable test definition,
//! with tracing, timeout, async call shape and attribute passthrough applied
//! uniformly.

use vstd::prelude::*;
use vstd::string::StringExecFns;
use crate::model::{
    attr_ends_with, attr_is, dup_opt_string, dup_strings, opt_view, spec_attr_ends_with,
    spec_attr_is, spec_has_attr, Attr, AttrArgs, CaseInfo, Config, Param,
};
use crate::names::{decimal_chars, decimal_digits, chars_to_string};
use crate::resolver::{spec_resolve, Resolver};
use crate::text::{join, spec_join, views_of};

verus! {

/// The attribute list with every attribute named `name` removed.
pub open spec fn attrs_without(attrs: Seq<Attr>, name: Seq<char>) -> Seq<Attr>
    decreases attrs.len(),
{
    if attrs.len() == 0 {
        Seq::empty()
    } else if spec_attr_is(attrs[0], name) {
        attrs_without(attrs.drop_first(), name)
    } else {
        seq![attrs[0]] + attrs_without(attrs.drop_first(), name)
    }
}

/// The first attribute named `name`, if any.
pub open spec fn spec_first_attr_named(attrs: Seq<Attr>, name: Seq<char>) -> Option<Attr>
    decreases attrs.len(),
{
    if attrs.len() == 0 {
        None
    } else if spec_attr_is(attrs[0], name) {
        Some(attrs[0])
    } else {
        spec_first_attr_named(attrs.drop_first(), name)
    }
}

/// The last attribute named `name`, if any.
pub open spec fn spec_last_attr_named(attrs: Seq<Attr>, name: Seq<char>) -> Option<Attr>
    decreases attrs.len(),
{
    if attrs.len() == 0 {
        None
    } else if spec_attr_is(attrs.last(), name) {
        Some(attrs.last())
    } else {
        spec_last_attr_named(attrs.drop_last(), name)
    }
}

/// The timeout override: the parenthesised expression of the last `timeout`
/// attribute. A `timeout` marker written without a parenthesised argument
/// carries no expression and yields none.
pub open spec fn spec_timeout_expr(attrs: Seq<Attr>) -> Option<Seq<char>> {
    match spec_last_attr_named(attrs, "timeout"@) {
        Some(a) => match a.args {
            AttrArgs::Paren(s) => Some(s@),
            _ => None,
        },
        None => None,
    }
}

/// Some attribute's path already ends in `test`: a test-entry marker is
/// present and none must be injected.
pub open spec fn spec_has_test_marker(attrs: Seq<Attr>) -> bool {
    exists|i: int| 0 <= i < attrs.len() && spec_attr_ends_with(attrs[i], "test"@)
}

/// How the test-entry marker of one case was resolved.
pub enum TestAttrOutcome {
    /// The user supplied `#[test_attr(<attr>)]`; its tokens go on verbatim.
    Explicit(String),
    /// `test_attr` was written in another form; a compile error is emitted.
    MalformedExplicit,
    /// An attribute ending in `test` is already there; nothing is injected.
    AlreadyPresent,
    /// The framework's default synchronous marker `#[test]` is injected.
    DefaultTest,
    /// An asynchronous case without any marker; a compile error is emitted.
    MissingAsyncMarker,
}

/// Resolution of the test-entry marker: an explicit `test_attr` override
/// wins (malformed syntax is a compile error); an existing attribute ending
/// in `test` suppresses injection; otherwise a synchronous case gets the
/// default marker and an asynchronous case is a compile error.
pub open spec fn spec_test_attr_outcome(is_async: bool, attrs: Seq<Attr>) -> TestAttrOutcome {
    match spec_first_attr_named(attrs, "test_attr"@) {
        Some(a) => match a.args {
            AttrArgs::Paren(s) => TestAttrOutcome::Explicit(s),
            _ => TestAttrOutcome::MalformedExplicit,
        },
        None => if spec_has_test_marker(attrs) {
            TestAttrOutcome::AlreadyPresent
        } else if !is_async {
            TestAttrOutcome::DefaultTest
        } else {
            TestAttrOutcome::MissingAsyncMarker
        },
    }
}

/// Removes every attribute named `name`, keeping the rest in order.
pub fn remove_attrs(attrs: Vec<Attr>, name: &str) -> (r: Vec<Attr>)
    ensures
        r@ == attrs_without(attrs@, name@),
{
    let mut r: Vec<Attr> = Vec::new();
    let mut i: usize = 0;
    proof {
        assert(attrs@.skip(0) =~= attrs@);
        assert(r@ + attrs_without(attrs@, name@) =~= attrs_without(attrs@, name@));
    }
    while i < attrs.len()
        invariant
            i <= attrs@.len(),
            r@ + attrs_without(attrs@.skip(i as int), name@) == attrs_without(attrs@, name@),
        decreases attrs@.len() - i,
    {
        proof {
            assert(attrs@.skip(i as int)[0] == attrs@[i as int]);
            assert(attrs@.skip(i as int).drop_first() =~= attrs@.skip(i as int + 1));
        }
        if !attr_is(&attrs[i], name) {
            r.push(attrs[i].duplicate());
        }
        proof {
            assert(r@ + attrs_without(attrs@.skip(i as int + 1), name@) =~= attrs_without(
                attrs@,
                name@,
            ));
        }
        i = i + 1;
    }
    proof {
        assert(attrs@.skip(attrs@.len() as int) =~= Seq::<Attr>::empty());
        assert(r@ + attrs_without(attrs@.skip(attrs@.len() as int), name@) =~= r@);
    }
    r
}

/// Whether any attribute is the bare marker `name`.
pub fn has_attr(attrs: &Vec<Attr>, name: &str) -> (b: bool)
    ensures
        b == spec_has_attr(attrs@, name@),
{
    let mut i: usize = 0;
    while i < attrs.len()
        invariant
            i <= attrs@.len(),
            forall|j: int| 0 <= j < i ==> !spec_attr_is(attrs@[j], name@),
        decreases attrs@.len() - i,
    {
        if attr_is(&attrs[i], name) {
            return true;
        }
        i = i + 1;
    }
    false
}

/// The timeout override expression of the last `timeout` attribute, if any.
pub fn find_last_timeout(attrs: &Vec<Attr>) -> (r: Option<String>)
    ensures
        match r {
            Some(s) => spec_timeout_expr(attrs@) == Some(s@),
            None => spec_timeout_expr(attrs@) is None,
        },
{
    let mut j: usize = attrs.len();
    proof {
        assert(attrs@.take(attrs@.len() as int) =~= attrs@);
    }
    while j > 0
        invariant
            j <= attrs@.len(),
            spec_last_attr_named(attrs@.take(j as int), "timeout"@) == spec_last_attr_named(
                attrs@,
                "timeout"@,
            ),
        decreases j,
    {
        proof {
            assert(attrs@.take(j as int).last() == attrs@[j as int - 1]);
            assert(attrs@.take(j as int).drop_last() =~= attrs@.take(j as int - 1));
        }
        if attr_is(&attrs[j - 1], "timeout") {
            match &attrs[j - 1].args {
                AttrArgs::Paren(s) => {
                    return Some(s.clone());
                },
                _ => {
                    return None;
                },
            }
        }
        j = j - 1;
    }
    proof {
        assert(attrs@.take(0) =~= Seq::<Attr>::empty());
    }
    None
}

/// Resolves the test-entry marker for one case.
pub fn resolve_test_attr(is_async: bool, attrs: &Vec<Attr>) -> (r: TestAttrOutcome)
    ensures
        r == spec_test_attr_outcome(is_async, attrs@),
{
    let mut i: usize = 0;
    proof {
        assert(attrs@.skip(0) =~= attrs@);
    }
    while i < attrs.len()
        invariant
            i <= attrs@.len(),
            spec_first_attr_named(attrs@.skip(i as int), "test_attr"@) == spec_first_attr_named(
                attrs@,
                "test_attr"@,
            ),
        decreases attrs@.len() - i,
    {
        proof {
            assert(attrs@.skip(i as int)[0] == attrs@[i as int]);
            assert(attrs@.skip(i as int).drop_first() =~= attrs@.skip(i as int + 1));
        }
        if attr_is(&attrs[i], "test_attr") {
            match &attrs[i].args {
                AttrArgs::Paren(s) => {
                    return TestAttrOutcome::Explicit(s.clone());
                },
                _ => {
                    return TestAttrOutcome::MalformedExplicit;
                },
            }
        }
        i = i + 1;
    }
    proof {
        assert(attrs@.skip(attrs@.len() as int) =~= Seq::<Attr>::empty());
    }
    let mut k: usize = 0;
    while k < attrs.len()
        invariant
            k <= attrs@.len(),
            spec_first_attr_named(attrs@, "test_attr"@) is None,
            forall|j: int| 0 <= j < k ==> !spec_attr_ends_with(attrs@[j], "test"@),
        decreases attrs@.len() - k,
    {
        if attr_ends_with(&attrs[k], "test") {
            return TestAttrOutcome::AlreadyPresent;
        }
        k = k + 1;
    }
    if !is_async {
        TestAttrOutcome::DefaultTest
    } else {
        TestAttrOutcome::MissingAsyncMarker
    }
}

/// The tokens `Some("d")` or `None` for an optional description.
pub open spec fn spec_opt_str_tokens(d: Option<Seq<char>>) -> Seq<char> {
    match d {
        Some(s) => "Some(\""@ + s + "\")"@,
        None => "None"@,
    }
}

/// The tokens `Some(n)` or `None` for an optional ordinal.
pub open spec fn spec_opt_pos_tokens(p: Option<nat>) -> Seq<char> {
    match p {
        Some(n) => "Some("@ + decimal_digits(n) + ")"@,
        None => "None"@,
    }
}

/// The synthesized value expression for a context-requesting parameter: the
/// module path, the name of the function under test, the optional case
/// description and the optional ordinal position.
pub open spec fn spec_context_expr(
    testfn: Seq<char>,
    d: Option<Seq<char>>,
    p: Option<nat>,
) -> Seq<char> {
    "Context::new(module_path!(), \""@ + testfn + "\", "@ + spec_opt_str_tokens(d) + ", "@
        + spec_opt_pos_tokens(p) + ")"@
}

/// The description carried by optional case metadata.
pub open spec fn spec_ci_desc(ci: Option<CaseInfo>) -> Option<Seq<char>> {
    match ci {
        Some(c) => opt_view(c.description),
        None => None,
    }
}

/// The ordinal carried by optional case metadata.
pub open spec fn spec_ci_pos(ci: Option<CaseInfo>) -> Option<nat> {
    match ci {
        Some(c) => Some(c.pos as nat),
        None => None,
    }
}

/// Builds the synthesized context value expression for one case.
pub fn build_context_expr(testfn_name: &str, case_info: &Option<CaseInfo>) -> (r: String)
    ensures
        r@ == spec_context_expr(
            testfn_name@,
            spec_ci_desc(*case_info),
            spec_ci_pos(*case_info),
        ),
{
    let mut r = String::from_str("Context::new(module_path!(), \"");
    r.append(testfn_name);
    r.append("\", ");
    match case_info {
        Some(ci) => match &ci.description {
            Some(d) => {
                r.append("Some(\"");
                r.append(d.as_str());
                r.append("\")");
            },
            None => {
                r.append("None");
            },
        },
        None => {
            r.append("None");
        },
    }
    r.append(", ");
    match case_info {
        Some(ci) => {
            r.append("Some(");
            let digits = decimal_chars(ci.pos);
            let ds = chars_to_string(&digits);
            r.append(ds.as_str());
            r.append(")");
        },
        None => {
            r.append("None");
        },
    }
    r.append(")");
    proof {
        assert(r@ =~= spec_context_expr(
            testfn_name@,
            spec_ci_desc(*case_info),
            spec_ci_pos(*case_info),
        ));
    }
    r
}

/// The value a non-ignored parameter resolves to: an explicit binding wins;
/// a context-requesting parameter then gets the synthesized context value;
/// a fixture default comes last.
pub open spec fn spec_resolved_value(
    p: Param,
    explicit: spec_fn(Seq<char>) -> Option<Seq<char>>,
    fixtures: spec_fn(Seq<char>) -> Option<Seq<char>>,
    testfn: Seq<char>,
    d: Option<Seq<char>>,
    pos: Option<nat>,
) -> Option<Seq<char>> {
    match explicit(p.name@) {
        Some(v) => Some(v),
        None => if p.is_context {
            Some(spec_context_expr(testfn, d, pos))
        } else {
            fixtures(p.name@)
        },
    }
}

/// The lookup function a resolver value denotes.
pub open spec fn resolve_fn(r: Resolver) -> spec_fn(Seq<char>) -> Option<Seq<char>> {
    |n: Seq<char>| spec_resolve(r, n)
}

/// One parameter's place in a rendered case.
pub enum CaseBinding {
    /// Ignored: kept as an unresolved formal parameter.
    Formal,
    /// Resolved: a local `let name = expr;` binding.
    Bound { name: String, expr: String },
    /// Unresolvable: a compile-time diagnostic naming the parameter.
    Unresolved { name: String },
}

/// The binding a rendered case holds for parameter `p`.
pub open spec fn spec_binding_ok(
    b: CaseBinding,
    p: Param,
    explicit: spec_fn(Seq<char>) -> Option<Seq<char>>,
    fixtures: spec_fn(Seq<char>) -> Option<Seq<char>>,
    testfn: Seq<char>,
    d: Option<Seq<char>>,
    pos: Option<nat>,
) -> bool {
    match b {
        CaseBinding::Formal => p.ignored,
        CaseBinding::Bound { name, expr } => !p.ignored && name@ == p.name@ && Some(expr@)
            == spec_resolved_value(p, explicit, fixtures, testfn, d, pos),
        CaseBinding::Unresolved { name } => !p.ignored && name@ == p.name@ && spec_resolved_value(
            p,
            explicit,
            fixtures,
            testfn,
            d,
            pos,
        ) is None,
    }
}

/// The ignored parameters, in declaration order.
pub open spec fn spec_ignored_params(params: Seq<Param>) -> Seq<Param>
    decreases params.len(),
{
    if params.len() == 0 {
        Seq::empty()
    } else if params[0].ignored {
        seq![params[0]] + spec_ignored_params(params.drop_first())
    } else {
        spec_ignored_params(params.drop_first())
    }
}

/// The diagnostic print statement for one traced parameter.
pub open spec fn spec_trace_stmt(name: Seq<char>) -> Seq<char> {
    "println!(\"{} = {:?}\", stringify!("@ + name + "), "@ + name + ");"@
}

/// One print statement per traced parameter, in declaration order.
pub open spec fn spec_trace_stmts(params: Seq<Param>) -> Seq<Seq<char>>
    decreases params.len(),
{
    if params.len() == 0 {
        Seq::empty()
    } else if params[0].traced {
        seq![spec_trace_stmt(params[0].name@)] + spec_trace_stmts(params.drop_first())
    } else {
        spec_trace_stmts(params.drop_first())
    }
}

/// The argument the call passes for one parameter: the identifier, behind a
/// reference for a by-reference parameter.
pub open spec fn spec_call_args(params: Seq<Param>) -> Seq<Seq<char>> {
    Seq::new(
        params.len(),
        |i: int|
            if params[i].by_ref {
                seq!['&'] + params[i].name@
            } else {
                params[i].name@
            },
    )
}

/// The plain call expression to the target function.
pub open spec fn spec_plain_call(testfn: Seq<char>, args: Seq<Seq<char>>) -> Seq<char> {
    testfn + "("@ + spec_join(args, ", "@) + ")"@
}

/// The call with the asynchronous suspension applied when the template is
/// asynchronous.
pub open spec fn spec_exec_call(testfn: Seq<char>, args: Seq<Seq<char>>, is_async: bool) -> Seq<
    char,
> {
    if is_async {
        spec_plain_call(testfn, args) + ".await"@
    } else {
        spec_plain_call(testfn, args)
    }
}

/// The timeout that applies: the explicit expression when present, else the
/// process-wide override parsed from the injected environment value as whole
/// seconds (an unparsable value aborts the generated case at run time).
pub open spec fn spec_effective_timeout(
    to: Option<Seq<char>>,
    env: Option<Seq<char>>,
) -> Option<Seq<char>> {
    match to {
        Some(t) => Some(t),
        None => match env {
            Some(e) => Some("core::time::Duration::from_secs((\""@ + e + "\").parse().unwrap())"@),
            None => None,
        },
    }
}

/// The wrapped call: without a timeout a direct (possibly awaited) call;
/// with one, the framework's blocking or asynchronous enforcement helper,
/// which surfaces a timeout as a distinguishable failure.
pub open spec fn spec_test_call(
    testfn: Seq<char>,
    args: Seq<Seq<char>>,
    to: Option<Seq<char>>,
    is_async: bool,
    env: Option<Seq<char>>,
    crate_path: Seq<char>,
) -> Seq<char> {
    match spec_effective_timeout(to, env) {
        Some(t) => if is_async {
            "use "@ + crate_path + "::timeout::*;\n"@ + "execute_with_timeout_async(move || "@
                + spec_plain_call(testfn, args) + ", "@ + t + ").await"@
        } else {
            "use "@ + crate_path + "::timeout::*;\n"@ + "execute_with_timeout_sync(move || "@
                + spec_plain_call(testfn, args) + ", "@ + t + ")"@
        },
        None => spec_exec_call(testfn, args, is_async),
    }
}

/// The direct call expression, awaited when asynchronous.
pub fn render_exec_call(testfn_name: &str, args: &Vec<String>, is_async: bool) -> (r: String)
    ensures
        r@ == spec_exec_call(testfn_name@, views_of(args@), is_async),
{
    let mut r = String::from_str(testfn_name);
    r.append("(");
    let j = join(args, ", ");
    r.append(j.as_str());
    r.append(")");
    if is_async {
        r.append(".await");
    }
    proof {
        assert(r@ =~= spec_exec_call(testfn_name@, views_of(args@), is_async));
    }
    r
}

/// The wrapped call for one case, applying the explicit timeout or the
/// injected process-wide override.
pub fn render_test_call(
    testfn_name: &str,
    args: &Vec<String>,
    timeout: &Option<String>,
    is_async: bool,
    cfg: &Config,
) -> (r: String)
    ensures
        r@ == spec_test_call(
            testfn_name@,
            views_of(args@),
            opt_view(*timeout),
            is_async,
            opt_view(cfg.env_timeout),
            cfg.crate_path@,
        ),
{
    let to: Option<String> = match timeout {
        Some(t) => Some(t.clone()),
        None => match &cfg.env_timeout {
            Some(e) => {
                let mut x = String::from_str("core::time::Duration::from_secs((\"");
                x.append(e.as_str());
                x.append("\").parse().unwrap())");
                proof {
                    assert(x@ =~= spec_effective_timeout(
                        opt_view(*timeout),
                        opt_view(cfg.env_timeout),
                    )->Some_0);
                }
                Some(x)
            },
            None => None,
        },
    };
    match to {
        Some(t) => {
            let mut r = String::from_str("use ");
            r.append(cfg.crate_path.as_str());
            r.append("::timeout::*;\n");
            if is_async {
                r.append("execute_with_timeout_async(move || ");
            } else {
                r.append("execute_with_timeout_sync(move || ");
            }
            let mut call = String::from_str(testfn_name);
            call.append("(");
            let j = join(args, ", ");
            call.append(j.as_str());
            call.append(")");
            proof {
                assert(call@ =~= spec_plain_call(testfn_name@, views_of(args@)));
            }
            r.append(call.as_str());
            r.append(", ");
            r.append(t.as_str());
            if is_async {
                r.append(").await");
            } else {
                r.append(")");
            }
            proof {
                assert(r@ =~= spec_test_call(
                    testfn_name@,
                    views_of(args@),
                    opt_view(*timeout),
                    is_async,
                    opt_view(cfg.env_timeout),
                    cfg.crate_path@,
                ));
            }
            r
        },
        None => render_exec_call(testfn_name, args, is_async),
    }
}

/// One print statement for a traced parameter.
fn build_trace_stmt(name: &str) -> (r: String)
    ensures
        r@ == spec_trace_stmt(name@),
{
    let mut r = String::from_str("println!(\"{} = {:?}\", stringify!(");
    r.append(name);
    r.append("), ");
    r.append(name);
    r.append(");");
    proof {
        assert(r@ =~= spec_trace_stmt(name@));
    }
    r
}

/// One fully rendered test case, field by field in the order the generated
/// source assembles them.
pub struct RenderedCase {
    /// The unique case name.
    pub name: String,
    /// Attributes passed through unchanged.
    pub attrs: Vec<Attr>,
    /// The resolved test-entry marker.
    pub test_attr: TestAttrOutcome,
    pub is_async: bool,
    /// Declared lifetime parameters, kept on the generated function.
    pub lifetimes: Vec<String>,
    /// Ignored parameters, kept as formal parameters.
    pub ignored: Vec<Param>,
    /// The declared return type.
    pub ret: Option<String>,
    /// The embedded implementation, for the single-case shape.
    pub embedded: Option<String>,
    /// One entry per declared parameter, in order.
    pub bindings: Vec<CaseBinding>,
    /// The trace print statements, empty when tracing is off.
    pub trace_stmts: Vec<String>,
    /// The wrapped call expression.
    pub call: String,
}

/// What the renderer guarantees of one rendered case, given the inputs it
/// was rendered from.
pub open spec fn rendered_case_spec(
    r: RenderedCase,
    name: Seq<char>,
    testfn: Seq<char>,
    params: Seq<Param>,
    attrs: Seq<Attr>,
    ret: Option<String>,
    is_async: bool,
    embedded: Option<String>,
    explicit: spec_fn(Seq<char>) -> Option<Seq<char>>,
    fixtures: spec_fn(Seq<char>) -> Option<Seq<char>>,
    global_trace: bool,
    lifetimes: Seq<String>,
    ci: Option<CaseInfo>,
    cfg: Config,
) -> bool {
    let stage1 = attrs_without(attrs, "trace"@);
    let stage2 = attrs_without(stage1, "timeout"@);
    let passthrough = attrs_without(stage2, "test_attr"@);
    let trace_on = global_trace || spec_has_attr(attrs, "trace"@);
    let d = spec_ci_desc(ci);
    let pos = spec_ci_pos(ci);
    &&& r.name@ == name
    &&& r.attrs@ == passthrough
    &&& r.test_attr == spec_test_attr_outcome(is_async, stage2)
    &&& r.is_async == is_async
    &&& r.lifetimes@ == lifetimes
    &&& r.ignored@ == spec_ignored_params(params)
    &&& r.ret == ret
    &&& r.embedded == embedded
    &&& r.bindings@.len() == params.len()
    &&& (forall|i: int|
        0 <= i < params.len() ==> spec_binding_ok(
            #[trigger] r.bindings@[i],
            params[i],
            explicit,
            fixtures,
            testfn,
            d,
            pos,
        ))
    &&& views_of(r.trace_stmts@) == (if trace_on {
        spec_trace_stmts(params)
    } else {
        Seq::<Seq<char>>::empty()
    })
    &&& r.call@ == spec_test_call(
        testfn,
        spec_call_args(params),
        spec_timeout_expr(stage1),
        is_async,
        opt_view(cfg.env_timeout),
        cfg.crate_path@,
    )
}

/// Renders a single test case: resolves the test-entry marker, partitions
/// the parameters, resolves every injectable parameter through the
/// precedence chain (explicit binding, then synthesized context, then
/// fixture default), lays down the trace statements, and wraps the call
/// according to timeout and asynchrony.
pub fn single_test_case(
    name: &str,
    testfn_name: &str,
    params: &Vec<Param>,
    attrs: Vec<Attr>,
    ret: &Option<String>,
    is_async: bool,
    embedded: Option<String>,
    explicit: &Resolver,
    fixtures: &Resolver,
    global_trace: bool,
    lifetimes: &Vec<String>,
    case_info: &Option<CaseInfo>,
    cfg: &Config,
) -> (r: RenderedCase)
    ensures
        rendered_case_spec(
            r,
            name@,
            testfn_name@,
            params@,
            attrs@,
            *ret,
            is_async,
            embedded,
            resolve_fn(*explicit),
            resolve_fn(*fixtures),
            global_trace,
            lifetimes@,
            *case_info,
            *cfg,
        ),
{
    let ghost d = spec_ci_desc(*case_info);
    let ghost pos = spec_ci_pos(*case_info);

    let trace_found = has_attr(&attrs, "trace");
    let trace_on = global_trace || trace_found;
    let stage1 = remove_attrs(attrs, "trace");
    let timeout = find_last_timeout(&stage1);
    let stage2 = remove_attrs(stage1, "timeout");
    let outcome = resolve_test_attr(is_async, &stage2);
    let passthrough = remove_attrs(stage2, "test_attr");

    let mut ignored: Vec<Param> = Vec::new();
    let mut i: usize = 0;
    proof {
        assert(params@.skip(0) =~= params@);
        assert(ignored@ + spec_ignored_params(params@) =~= spec_ignored_params(params@));
    }
    while i < params.len()
        invariant
            i <= params@.len(),
            ignored@ + spec_ignored_params(params@.skip(i as int)) == spec_ignored_params(params@),
        decreases params@.len() - i,
    {
        proof {
            assert(params@.skip(i as int)[0] == params@[i as int]);
            assert(params@.skip(i as int).drop_first() =~= params@.skip(i as int + 1));
        }
        if params[i].ignored {
            ignored.push(params[i].duplicate());
        }
        proof {
            assert(ignored@ + spec_ignored_params(params@.skip(i as int + 1)) =~=
                spec_ignored_params(params@));
        }
        i = i + 1;
    }
    proof {
        assert(params@.skip(params@.len() as int) =~= Seq::<Param>::empty());
        assert(ignored@ + spec_ignored_params(params@.skip(params@.len() as int)) =~= ignored@);
    }

    let mut bindings: Vec<CaseBinding> = Vec::new();
    let mut b: usize = 0;
    while b < params.len()
        invariant
            b <= params@.len(),
            bindings@.len() == b,
            d == spec_ci_desc(*case_info),
            pos == spec_ci_pos(*case_info),
            forall|j: int|
                0 <= j < b ==> spec_binding_ok(
                    #[trigger] bindings@[j],
                    params@[j],
                    resolve_fn(*explicit),
                    resolve_fn(*fixtures),
                    testfn_name@,
                    d,
                    pos,
                ),
        decreases params@.len() - b,
    {
        let p = &params[b];
        if p.ignored {
            bindings.push(CaseBinding::Formal);
        } else {
            match explicit.resolve(p.name.as_str()) {
                Some(v) => {
                    bindings.push(CaseBinding::Bound { name: p.name.clone(), expr: v });
                },
                None => {
                    if p.is_context {
                        let e = build_context_expr(testfn_name, case_info);
                        bindings.push(CaseBinding::Bound { name: p.name.clone(), expr: e });
                    } else {
                        match fixtures.resolve(p.name.as_str()) {
                            Some(v) => {
                                bindings.push(
                                    CaseBinding::Bound { name: p.name.clone(), expr: v },
                                );
                            },
                            None => {
                                bindings.push(CaseBinding::Unresolved { name: p.name.clone() });
                            },
                        }
                    }
                },
            }
        }
        b = b + 1;
    }

    let mut trace_stmts: Vec<String> = Vec::new();
    if trace_on {
        let mut t: usize = 0;
        proof {
            assert(params@.skip(0) =~= params@);
            assert(views_of(trace_stmts@) + spec_trace_stmts(params@) =~= spec_trace_stmts(
                params@,
            ));
        }
        while t < params.len()
            invariant
                t <= params@.len(),
                views_of(trace_stmts@) + spec_trace_stmts(params@.skip(t as int))
                    == spec_trace_stmts(params@),
            decreases params@.len() - t,
        {
            proof {
                assert(params@.skip(t as int)[0] == params@[t as int]);
                assert(params@.skip(t as int).drop_first() =~= params@.skip(t as int + 1));
            }
            if params[t].traced {
                let s = build_trace_stmt(params[t].name.as_str());
                trace_stmts.push(s);
            }
            proof {
                assert(views_of(trace_stmts@) + spec_trace_stmts(params@.skip(t as int + 1)) =~=
                    spec_trace_stmts(params@));
            }
            t = t + 1;
        }
        proof {
            assert(params@.skip(params@.len() as int) =~= Seq::<Param>::empty());
            assert(views_of(trace_stmts@) + spec_trace_stmts(params@.skip(params@.len() as int))
                =~= views_of(trace_stmts@));
        }
    } else {
        proof {
            assert(views_of(trace_stmts@) =~= Seq::<Seq<char>>::empty());
        }
    }

    let mut call_args: Vec<String> = Vec::new();
    let mut a: usize = 0;
    while a < params.len()
        invariant
            a <= params@.len(),
            call_args@.len() == a,
            forall|j: int| 0 <= j < a ==> #[trigger] call_args@[j]@ == spec_call_args(params@)[j],
        decreases params@.len() - a,
    {
        if params[a].by_ref {
            let mut s = String::from_str("&");
            s.append(params[a].name.as_str());
            proof {
                reveal_strlit("&");
                assert(s@ =~= spec_call_args(params@)[a as int]);
            }
            call_args.push(s);
        } else {
            let s = params[a].name.clone();
            call_args.push(s);
        }
        a = a + 1;
    }
    proof {
        assert(views_of(call_args@) =~= spec_call_args(params@));
    }

    let call = render_test_call(testfn_name, &call_args, &timeout, is_async, cfg);

    RenderedCase {
        name: String::from_str(name),
        attrs: passthrough,
        test_attr: outcome,
        is_async,
        lifetimes: dup_strings(lifetimes),
        ignored,
        ret: dup_opt_string(ret),
        embedded,
        bindings,
        trace_stmts,
        call,
    }
}

} // verus!
