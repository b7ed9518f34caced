//! Emission of generated source text. Every function here is a pure,
//! deterministic serialization of an already rendered value: the same value
//! always emits byte-identical text.

use vstd::prelude::*;
use vstd::string::StringExecFns;
use crate::model::{Attr, AttrArgs, Param, Template};
use crate::render::{CaseBinding, RenderedCase, TestAttrOutcome};
use crate::text::{join, spec_join, views_of};

verus! {

/// The text of one attribute.
pub open spec fn spec_emit_attr(a: Attr) -> Seq<char> {
    "#["@ + a.path@ + (match a.args {
        AttrArgs::Bare => Seq::<char>::empty(),
        AttrArgs::Paren(s) => "("@ + s@ + ")"@,
        AttrArgs::NameValue(s) => " = "@ + s@,
    }) + "]"@
}

/// The attribute lines of a generated function, one per attribute.
pub open spec fn spec_emit_attrs(attrs: Seq<Attr>) -> Seq<char>
    decreases attrs.len(),
{
    if attrs.len() == 0 {
        Seq::empty()
    } else {
        spec_emit_attr(attrs[0]) + "\n"@ + spec_emit_attrs(attrs.drop_first())
    }
}

/// The line the resolved test-entry marker contributes.
pub open spec fn spec_emit_test_attr(o: TestAttrOutcome) -> Seq<char> {
    match o {
        TestAttrOutcome::Explicit(s) => "#["@ + s@ + "]\n"@,
        TestAttrOutcome::MalformedExplicit => {
            "compile_error!{\"invalid `test_attr` syntax; should be `#[test_attr(<test attribute>)]`\"}\n"@
        },
        TestAttrOutcome::AlreadyPresent => Seq::<char>::empty(),
        TestAttrOutcome::DefaultTest => "#[test]\n"@,
        TestAttrOutcome::MissingAsyncMarker => {
            "compile_error!{\"async tests require either an explicit `test_attr` or an attribute whose path ends with `test`\"}\n"@
        },
    }
}

/// One formal parameter, `name: type`.
pub open spec fn spec_formal(p: Param) -> Seq<char> {
    p.name@ + ": "@ + p.ty@
}

/// A comma-separated formal parameter list.
pub open spec fn spec_formals(ps: Seq<Param>) -> Seq<char> {
    spec_join(ps.map_values(|p: Param| spec_formal(p)), ", "@)
}

/// The line one parameter binding contributes: a local `let`, nothing for a
/// formal parameter, or a compile-time diagnostic naming an unresolved one.
pub open spec fn spec_emit_binding(b: CaseBinding) -> Seq<char> {
    match b {
        CaseBinding::Formal => Seq::<char>::empty(),
        CaseBinding::Bound { name, expr } => "let "@ + name@ + " = "@ + expr@ + ";\n"@,
        CaseBinding::Unresolved { name } => "compile_error!{\"no value can be resolved for parameter "@
            + name@ + "\"}\n"@,
    }
}

/// The binding lines of a case, in parameter order.
pub open spec fn spec_emit_bindings(bs: Seq<CaseBinding>) -> Seq<char>
    decreases bs.len(),
{
    if bs.len() == 0 {
        Seq::empty()
    } else {
        spec_emit_binding(bs[0]) + spec_emit_bindings(bs.drop_first())
    }
}

/// The trace statements, one line each.
pub open spec fn spec_emit_lines(stmts: Seq<Seq<char>>) -> Seq<char>
    decreases stmts.len(),
{
    if stmts.len() == 0 {
        Seq::empty()
    } else {
        stmts[0] + "\n"@ + spec_emit_lines(stmts.drop_first())
    }
}

/// The trace block: a separator, one print per traced parameter, and a
/// second separator; nothing when no parameter is traced.
pub open spec fn spec_emit_trace(stmts: Seq<Seq<char>>) -> Seq<char> {
    if stmts.len() == 0 {
        Seq::empty()
    } else {
        "println!(\"{:-^40}\", \" TEST ARGUMENTS \");\n"@ + spec_emit_lines(stmts)
            + "println!(\"{:-^40}\", \" TEST START \");\n"@
    }
}

/// The generic parameter list kept on a generated function, empty when
/// there is nothing to keep.
pub open spec fn spec_emit_generics(l: Seq<Seq<char>>) -> Seq<char> {
    if l.len() == 0 {
        Seq::empty()
    } else {
        "<"@ + spec_join(l, ", "@) + ">"@
    }
}

/// The declared return type, after `->`, or nothing for unit.
pub open spec fn spec_emit_ret(r: Option<String>) -> Seq<char> {
    match r {
        Some(t) => " -> "@ + t@,
        None => Seq::<char>::empty(),
    }
}

/// The full text of one rendered case, in the fixed order: pass-through
/// attributes, test-entry marker, asyncness, name and lifetimes, ignored
/// parameters as formals, return type, embedded implementation, resolved
/// bindings, trace block, wrapped call.
pub open spec fn spec_emit_case(rc: RenderedCase) -> Seq<char> {
    spec_emit_attrs(rc.attrs@) + spec_emit_test_attr(rc.test_attr) + (if rc.is_async {
        "async "@
    } else {
        Seq::<char>::empty()
    }) + "fn "@ + rc.name@ + spec_emit_generics(views_of(rc.lifetimes@)) + "("@ + spec_formals(
        rc.ignored@,
    ) + ")"@ + spec_emit_ret(rc.ret) + " {\n"@ + (match rc.embedded {
        Some(e) => e@ + "\n"@,
        None => Seq::<char>::empty(),
    }) + spec_emit_bindings(rc.bindings@) + spec_emit_trace(views_of(rc.trace_stmts@)) + rc.call@
        + "\n}\n"@
}

/// The text of the (attribute-stripped) template itself.
pub open spec fn spec_emit_template(t: Template) -> Seq<char> {
    (if t.is_async {
        "async "@
    } else {
        Seq::<char>::empty()
    }) + "fn "@ + t.name@ + spec_emit_generics(views_of(t.lifetimes@) + views_of(t.generics@))
        + "("@ + spec_formals(t.params@) + ")"@ + spec_emit_ret(t.ret) + " {\n"@ + t.body@
        + "\n}\n"@
}

/// Emits one attribute.
pub fn emit_attr(a: &Attr) -> (r: String)
    ensures
        r@ == spec_emit_attr(*a),
{
    let mut r = String::from_str("#[");
    r.append(a.path.as_str());
    match &a.args {
        AttrArgs::Bare => {},
        AttrArgs::Paren(s) => {
            r.append("(");
            r.append(s.as_str());
            r.append(")");
        },
        AttrArgs::NameValue(s) => {
            r.append(" = ");
            r.append(s.as_str());
        },
    }
    r.append("]");
    proof {
        assert(r@ =~= spec_emit_attr(*a));
    }
    r
}

/// Emits the attribute lines of a generated function.
pub fn emit_attrs(attrs: &Vec<Attr>) -> (r: String)
    ensures
        r@ == spec_emit_attrs(attrs@),
{
    let mut r = String::new();
    let mut i: usize = 0;
    proof {
        assert(attrs@.skip(0) =~= attrs@);
        assert(r@ + spec_emit_attrs(attrs@) =~= spec_emit_attrs(attrs@));
    }
    while i < attrs.len()
        invariant
            i <= attrs@.len(),
            r@ + spec_emit_attrs(attrs@.skip(i as int)) == spec_emit_attrs(attrs@),
        decreases attrs@.len() - i,
    {
        proof {
            assert(attrs@.skip(i as int)[0] == attrs@[i as int]);
            assert(attrs@.skip(i as int).drop_first() =~= attrs@.skip(i as int + 1));
        }
        let line = emit_attr(&attrs[i]);
        r.append(line.as_str());
        r.append("\n");
        proof {
            assert(r@ + spec_emit_attrs(attrs@.skip(i as int + 1)) =~= spec_emit_attrs(attrs@));
        }
        i = i + 1;
    }
    proof {
        assert(attrs@.skip(attrs@.len() as int) =~= Seq::<Attr>::empty());
        assert(r@ + spec_emit_attrs(attrs@.skip(attrs@.len() as int)) =~= r@);
    }
    r
}

/// Emits the line of the resolved test-entry marker.
pub fn emit_test_attr(o: &TestAttrOutcome) -> (r: String)
    ensures
        r@ == spec_emit_test_attr(*o),
{
    match o {
        TestAttrOutcome::Explicit(s) => {
            let mut r = String::from_str("#[");
            r.append(s.as_str());
            r.append("]\n");
            proof {
                assert(r@ =~= spec_emit_test_attr(*o));
            }
            r
        },
        TestAttrOutcome::MalformedExplicit => {
            String::from_str(
                "compile_error!{\"invalid `test_attr` syntax; should be `#[test_attr(<test attribute>)]`\"}\n",
            )
        },
        TestAttrOutcome::AlreadyPresent => String::new(),
        TestAttrOutcome::DefaultTest => String::from_str("#[test]\n"),
        TestAttrOutcome::MissingAsyncMarker => {
            String::from_str(
                "compile_error!{\"async tests require either an explicit `test_attr` or an attribute whose path ends with `test`\"}\n",
            )
        },
    }
}

/// Emits a comma-separated formal parameter list.
pub fn emit_formals(ps: &Vec<Param>) -> (r: String)
    ensures
        r@ == spec_formals(ps@),
{
    let mut parts: Vec<String> = Vec::new();
    let mut i: usize = 0;
    while i < ps.len()
        invariant
            i <= ps@.len(),
            parts@.len() == i,
            forall|j: int|
                0 <= j < i ==> #[trigger] parts@[j]@ == spec_formal(ps@[j]),
        decreases ps@.len() - i,
    {
        let mut s = ps[i].name.clone();
        s.append(": ");
        s.append(ps[i].ty.as_str());
        proof {
            assert(s@ =~= spec_formal(ps@[i as int]));
        }
        parts.push(s);
        i = i + 1;
    }
    proof {
        assert(views_of(parts@) =~= ps@.map_values(|p: Param| spec_formal(p)));
    }
    join(&parts, ", ")
}

/// Emits the generic parameter list, empty when there is nothing to keep.
pub fn emit_generics(l: &Vec<String>) -> (r: String)
    ensures
        r@ == spec_emit_generics(views_of(l@)),
{
    if l.len() == 0 {
        String::new()
    } else {
        let mut r = String::from_str("<");
        let j = join(l, ", ");
        r.append(j.as_str());
        r.append(">");
        proof {
            assert(r@ =~= spec_emit_generics(views_of(l@)));
        }
        r
    }
}

/// Emits one binding line.
fn emit_binding(b: &CaseBinding) -> (r: String)
    ensures
        r@ == spec_emit_binding(*b),
{
    match b {
        CaseBinding::Formal => String::new(),
        CaseBinding::Bound { name, expr } => {
            let mut r = String::from_str("let ");
            r.append(name.as_str());
            r.append(" = ");
            r.append(expr.as_str());
            r.append(";\n");
            proof {
                assert(r@ =~= spec_emit_binding(*b));
            }
            r
        },
        CaseBinding::Unresolved { name } => {
            let mut r = String::from_str("compile_error!{\"no value can be resolved for parameter ");
            r.append(name.as_str());
            r.append("\"}\n");
            proof {
                assert(r@ =~= spec_emit_binding(*b));
            }
            r
        },
    }
}

/// Emits the binding lines of a case.
pub fn emit_bindings(bs: &Vec<CaseBinding>) -> (r: String)
    ensures
        r@ == spec_emit_bindings(bs@),
{
    let mut r = String::new();
    let mut i: usize = 0;
    proof {
        assert(bs@.skip(0) =~= bs@);
        assert(r@ + spec_emit_bindings(bs@) =~= spec_emit_bindings(bs@));
    }
    while i < bs.len()
        invariant
            i <= bs@.len(),
            r@ + spec_emit_bindings(bs@.skip(i as int)) == spec_emit_bindings(bs@),
        decreases bs@.len() - i,
    {
        proof {
            assert(bs@.skip(i as int)[0] == bs@[i as int]);
            assert(bs@.skip(i as int).drop_first() =~= bs@.skip(i as int + 1));
        }
        let line = emit_binding(&bs[i]);
        r.append(line.as_str());
        proof {
            assert(r@ + spec_emit_bindings(bs@.skip(i as int + 1)) =~= spec_emit_bindings(bs@));
        }
        i = i + 1;
    }
    proof {
        assert(bs@.skip(bs@.len() as int) =~= Seq::<CaseBinding>::empty());
        assert(r@ + spec_emit_bindings(bs@.skip(bs@.len() as int)) =~= r@);
    }
    r
}

/// Emits the trace block of a case.
pub fn emit_trace(stmts: &Vec<String>) -> (r: String)
    ensures
        r@ == spec_emit_trace(views_of(stmts@)),
{
    if stmts.len() == 0 {
        return String::new();
    }
    let mut r = String::from_str("println!(\"{:-^40}\", \" TEST ARGUMENTS \");\n");
    let ghost lines = views_of(stmts@);
    let mut i: usize = 0;
    proof {
        assert(lines.skip(0) =~= lines);
        assert(r@ =~= "println!(\"{:-^40}\", \" TEST ARGUMENTS \");\n"@ + Seq::<char>::empty());
    }
    let mut body = String::new();
    proof {
        assert(body@ + spec_emit_lines(lines) =~= spec_emit_lines(lines));
    }
    while i < stmts.len()
        invariant
            i <= stmts@.len(),
            lines == views_of(stmts@),
            body@ + spec_emit_lines(lines.skip(i as int)) == spec_emit_lines(lines),
        decreases stmts@.len() - i,
    {
        proof {
            assert(lines.skip(i as int)[0] == lines[i as int]);
            assert(lines[i as int] == stmts@[i as int]@);
            assert(lines.skip(i as int).drop_first() =~= lines.skip(i as int + 1));
        }
        body.append(stmts[i].as_str());
        body.append("\n");
        proof {
            assert(body@ + spec_emit_lines(lines.skip(i as int + 1)) =~= spec_emit_lines(lines));
        }
        i = i + 1;
    }
    proof {
        assert(lines.skip(lines.len() as int) =~= Seq::<Seq<char>>::empty());
        assert(body@ + spec_emit_lines(lines.skip(lines.len() as int)) =~= body@);
    }
    r.append(body.as_str());
    r.append("println!(\"{:-^40}\", \" TEST START \");\n");
    proof {
        assert(views_of(stmts@).len() > 0);
        assert(r@ =~= spec_emit_trace(views_of(stmts@)));
    }
    r
}

/// Emits the full text of one rendered case.
pub fn emit_case(rc: &RenderedCase) -> (r: String)
    ensures
        r@ == spec_emit_case(*rc),
{
    let mut r = emit_attrs(&rc.attrs);
    let ta = emit_test_attr(&rc.test_attr);
    r.append(ta.as_str());
    if rc.is_async {
        r.append("async ");
    }
    r.append("fn ");
    r.append(rc.name.as_str());
    let g = emit_generics(&rc.lifetimes);
    r.append(g.as_str());
    r.append("(");
    let f = emit_formals(&rc.ignored);
    r.append(f.as_str());
    r.append(")");
    match &rc.ret {
        Some(t) => {
            r.append(" -> ");
            r.append(t.as_str());
        },
        None => {},
    }
    r.append(" {\n");
    match &rc.embedded {
        Some(e) => {
            r.append(e.as_str());
            r.append("\n");
        },
        None => {},
    }
    let b = emit_bindings(&rc.bindings);
    r.append(b.as_str());
    let tr = emit_trace(&rc.trace_stmts);
    r.append(tr.as_str());
    r.append(rc.call.as_str());
    r.append("\n}\n");
    proof {
        assert(r@ =~= spec_emit_case(*rc));
    }
    r
}

/// Emits the (attribute-stripped) template function itself.
pub fn emit_template(t: &Template) -> (r: String)
    ensures
        r@ == spec_emit_template(*t),
{
    let mut r = String::new();
    if t.is_async {
        r.append("async ");
    }
    r.append("fn ");
    r.append(t.name.as_str());
    let mut gen_names = crate::model::dup_strings(&t.lifetimes);
    let mut type_names = crate::model::dup_strings(&t.generics);
    gen_names.append(&mut type_names);
    proof {
        assert(views_of(gen_names@) =~= views_of(t.lifetimes@) + views_of(t.generics@));
    }
    let g = emit_generics(&gen_names);
    r.append(g.as_str());
    r.append("(");
    let f = emit_formals(&t.params);
    r.append(f.as_str());
    r.append(")");
    match &t.ret {
        Some(ty) => {
            r.append(" -> ");
            r.append(ty.as_str());
        },
        None => {},
    }
    r.append(" {\n");
    r.append(t.body.as_str());
    r.append("\n}\n");
    proof {
        assert(r@ =~= spec_emit_template(*t));
    }
    r
}

} // verus!
