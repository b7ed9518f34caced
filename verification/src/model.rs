//! The data the expansion engine works on: parameters, attributes, explicit
//! cases, value-list dimensions, the template, and the injected configuration.
//! Every value is plain — identifiers, type names and value expressions are
//! carried as text and never interpreted by the engine.

use vstd::prelude::*;
use vstd::string::StrSliceExecFns;

verus! {

/// How an attribute carries its arguments.
pub enum AttrArgs {
    /// A bare path, `#[flaky]`.
    Bare,
    /// A parenthesised token list, `#[timeout(ms(100))]`.
    Paren(String),
    /// A name–value form, `#[key = "value"]`.
    NameValue(String),
}

/// One attribute, on the template or on a single case: its path (segments
/// joined by `::`, as written) plus its arguments.
pub struct Attr {
    pub path: String,
    pub args: AttrArgs,
}

/// One declared input parameter of the test template, with its modifiers.
pub struct Param {
    pub name: String,
    pub ty: String,
    /// Kept as an unresolved formal parameter of the generated case.
    pub ignored: bool,
    /// Passed to the template by reference.
    pub by_ref: bool,
    /// Printed before the call when tracing is enabled.
    pub traced: bool,
    /// Requests a synthesized execution-context value.
    pub is_context: bool,
}

/// A (parameter identifier → value expression) pair, as held by a resolver
/// table: a fixture default or one explicit binding.
pub struct ArgValue {
    pub name: String,
    pub expr: String,
}

/// One entry of a value list: the expression and the human-readable
/// description used for naming.
pub struct ListValue {
    pub expr: String,
    pub description: String,
}

/// A matrix dimension: an ordered list of values bound to one parameter.
pub struct ValueList {
    pub arg: String,
    pub values: Vec<ListValue>,
}

/// One explicit case: positional value expressions for the declared case
/// arguments, per-case attributes, and an optional description.
pub struct TestCase {
    pub args: Vec<String>,
    pub attrs: Vec<Attr>,
    pub description: Option<String>,
}

/// Ordinal position and optional description of a rendered case; used for
/// naming and for synthesized context values, never for resolution.
pub struct CaseInfo {
    pub description: Option<String>,
    pub pos: usize,
}

impl CaseInfo {
    pub fn new(description: Option<String>, pos: usize) -> (r: CaseInfo)
        ensures
            r.description == description,
            r.pos == pos,
    {
        CaseInfo { description, pos }
    }
}

/// The parsed test template: the signature pieces the renderer assembles
/// the generated cases around, plus the body kept for embedding.
pub struct Template {
    pub name: String,
    pub params: Vec<Param>,
    pub attrs: Vec<Attr>,
    /// The declared return type, `None` for unit.
    pub ret: Option<String>,
    pub is_async: bool,
    /// Identifiers of the declared generic type parameters.
    pub generics: Vec<String>,
    /// Declared lifetime parameters, kept on each generated case.
    pub lifetimes: Vec<String>,
    /// The body statements, embedded into the single-case shape.
    pub body: String,
}

impl Template {
    /// The identifiers of the template's generic type parameters.
    pub fn generics_types_ident(&self) -> (r: &Vec<String>)
        ensures
            r == &self.generics,
    {
        &self.generics
    }
}

/// The descriptor set for one expansion: which parameters the explicit cases
/// bind, the cases themselves, the value-list dimensions, the fixture
/// defaults, and the global trace flag.
pub struct TestInfo {
    pub case_args: Vec<String>,
    pub cases: Vec<TestCase>,
    pub lists: Vec<ValueList>,
    pub fixtures: Vec<ArgValue>,
    pub global_trace: bool,
}

/// Expansion-wide configuration injected by the caller: the engine itself
/// reads no environment.
pub struct Config {
    /// The process-wide timeout override, in whole seconds, as read from the
    /// caller's environment; applied only where no explicit timeout is given.
    pub env_timeout: Option<String>,
    /// The path under which the generated code reaches the framework's
    /// timeout helpers.
    pub crate_path: String,
}

/// Relies on `str::eq`: string slices compare equal exactly when their
/// character sequences do.
#[verifier::external_body]
pub(crate) fn str_eq(a: &str, b: &str) -> (r: bool)
    ensures
        r == (a@ == b@),
{
    a == b
}

/// The attribute is exactly the marker `name`: its whole path matches.
pub open spec fn spec_attr_is(a: Attr, name: Seq<char>) -> bool {
    a.path@ == name
}

pub fn attr_is(a: &Attr, name: &str) -> (b: bool)
    ensures
        b == spec_attr_is(*a, name@),
{
    str_eq(a.path.as_str(), name)
}

/// The attribute path's last segment is `name` (so `test` matches both
/// `test` and `tokio::test`, but not `test_attr`).
pub open spec fn spec_attr_ends_with(a: Attr, name: Seq<char>) -> bool {
    let p = a.path@;
    p.len() >= name.len() && p.subrange(p.len() - name.len(), p.len() as int) == name && (p.len()
        == name.len() || p[p.len() - name.len() - 1] == ':')
}

pub fn attr_ends_with(a: &Attr, name: &str) -> (b: bool)
    ensures
        b == spec_attr_ends_with(*a, name@),
{
    let pl = a.path.as_str().unicode_len();
    let nl = name.unicode_len();
    if pl < nl {
        return false;
    }
    let tail = a.path.as_str().substring_char(pl - nl, pl);
    if !str_eq(tail, name) {
        return false;
    }
    if pl == nl {
        return true;
    }
    let c = a.path.as_str().get_char(pl - nl - 1);
    c == ':'
}

/// Some attribute of the list is the bare marker `name`.
pub open spec fn spec_has_attr(attrs: Seq<Attr>, name: Seq<char>) -> bool {
    exists|i: int| 0 <= i < attrs.len() && spec_attr_is(attrs[i], name)
}

/// The view of an optional string.
pub open spec fn opt_view(o: Option<String>) -> Option<Seq<char>> {
    match o {
        Some(s) => Some(s@),
        None => None,
    }
}

/// A copy of a string list, element for element.
pub fn dup_strings(v: &Vec<String>) -> (r: Vec<String>)
    ensures
        r@ == v@,
{
    let mut r: Vec<String> = Vec::new();
    let mut i: usize = 0;
    while i < v.len()
        invariant
            i <= v@.len(),
            r@ == v@.take(i as int),
        decreases v@.len() - i,
    {
        r.push(v[i].clone());
        i = i + 1;
        proof {
            assert(r@ =~= v@.take(i as int));
        }
    }
    proof {
        assert(v@.take(v@.len() as int) =~= v@);
    }
    r
}

/// A copy of an optional string.
pub fn dup_opt_string(o: &Option<String>) -> (r: Option<String>)
    ensures
        r == *o,
{
    match o {
        Some(s) => Some(s.clone()),
        None => None,
    }
}

impl AttrArgs {
    /// A copy of the value.
    pub fn duplicate(&self) -> (r: AttrArgs)
        ensures
            r == *self,
    {
        match self {
            AttrArgs::Bare => AttrArgs::Bare,
            AttrArgs::Paren(s) => AttrArgs::Paren(s.clone()),
            AttrArgs::NameValue(s) => AttrArgs::NameValue(s.clone()),
        }
    }
}

impl Attr {
    /// A copy of the value.
    pub fn duplicate(&self) -> (r: Attr)
        ensures
            r == *self,
    {
        Attr { path: self.path.clone(), args: self.args.duplicate() }
    }
}

impl Param {
    /// A copy of the value.
    pub fn duplicate(&self) -> (r: Param)
        ensures
            r == *self,
    {
        Param {
            name: self.name.clone(),
            ty: self.ty.clone(),
            ignored: self.ignored,
            by_ref: self.by_ref,
            traced: self.traced,
            is_context: self.is_context,
        }
    }
}

impl CaseInfo {
    /// A copy of the value.
    pub fn duplicate(&self) -> (r: CaseInfo)
        ensures
            r == *self,
    {
        CaseInfo { description: dup_opt_string(&self.description), pos: self.pos }
    }
}

/// A copy of an attribute list, element for element.
pub fn dup_attrs(v: &Vec<Attr>) -> (r: Vec<Attr>)
    ensures
        r@ == v@,
{
    let mut r: Vec<Attr> = Vec::new();
    let mut i: usize = 0;
    while i < v.len()
        invariant
            i <= v@.len(),
            r@ == v@.take(i as int),
        decreases v@.len() - i,
    {
        r.push(v[i].duplicate());
        i = i + 1;
        proof {
            assert(r@ =~= v@.take(i as int));
        }
    }
    proof {
        assert(v@.take(v@.len() as int) =~= v@);
    }
    r
}

} // verus!
