//! Value resolution: given a parameter identifier, optionally produce a value
//! expression for it. A resolver is a lookup table or an ordered pair tried
//! left to right, so arbitrary precedence chains nest from one composite.

use vstd::prelude::*;
use crate::model::{str_eq, ArgValue};

verus! {

/// A value source. `Pair(a, b)` resolves through `a` first and falls back to
/// `b`: the chain stops at the first source that returns a value.
pub enum Resolver {
    Table(Vec<ArgValue>),
    Pair(Box<Resolver>, Box<Resolver>),
}

/// First match wins: the value of the first table entry bound to `name`.
pub open spec fn spec_table_lookup(entries: Seq<ArgValue>, name: Seq<char>) -> Option<Seq<char>>
    decreases entries.len(),
{
    if entries.len() == 0 {
        None
    } else if entries[0].name@ == name {
        Some(entries[0].expr@)
    } else {
        spec_table_lookup(entries.drop_first(), name)
    }
}

/// What a resolver yields for `name`.
pub open spec fn spec_resolve(r: Resolver, name: Seq<char>) -> Option<Seq<char>>
    decreases r,
{
    match r {
        Resolver::Table(entries) => spec_table_lookup(entries@, name),
        Resolver::Pair(first, second) => match spec_resolve(*first, name) {
            Some(v) => Some(v),
            None => spec_resolve(*second, name),
        },
    }
}

fn table_lookup(entries: &Vec<ArgValue>, name: &str) -> (r: Option<String>)
    ensures
        match r {
            Some(v) => spec_table_lookup(entries@, name@) == Some(v@),
            None => spec_table_lookup(entries@, name@) is None,
        },
{
    let mut i: usize = 0;
    proof {
        assert(entries@.skip(0) =~= entries@);
    }
    while i < entries.len()
        invariant
            i <= entries@.len(),
            spec_table_lookup(entries@.skip(i as int), name@) == spec_table_lookup(
                entries@,
                name@,
            ),
        decreases entries@.len() - i,
    {
        proof {
            assert(entries@.skip(i as int)[0] == entries@[i as int]);
            assert(entries@.skip(i as int).drop_first() =~= entries@.skip(i as int + 1));
        }
        if str_eq(entries[i].name.as_str(), name) {
            return Some(entries[i].expr.clone());
        }
        i = i + 1;
    }
    proof {
        assert(entries@.skip(entries@.len() as int) =~= Seq::<ArgValue>::empty());
    }
    None
}

impl Resolver {
    /// Looks `name` up; a pair tries its first source, then its second.
    pub fn resolve(&self, name: &str) -> (r: Option<String>)
        ensures
            match r {
                Some(v) => spec_resolve(*self, name@) == Some(v@),
                None => spec_resolve(*self, name@) is None,
            },
        decreases *self,
    {
        match self {
            Resolver::Table(entries) => table_lookup(entries, name),
            Resolver::Pair(first, second) => match first.resolve(name) {
                Some(v) => Some(v),
                None => second.resolve(name),
            },
        }
    }

    /// A copy that resolves every identifier to the same value as the
    /// original.
    pub fn duplicate(&self) -> (r: Resolver)
        ensures
            forall|n: Seq<char>| spec_resolve(r, n) == spec_resolve(*self, n),
        decreases *self,
    {
        match self {
            Resolver::Table(entries) => {
                let mut v: Vec<ArgValue> = Vec::new();
                let mut i: usize = 0;
                while i < entries.len()
                    invariant
                        i <= entries@.len(),
                        v@ == entries@.take(i as int),
                    decreases entries@.len() - i,
                {
                    v.push(
                        ArgValue {
                            name: entries[i].name.clone(),
                            expr: entries[i].expr.clone(),
                        },
                    );
                    i = i + 1;
                    proof {
                        assert(v@ =~= entries@.take(i as int));
                    }
                }
                proof {
                    assert(entries@.take(entries@.len() as int) =~= entries@);
                }
                let out = Resolver::Table(v);
                proof {
                    assert(*self == Resolver::Table(*entries));
                    assert forall|n: Seq<char>| spec_resolve(out, n) == spec_resolve(
                        *self,
                        n,
                    ) by {
                        assert(spec_resolve(out, n) == spec_table_lookup(entries@, n));
                        assert(spec_resolve(*self, n) == spec_table_lookup(entries@, n));
                    }
                }
                out
            },
            Resolver::Pair(first, second) => {
                let da = first.duplicate();
                let db = second.duplicate();
                let ghost ga = da;
                let ghost gb = db;
                let out = Resolver::Pair(Box::new(da), Box::new(db));
                proof {
                    assert(*self == Resolver::Pair(*first, *second));
                    assert forall|n: Seq<char>| spec_resolve(out, n) == spec_resolve(
                        *self,
                        n,
                    ) by {
                        assert(spec_resolve(ga, n) == spec_resolve(**first, n));
                        assert(spec_resolve(gb, n) == spec_resolve(**second, n));
                    }
                }
                out
            },
        }
    }

    /// An empty source: resolves nothing.
    pub fn empty() -> (r: Resolver)
        ensures
            forall|name: Seq<char>| spec_resolve(r, name) is None,
    {
        Resolver::Table(Vec::new())
    }
}

/// Trying `a` before `b` takes `a`'s value wherever it has one: what the
/// first source binds, no later source can shadow.
pub proof fn lemma_pair_precedence(a: Resolver, b: Resolver, name: Seq<char>)
    ensures
        spec_resolve(a, name) is Some ==> spec_resolve(
            Resolver::Pair(Box::new(a), Box::new(b)),
            name,
        ) == spec_resolve(a, name),
        spec_resolve(a, name) is None ==> spec_resolve(
            Resolver::Pair(Box::new(a), Box::new(b)),
            name,
        ) == spec_resolve(b, name),
{
}

} // verus!
