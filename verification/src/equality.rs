//! Equality of values, scopes and runtimes: `==` holds of two of them when
//! their mathematical forms are the same.
use crate::model::{
    bindings_view, elts_view, lemma_bindings_absent, lemma_items_view, names_view, pieces_view,
    Binding, Double, Elt, Piece, Runtime, Scope,
};
use vstd::prelude::*;
use vstd::std_specs::cmp::PartialEqSpecImpl;

verus! {

fn same_double(a: &Double, b: &Double) -> (r: bool)
    ensures
        r == (a@ == b@),
    decreases a,
{
    match a {
        Double::Literal(s) => match b {
            Double::Literal(t) => *s == *t,
            _ => false,
        },
        Double::FromInt(i) => match b {
            Double::FromInt(j) => *i == *j,
            _ => false,
        },
        Double::Sum(x, y) => match b {
            Double::Sum(u, v) => same_double(x, u) && same_double(y, v),
            _ => false,
        },
        Double::Difference(x, y) => match b {
            Double::Difference(u, v) => same_double(x, u) && same_double(y, v),
            _ => false,
        },
        Double::Product(x, y) => match b {
            Double::Product(u, v) => same_double(x, u) && same_double(y, v),
            _ => false,
        },
        Double::Quotient(x, y) => match b {
            Double::Quotient(u, v) => same_double(x, u) && same_double(y, v),
            _ => false,
        },
    }
}

impl PartialEq for Double {
    fn eq(&self, other: &Double) -> (r: bool) {
        same_double(self, other)
    }
}

impl PartialEqSpecImpl for Double {
    open spec fn obeys_eq_spec() -> bool {
        true
    }

    open spec fn eq_spec(&self, other: &Double) -> bool {
        self@ == other@
    }
}

fn same_names(a: &Vec<String>, b: &Vec<String>) -> (r: bool)
    ensures
        r == (names_view(a@) == names_view(b@)),
{
    if a.len() != b.len() {
        assert(names_view(a@).len() != names_view(b@).len());
        return false;
    }
    let mut i: usize = 0;
    while i < a.len()
        invariant
            i <= a.len(),
            a.len() == b.len(),
            forall|j: int| 0 <= j < i ==> a@[j]@ == b@[j]@,
        decreases a.len() - i,
    {
        if a[i] != b[i] {
            assert(names_view(a@)[i as int] != names_view(b@)[i as int]);
            return false;
        }
        i += 1;
    }
    assert(names_view(a@) =~= names_view(b@));
    true
}

fn same_items(a: &Vec<Elt>, b: &Vec<Elt>) -> (r: bool)
    ensures
        r == (elts_view(a@) == elts_view(b@)),
    decreases a,
{
    if a.len() != b.len() {
        assert(elts_view(a@).len() != elts_view(b@).len());
        return false;
    }
    let mut i: usize = 0;
    while i < a.len()
        invariant
            i <= a.len(),
            a.len() == b.len(),
            forall|j: int| 0 <= j < i ==> a@[j]@ == b@[j]@,
        decreases a.len() - i,
    {
        if !same_elt(&a[i], &b[i]) {
            assert(elts_view(a@)[i as int] != elts_view(b@)[i as int]);
            return false;
        }
        i += 1;
    }
    assert(elts_view(a@) =~= elts_view(b@));
    true
}

fn same_elt(a: &Elt, b: &Elt) -> (r: bool)
    ensures
        r == (a@ == b@),
    decreases a,
{
    proof {
        lemma_items_view(*a);
        lemma_items_view(*b);
    }
    match a {
        Elt::Int(i) => match b {
            Elt::Int(j) => *i == *j,
            _ => false,
        },
        Elt::Double(x) => match b {
            Elt::Double(y) => same_double(x, y),
            _ => false,
        },
        Elt::Bool(x) => match b {
            Elt::Bool(y) => *x == *y,
            _ => false,
        },
        Elt::String_(s) => match b {
            Elt::String_(t) => *s == *t,
            _ => false,
        },
        Elt::Symbol(s) => match b {
            Elt::Symbol(t) => *s == *t,
            _ => false,
        },
        Elt::List(x) => match b {
            Elt::List(y) => same_items(x, y),
            _ => false,
        },
        Elt::Vector(x) => match b {
            Elt::Vector(y) => same_items(x, y),
            _ => false,
        },
        Elt::Function { lexical_bindings, body } => match b {
            Elt::Function { lexical_bindings: names, body: other } => same_names(
                lexical_bindings,
                names,
            ) && same_elt(body, other),
            _ => false,
        },
        Elt::BuiltinFunction(x) => match b {
            Elt::BuiltinFunction(y) => *x == *y,
            _ => false,
        },
        Elt::Macro { lexical_bindings, body } => match b {
            Elt::Macro { lexical_bindings: names, body: other } => same_names(
                lexical_bindings,
                names,
            ) && same_elt(body, other),
            _ => false,
        },
        Elt::Nil => match b {
            Elt::Nil => true,
            _ => false,
        },
    }
}

impl PartialEq for Elt {
    fn eq(&self, other: &Elt) -> (r: bool) {
        same_elt(self, other)
    }
}

impl PartialEqSpecImpl for Elt {
    open spec fn obeys_eq_spec() -> bool {
        true
    }

    open spec fn eq_spec(&self, other: &Elt) -> bool {
        self@ == other@
    }
}

impl PartialEq for Piece {
    fn eq(&self, other: &Piece) -> (r: bool) {
        match self {
            Piece::Text(s) => match other {
                Piece::Text(t) => *s == *t,
                _ => false,
            },
            Piece::Number(x) => match other {
                Piece::Number(y) => same_double(x, y),
                _ => false,
            },
        }
    }
}

impl PartialEqSpecImpl for Piece {
    open spec fn obeys_eq_spec() -> bool {
        true
    }

    open spec fn eq_spec(&self, other: &Piece) -> bool {
        self@ == other@
    }
}

/// A name that a sequence of bindings binds is the name of one of them.
proof fn lemma_bound_names(bindings: Seq<Binding>, k: Seq<char>)
    requires
        bindings_view(bindings).contains_key(k),
    ensures
        exists|j: int| 0 <= j < bindings.len() && (#[trigger] bindings[j]).name@ == k,
{
    if forall|j: int| 0 <= j < bindings.len() ==> (#[trigger] bindings[j]).name@ != k {
        lemma_bindings_absent(bindings, k);
    }
}

/// Whether `b` binds every name that `a` binds, and to the same value.
fn covers(a: &Scope, b: &Scope) -> (r: bool)
    ensures
        r == forall|k: Seq<char>| #[trigger]
            a@.contains_key(k) ==> b@.contains_key(k) && b@[k] == a@[k],
{
    let mut i: usize = 0;
    while i < a.bindings.len()
        invariant
            i <= a.bindings.len(),
            forall|j: int|
                0 <= j < i ==> {
                    let k = (#[trigger] a.bindings@[j]).name@;
                    a@.contains_key(k) && b@.contains_key(k) && b@[k] == a@[k]
                },
        decreases a.bindings.len() - i,
    {
        let name = &a.bindings[i].name;
        let ours = a.get(name);
        let theirs = b.get(name);
        let same = match ours {
            Some(x) => match theirs {
                Some(y) => same_elt(x, y),
                None => false,
            },
            None => true,
        };
        if !same {
            return false;
        }
        proof {
            if ours is None {
                // a binding of `a` names it
                lemma_named_is_bound(a.bindings@, i as int);
            }
        }
        i += 1;
    }
    proof {
        assert forall|k: Seq<char>| #[trigger] a@.contains_key(k) implies b@.contains_key(k)
            && b@[k] == a@[k] by {
            lemma_bound_names(a.bindings@, k);
        }
    }
    true
}

/// A name that one of the bindings names is bound.
proof fn lemma_named_is_bound(bindings: Seq<Binding>, i: int)
    requires
        0 <= i < bindings.len(),
    ensures
        bindings_view(bindings).contains_key(bindings[i].name@),
    decreases bindings.len(),
{
    if i < bindings.len() - 1 {
        lemma_named_is_bound(bindings.drop_last(), i);
    }
}

fn same_scope(a: &Scope, b: &Scope) -> (r: bool)
    ensures
        r == (a@ == b@),
{
    let r = covers(a, b) && covers(b, a);
    proof {
        if r {
            assert(a@ =~= b@);
        }
    }
    r
}

impl PartialEq for Scope {
    fn eq(&self, other: &Scope) -> (r: bool) {
        same_scope(self, other)
    }
}

impl PartialEqSpecImpl for Scope {
    open spec fn obeys_eq_spec() -> bool {
        true
    }

    open spec fn eq_spec(&self, other: &Scope) -> bool {
        self@ == other@
    }
}

fn same_pieces(a: &Vec<Piece>, b: &Vec<Piece>) -> (r: bool)
    ensures
        r == (pieces_view(a@) == pieces_view(b@)),
{
    if a.len() != b.len() {
        assert(pieces_view(a@).len() != pieces_view(b@).len());
        return false;
    }
    let mut i: usize = 0;
    while i < a.len()
        invariant
            i <= a.len(),
            a.len() == b.len(),
            forall|j: int| 0 <= j < i ==> a@[j]@ == b@[j]@,
        decreases a.len() - i,
    {
        if a[i] != b[i] {
            assert(pieces_view(a@)[i as int] != pieces_view(b@)[i as int]);
            return false;
        }
        i += 1;
    }
    assert(pieces_view(a@) =~= pieces_view(b@));
    true
}

impl PartialEq for Runtime {
    fn eq(&self, other: &Runtime) -> (r: bool) {
        same_scope(&self.root_scope, &other.root_scope) && same_pieces(&self.output, &other.output)
            && self.depth_limit == other.depth_limit
    }
}

impl PartialEqSpecImpl for Runtime {
    open spec fn obeys_eq_spec() -> bool {
        true
    }

    open spec fn eq_spec(&self, other: &Runtime) -> bool {
        self@ == other@ && self.depth_limit == other.depth_limit
    }
}

} // verus!
