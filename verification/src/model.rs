//! The data shared by the lexer, the parser and the evaluator, each with the
//! mathematical view that the contracts speak of.
use vstd::prelude::*;

verus! {

/// The kind of a token.
#[derive(Debug, PartialEq, Eq, Structural, Clone, Copy)]
pub enum TokenType {
    ParenL,
    ParenR,
    BracketL,
    BracketR,
    Ident,
    IntLiteral,
    StringLiteral,
    DoubleLiteral,
    Quote,
}

/// The smallest lexical unit: a kind, its text, and the 1-based line it starts on.
#[derive(Debug, PartialEq, Eq)]
pub struct Token {
    pub _type: TokenType,
    pub text: String,
    pub line_number: usize,
}

/// A token with its text as a sequence of characters.
pub struct TokenView {
    pub _type: TokenType,
    pub text: Seq<char>,
    pub line_number: usize,
}

impl View for Token {
    type V = TokenView;

    open spec fn view(&self) -> TokenView {
        TokenView { _type: self._type, text: self.text@, line_number: self.line_number }
    }
}

/// The views of a sequence of tokens, in order.
pub open spec fn tokens_view(tokens: Seq<Token>) -> Seq<TokenView> {
    Seq::new(tokens.len(), |i: int| tokens[i]@)
}

/// The primitives of the language.
#[derive(Debug, PartialEq, Eq, Structural, Clone, Copy)]
pub enum Builtin {
    Print,
    Println,
    Def,
    Quote,
    Fn_,
    Macro,
    Car,
    Cdr,
    Cons,
    Empty_,
    If,
    Nth,
    Plus,
    Minus,
    Mult,
    Div,
}

/// A double-precision number, kept as the exact record of how it is computed.
///
/// No decision of the language depends on the value of a double: doubles are
/// only combined with other numbers and written out. The record fixes the
/// operations and their order, so it stands for exactly one IEEE-754 value.
/// Two records are equal when they compute in the same way, which is less than
/// having the same value.
#[derive(Debug, Eq)]
pub enum Double {
    /// A literal, by its text.
    Literal(String),
    /// An integer converted to the nearest double.
    FromInt(i64),
    /// Left operand plus right operand.
    Sum(Box<Double>, Box<Double>),
    /// Left operand minus right operand.
    Difference(Box<Double>, Box<Double>),
    /// Left operand times right operand.
    Product(Box<Double>, Box<Double>),
    /// Left operand divided by right operand.
    Quotient(Box<Double>, Box<Double>),
}

/// The mathematical form of a [`Double`].
pub enum DoubleView {
    Literal(Seq<char>),
    FromInt(i64),
    Sum(Box<DoubleView>, Box<DoubleView>),
    Difference(Box<DoubleView>, Box<DoubleView>),
    Product(Box<DoubleView>, Box<DoubleView>),
    Quotient(Box<DoubleView>, Box<DoubleView>),
}

/// The mathematical form of a double: the same record, with literals as
/// sequences of characters.
pub open spec fn double_view(d: Double) -> DoubleView
    decreases d,
{
    match d {
        Double::Literal(text) => DoubleView::Literal(text@),
        Double::FromInt(i) => DoubleView::FromInt(i),
        Double::Sum(a, b) => DoubleView::Sum(Box::new(double_view(*a)), Box::new(double_view(*b))),
        Double::Difference(a, b) => DoubleView::Difference(
            Box::new(double_view(*a)),
            Box::new(double_view(*b)),
        ),
        Double::Product(a, b) => DoubleView::Product(
            Box::new(double_view(*a)),
            Box::new(double_view(*b)),
        ),
        Double::Quotient(a, b) => DoubleView::Quotient(
            Box::new(double_view(*a)),
            Box::new(double_view(*b)),
        ),
    }
}

impl View for Double {
    type V = DoubleView;

    open spec fn view(&self) -> DoubleView {
        double_view(*self)
    }
}

/// An expression or a value: parsed syntax and evaluated results share this type.
#[derive(Debug, Eq)]
pub enum Elt {
    Int(i64),
    Double(Double),
    Bool(bool),
    String_(String),
    Symbol(String),
    List(Vec<Elt>),
    Vector(Vec<Elt>),
    Function { lexical_bindings: Vec<String>, body: Box<Elt> },
    BuiltinFunction(Builtin),
    Macro { lexical_bindings: Vec<String>, body: Box<Elt> },
    Nil,
}

/// The mathematical form of an [`Elt`].
pub enum EltView {
    Int(i64),
    Double(DoubleView),
    Bool(bool),
    String_(Seq<char>),
    Symbol(Seq<char>),
    List(Seq<EltView>),
    Vector(Seq<EltView>),
    Function { lexical_bindings: Seq<Seq<char>>, body: Box<EltView> },
    BuiltinFunction(Builtin),
    Macro { lexical_bindings: Seq<Seq<char>>, body: Box<EltView> },
    Nil,
}

/// The views of a sequence of names, in order.
pub open spec fn names_view(names: Seq<String>) -> Seq<Seq<char>> {
    Seq::new(names.len(), |i: int| names[i]@)
}

/// The mathematical form of a value: the same value, with strings and names as
/// sequences of characters and with lists and vectors as sequences of values.
pub open spec fn elt_view(elt: Elt) -> EltView
    decreases elt,
{
    match elt {
        Elt::Int(i) => EltView::Int(i),
        Elt::Double(d) => EltView::Double(d@),
        Elt::Bool(b) => EltView::Bool(b),
        Elt::String_(s) => EltView::String_(s@),
        Elt::Symbol(s) => EltView::Symbol(s@),
        Elt::List(items) => EltView::List(
            Seq::new(
                items@.len(),
                |i: int|
                    if 0 <= i < items@.len() {
                        elt_view(items@[i])
                    } else {
                        EltView::Nil
                    },
            ),
        ),
        Elt::Vector(items) => EltView::Vector(
            Seq::new(
                items@.len(),
                |i: int|
                    if 0 <= i < items@.len() {
                        elt_view(items@[i])
                    } else {
                        EltView::Nil
                    },
            ),
        ),
        Elt::Function { lexical_bindings, body } => EltView::Function {
            lexical_bindings: names_view(lexical_bindings@),
            body: Box::new(elt_view(*body)),
        },
        Elt::BuiltinFunction(b) => EltView::BuiltinFunction(b),
        Elt::Macro { lexical_bindings, body } => EltView::Macro {
            lexical_bindings: names_view(lexical_bindings@),
            body: Box::new(elt_view(*body)),
        },
        Elt::Nil => EltView::Nil,
    }
}

impl View for Elt {
    type V = EltView;

    open spec fn view(&self) -> EltView {
        elt_view(*self)
    }
}

/// The views of a sequence of values, in order.
pub open spec fn elts_view(elts: Seq<Elt>) -> Seq<EltView> {
    Seq::new(elts.len(), |i: int| elts[i]@)
}

/// The view of a list or vector is the sequence of its items' views.
pub proof fn lemma_items_view(elt: Elt)
    ensures
        elt matches Elt::List(items) ==> elt@ == EltView::List(elts_view(items@)),
        elt matches Elt::Vector(items) ==> elt@ == EltView::Vector(elts_view(items@)),
{
    match elt {
        Elt::List(items) => {
            assert(elt@->List_0 =~= elts_view(items@));
        },
        Elt::Vector(items) => {
            assert(elt@->Vector_0 =~= elts_view(items@));
        },
        _ => {},
    }
}

/// Copies a sequence of names.
fn clone_names(names: &Vec<String>) -> (r: Vec<String>)
    ensures
        names_view(r@) == names_view(names@),
{
    let mut out: Vec<String> = Vec::new();
    let mut i: usize = 0;
    while i < names.len()
        invariant
            i <= names.len(),
            out.len() == i,
            forall|j: int| 0 <= j < i ==> out@[j]@ == names@[j]@,
        decreases names.len() - i,
    {
        out.push(names[i].clone());
        i += 1;
    }
    assert(names_view(out@) =~= names_view(names@));
    out
}

fn clone_double(d: &Double) -> (r: Double)
    ensures
        r@ == d@,
    decreases d,
{
    match d {
        Double::Literal(text) => Double::Literal(text.clone()),
        Double::FromInt(i) => Double::FromInt(*i),
        Double::Sum(a, b) => Double::Sum(Box::new(clone_double(a)), Box::new(clone_double(b))),
        Double::Difference(a, b) => Double::Difference(
            Box::new(clone_double(a)),
            Box::new(clone_double(b)),
        ),
        Double::Product(a, b) => Double::Product(
            Box::new(clone_double(a)),
            Box::new(clone_double(b)),
        ),
        Double::Quotient(a, b) => Double::Quotient(
            Box::new(clone_double(a)),
            Box::new(clone_double(b)),
        ),
    }
}

impl Clone for Double {
    fn clone(&self) -> (r: Self)
        ensures
            r@ == self@,
    {
        clone_double(self)
    }
}

fn clone_elt(elt: &Elt) -> (r: Elt)
    ensures
        r@ == elt@,
    decreases elt,
{
    match elt {
        Elt::Int(i) => Elt::Int(*i),
        Elt::Double(d) => Elt::Double(clone_double(d)),
        Elt::Bool(b) => Elt::Bool(*b),
        Elt::String_(s) => Elt::String_(s.clone()),
        Elt::Symbol(s) => Elt::Symbol(s.clone()),
        Elt::List(items) => {
            let mut out: Vec<Elt> = Vec::new();
            let mut i: usize = 0;
            while i < items.len()
                invariant
                    i <= items.len(),
                    out.len() == i,
                    forall|j: int| 0 <= j < i ==> out@[j]@ == items@[j]@,
                    elt is List && elt->List_0 == *items,
                decreases items.len() - i,
            {
                out.push(clone_elt(&items[i]));
                i += 1;
            }
            let r = Elt::List(out);
            proof {
                lemma_items_view(r);
                lemma_items_view(*elt);
                assert(elts_view(out@) =~= elts_view(items@));
            }
            r
        },
        Elt::Vector(items) => {
            let mut out: Vec<Elt> = Vec::new();
            let mut i: usize = 0;
            while i < items.len()
                invariant
                    i <= items.len(),
                    out.len() == i,
                    forall|j: int| 0 <= j < i ==> out@[j]@ == items@[j]@,
                    elt is Vector && elt->Vector_0 == *items,
                decreases items.len() - i,
            {
                out.push(clone_elt(&items[i]));
                i += 1;
            }
            let r = Elt::Vector(out);
            proof {
                lemma_items_view(r);
                lemma_items_view(*elt);
                assert(elts_view(out@) =~= elts_view(items@));
            }
            r
        },
        Elt::Function { lexical_bindings, body } => Elt::Function {
            lexical_bindings: clone_names(lexical_bindings),
            body: Box::new(clone_elt(body)),
        },
        Elt::BuiltinFunction(b) => Elt::BuiltinFunction(*b),
        Elt::Macro { lexical_bindings, body } => Elt::Macro {
            lexical_bindings: clone_names(lexical_bindings),
            body: Box::new(clone_elt(body)),
        },
        Elt::Nil => Elt::Nil,
    }
}

impl Clone for Elt {
    fn clone(&self) -> (r: Self)
        ensures
            r@ == self@,
    {
        clone_elt(self)
    }
}

/// One part of what the printer writes: literal text, or a double that the
/// caller renders in its standard decimal form.
#[derive(Debug, Eq)]
pub enum Piece {
    Text(String),
    Number(Double),
}

/// The mathematical form of a [`Piece`].
pub enum PieceView {
    Text(Seq<char>),
    Number(DoubleView),
}

impl View for Piece {
    type V = PieceView;

    open spec fn view(&self) -> PieceView {
        match self {
            Piece::Text(text) => PieceView::Text(text@),
            Piece::Number(d) => PieceView::Number(d@),
        }
    }
}

impl Clone for Piece {
    fn clone(&self) -> (r: Self)
        ensures
            r@ == self@,
    {
        match self {
            Piece::Text(text) => Piece::Text(text.clone()),
            Piece::Number(d) => Piece::Number(d.clone()),
        }
    }
}

/// The views of a sequence of pieces, in order.
pub open spec fn pieces_view(pieces: Seq<Piece>) -> Seq<PieceView> {
    Seq::new(pieces.len(), |i: int| pieces[i]@)
}

/// A name bound to a value.
#[derive(Debug, PartialEq, Eq)]
pub struct Binding {
    pub name: String,
    pub value: Elt,
}

/// The mapping that a sequence of bindings stands for: a later binding of a
/// name replaces an earlier one.
pub open spec fn bindings_view(bindings: Seq<Binding>) -> Map<Seq<char>, EltView>
    decreases bindings.len(),
{
    if bindings.len() == 0 {
        Map::empty()
    } else {
        bindings_view(bindings.drop_last()).insert(bindings.last().name@, bindings.last().value@)
    }
}

/// The binding at `i` decides the name `k` when no later binding names `k`.
pub proof fn lemma_bindings_found(bindings: Seq<Binding>, k: Seq<char>, i: int)
    requires
        0 <= i < bindings.len(),
        bindings[i].name@ == k,
        forall|j: int| i < j < bindings.len() ==> bindings[j].name@ != k,
    ensures
        bindings_view(bindings).contains_key(k),
        bindings_view(bindings)[k] == bindings[i].value@,
    decreases bindings.len(),
{
    if i < bindings.len() - 1 {
        lemma_bindings_found(bindings.drop_last(), k, i);
    }
}

/// A name that no binding names is unbound.
pub proof fn lemma_bindings_absent(bindings: Seq<Binding>, k: Seq<char>)
    requires
        forall|j: int| 0 <= j < bindings.len() ==> bindings[j].name@ != k,
    ensures
        !bindings_view(bindings).contains_key(k),
    decreases bindings.len(),
{
    if bindings.len() > 0 {
        lemma_bindings_absent(bindings.drop_last(), k);
    }
}

/// Putting a binding of the same name in the place of the last binding of a
/// name binds the name anew and changes nothing else.
pub proof fn lemma_bindings_replaced(bindings: Seq<Binding>, i: int, b: Binding)
    requires
        0 <= i < bindings.len(),
        bindings[i].name@ == b.name@,
        forall|j: int| i < j < bindings.len() ==> bindings[j].name@ != b.name@,
    ensures
        bindings_view(bindings.update(i, b)) == bindings_view(bindings).insert(b.name@, b.value@),
    decreases bindings.len(),
{
    let updated = bindings.update(i, b);
    if i == bindings.len() - 1 {
        assert(updated.drop_last() =~= bindings.drop_last());
        assert(bindings_view(updated) =~= bindings_view(bindings).insert(b.name@, b.value@));
    } else {
        lemma_bindings_replaced(bindings.drop_last(), i, b);
        assert(updated.drop_last() =~= bindings.drop_last().update(i, b));
        assert(bindings_view(updated) =~= bindings_view(bindings).insert(b.name@, b.value@));
    }
}

/// Whether no two of the bindings have the same name.
pub open spec fn distinct_names(bindings: Seq<Binding>) -> bool {
    forall|i: int, j: int|
        0 <= i < j < bindings.len() ==> (#[trigger] bindings[i]).name@ != (
        #[trigger] bindings[j]).name@
}

/// The bindings visible during one evaluation: a mapping from names to values.
///
/// Where a name occurs more than once, its last binding counts. A scope that is
/// built by [`Scope::new`] and [`Scope::insert`] binds no name twice. Two scopes
/// are equal when they bind the same names to the same values, in whatever
/// order.
#[derive(Debug, Eq)]
pub struct Scope {
    pub bindings: Vec<Binding>,
}

impl View for Scope {
    type V = Map<Seq<char>, EltView>;

    open spec fn view(&self) -> Map<Seq<char>, EltView> {
        bindings_view(self.bindings@)
    }
}

impl Scope {
    /// The scope that binds nothing.
    pub fn new() -> (r: Scope)
        ensures
            r@ == Map::<Seq<char>, EltView>::empty(),
            r.distinct(),
    {
        Scope { bindings: Vec::new() }
    }

    /// Whether no name is bound twice.
    pub open spec fn distinct(&self) -> bool {
        distinct_names(self.bindings@)
    }

    /// The place of the last binding of `name`, if there is one.
    fn position(&self, name: &String) -> (r: Option<usize>)
        ensures
            match r {
                Some(i) => {
                    &&& i < self.bindings.len()
                    &&& self.bindings@[i as int].name@ == name@
                    &&& forall|j: int|
                        i < j < self.bindings.len() ==> self.bindings@[j].name@ != name@
                },
                None => forall|j: int|
                    0 <= j < self.bindings.len() ==> self.bindings@[j].name@ != name@,
            },
    {
        let mut i: usize = self.bindings.len();
        while i > 0
            invariant
                i <= self.bindings.len(),
                forall|j: int| i <= j < self.bindings.len() ==> self.bindings@[j].name@ != name@,
            decreases i,
        {
            i -= 1;
            if self.bindings[i].name == *name {
                return Some(i);
            }
        }
        None
    }

    /// Binds `name` to `value`, replacing what `name` was bound to.
    pub fn insert(&mut self, name: String, value: Elt)
        ensures
            final(self)@ == old(self)@.insert(name@, value@),
            old(self).distinct() ==> final(self).distinct(),
    {
        match self.position(&name) {
            Some(i) => {
                proof {
                    lemma_bindings_replaced(self.bindings@, i as int, Binding { name, value });
                }
                self.bindings[i] = Binding { name, value };
            },
            None => {
                self.bindings.push(Binding { name, value });
                assert(self.bindings@.drop_last() =~= old(self).bindings@);
            },
        }
    }

    /// The value that `name` is bound to, if it is bound.
    pub fn get(&self, name: &String) -> (r: Option<&Elt>)
        ensures
            r is Some <==> self@.contains_key(name@),
            r matches Some(value) ==> value@ == self@[name@],
    {
        match self.position(name) {
            Some(i) => {
                proof {
                    lemma_bindings_found(self.bindings@, name@, i as int);
                }
                Some(&self.bindings[i].value)
            },
            None => {
                proof {
                    lemma_bindings_absent(self.bindings@, name@);
                }
                None
            },
        }
    }
}

impl Clone for Scope {
    fn clone(&self) -> (r: Self)
        ensures
            r@ == self@,
            self.distinct() ==> r.distinct(),
    {
        let mut out: Vec<Binding> = Vec::new();
        let mut i: usize = 0;
        while i < self.bindings.len()
            invariant
                i <= self.bindings.len(),
                out.len() == i,
                forall|j: int| 0 <= j < i ==> out@[j].name@ == self.bindings@[j].name@,
                bindings_view(out@) == bindings_view(self.bindings@.take(i as int)),
            decreases self.bindings.len() - i,
        {
            let b = &self.bindings[i];
            let ghost before = out@;
            out.push(Binding { name: b.name.clone(), value: b.value.clone() });
            proof {
                assert(out@.drop_last() =~= before);
                assert(self.bindings@.take(i + 1).drop_last() =~= self.bindings@.take(i as int));
            }
            i += 1;
        }
        assert(self.bindings@.take(i as int) =~= self.bindings@);
        Scope { bindings: out }
    }
}

/// The state of the interpreter: the root scope, which every `def` writes; what
/// `print` and `println` have written, in order; and the limit on the depth of
/// nested calls, beyond which an evaluation fails.
#[derive(Debug, Eq)]
pub struct Runtime {
    pub root_scope: Scope,
    pub output: Vec<Piece>,
    pub depth_limit: usize,
}

impl Clone for Runtime {
    fn clone(&self) -> (r: Self)
        ensures
            r@ == self@,
            r.depth_limit == self.depth_limit,
            self.root_scope.distinct() ==> r.root_scope.distinct(),
    {
        let mut output: Vec<Piece> = Vec::new();
        let mut i: usize = 0;
        while i < self.output.len()
            invariant
                i <= self.output.len(),
                output.len() == i,
                forall|j: int| 0 <= j < i ==> output@[j]@ == self.output@[j]@,
            decreases self.output.len() - i,
        {
            output.push(self.output[i].clone());
            i += 1;
        }
        assert(pieces_view(output@) =~= pieces_view(self.output@));
        Runtime { root_scope: self.root_scope.clone(), output, depth_limit: self.depth_limit }
    }
}

/// The part of a [`Runtime`] that evaluation changes.
pub struct RuntimeView {
    pub root: Map<Seq<char>, EltView>,
    pub output: Seq<PieceView>,
}

impl View for Runtime {
    type V = RuntimeView;

    open spec fn view(&self) -> RuntimeView {
        RuntimeView { root: self.root_scope@, output: pieces_view(self.output@) }
    }
}

} // verus!
