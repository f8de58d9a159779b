use vstd::prelude::*;
use crate::token::Token;
use crate::ops::{OpKind, UnaryOpKind, op_kind_of, unary_op_kind_of};
use crate::tree::{
    NodeType, Node, SyntaxPos, KindFilter, select_children, significant_children, positions,
    errors_in, lemma_filter_take_step,
};

verus! {

/// Returns `from` if it is of kind `kind`
fn cast_into<'a>(from: Node<'a>, kind: NodeType) -> (res: Option<Node<'a>>)
    ensures
        res is Some <==> from@.kind() == kind,
        res matches Some(n) ==> n == from && n@.valid(),
{
    if from.kind() == kind {
        Some(from)
    } else {
        None
    }
}

/// A TypedNode is simply a wrapper around an untyped node to provide a type
/// system in some sense.
pub trait TypedNode<'a>: Sized {
    /// The kinds of node that this type stands for
    spec fn accepts_kind(kind: NodeType) -> bool;

    /// The untyped node inside
    spec fn spec_node(&self) -> Node<'a>;

    /// Cast an untyped node into this strongly-typed node. This will return
    /// None if the type was not correct.
    fn cast(from: Node<'a>) -> (res: Option<Self>)
        ensures
            res is Some <==> Self::accepts_kind(from@.kind()),
            res matches Some(t) ==> t.spec_node() == from,
    ;

    /// Return a reference to the inner untyped node
    fn node(&self) -> (res: &Node<'a>)
        ensures
            *res == self.spec_node(),
            res@.valid(),
            Self::accepts_kind(res@.kind()),
    ;

    /// Return the inner untyped node
    fn into_node(self) -> (res: Node<'a>)
        ensures
            res == self.spec_node(),
            res@.valid(),
            Self::accepts_kind(res@.kind()),
    ;

    /// Return all non-trivia (so no comments, whitespace, errors) children
    fn children(&self) -> (res: Vec<Node<'a>>)
        ensures
            positions(res@) == significant_children(self.spec_node()@),
    {
        self.node().select(KindFilter::Significant)
    }

    /// Return all errors of all children, recursively
    fn errors(&self) -> (res: Vec<Node<'a>>)
        ensures
            positions(res@) == errors_in(self.spec_node()@),
    {
        self.node().errors()
    }
}

/// The positions of a sequence of typed nodes
pub open spec fn typed_positions<'a, T: TypedNode<'a>>(nodes: Seq<T>) -> Seq<SyntaxPos> {
    nodes.map_values(|t: T| t.spec_node()@)
}

/// A child position whose kind `T` stands for
pub open spec fn castable<'a, T: TypedNode<'a>>() -> spec_fn(SyntaxPos) -> bool {
    |c: SyntaxPos| T::accepts_kind(c.kind())
}

/// The children of the node at `p` that cast into `T`, in order
pub open spec fn children_as<'a, T: TypedNode<'a>>(p: SyntaxPos) -> Seq<SyntaxPos> {
    p.children().filter(castable::<'a, T>())
}

/// Casts every child of `node` that has the right kind into `T`
fn cast_children<'a, T: TypedNode<'a>>(node: &Node<'a>) -> (res: Vec<T>)
    ensures
        typed_positions(res@) == children_as::<'a, T>(node@),
{
    let n = node.child_count();
    let ghost all = node@.children();
    let mut res: Vec<T> = Vec::new();
    let mut i: usize = 0;
    while i < n
        invariant
            i <= n,
            n == all.len(),
            all == node@.children(),
            typed_positions(res@) == all.take(i as int).filter(castable::<'a, T>()),
        decreases n - i,
    {
        let child = node.child(i);
        proof {
            lemma_filter_take_step(all, castable::<'a, T>(), i as int);
        }
        match T::cast(child) {
            Some(t) => {
                let ghost prev = res@;
                res.push(t);
                assert(typed_positions(res@) =~= typed_positions(prev).push(all[i as int]));
            },
            None => {},
        }
        i = i + 1;
    }
    assert(all.take(n as int) =~= all);
    res
}

/// Provides the function `.entries()`
pub trait EntryHolder<'a>: TypedNode<'a> {
    /// Return all key=value entries
    fn entries(&self) -> (res: Vec<SetEntry<'a>>)
        ensures
            typed_positions(res@) == children_as::<'a, SetEntry<'a>>(self.spec_node()@),
    {
        cast_children(self.node())
    }

    /// Return all inherit entries
    fn inherits(&self) -> (res: Vec<Inherit<'a>>)
        ensures
            typed_positions(res@) == children_as::<'a, Inherit<'a>>(self.spec_node()@),
    {
        cast_children(self.node())
    }
}

/// Provides the function `.inner()` for wrapping types like parenthensis
pub trait Wrapper<'a>: TypedNode<'a> {
    /// Return the inner value
    fn inner(&self) -> (res: Node<'a>)
        requires
            significant_children(self.spec_node()@).len() > 1,
        ensures
            res@ == significant_children(self.spec_node()@)[1],
    {
        self.node().nth_selected(KindFilter::Significant, 1)
    }
}

/// Provides the function `.inner()` for transparent wrappers like root
pub trait LightWrapper<'a>: TypedNode<'a> {
    /// Return the inner value
    fn inner(&self) -> (res: Node<'a>)
        requires
            significant_children(self.spec_node()@).len() > 0,
        ensures
            res@ == significant_children(self.spec_node()@)[0],
    {
        self.node().nth_selected(KindFilter::Significant, 0)
    }
}

/// An identifier
pub struct Ident<'a>(Node<'a>);

impl<'a> Ident<'a> {
    #[verifier::type_invariant]
    spec fn inv(self) -> bool {
        self.0@.valid() && self.0@.kind() == NodeType::Token(Token::Ident)
    }
}

impl<'a> TypedNode<'a> for Ident<'a> {
    open spec fn accepts_kind(kind: NodeType) -> bool {
        kind == NodeType::Token(Token::Ident)
    }

    closed spec fn spec_node(&self) -> Node<'a> {
        self.0
    }

    fn cast(from: Node<'a>) -> (res: Option<Self>) {
        match cast_into(from, NodeType::Token(Token::Ident)) {
            Some(node) => Some(Ident(node)),
            None => None,
        }
    }

    fn node(&self) -> (res: &Node<'a>) {
        proof {
            use_type_invariant(self);
            assert(Self::accepts_kind(self.0@.kind()));
        }
        &self.0
    }

    fn into_node(self) -> (res: Node<'a>) {
        proof {
            use_type_invariant(&self);
            assert(Self::accepts_kind(self.0@.kind()));
        }
        self.0
    }
}

/// A function application
pub struct Apply<'a>(Node<'a>);

impl<'a> Apply<'a> {
    #[verifier::type_invariant]
    spec fn inv(self) -> bool {
        self.0@.valid() && self.0@.kind() == NodeType::Apply
    }
}

impl<'a> TypedNode<'a> for Apply<'a> {
    open spec fn accepts_kind(kind: NodeType) -> bool {
        kind == NodeType::Apply
    }

    closed spec fn spec_node(&self) -> Node<'a> {
        self.0
    }

    fn cast(from: Node<'a>) -> (res: Option<Self>) {
        match cast_into(from, NodeType::Apply) {
            Some(node) => Some(Apply(node)),
            None => None,
        }
    }

    fn node(&self) -> (res: &Node<'a>) {
        proof {
            use_type_invariant(self);
            assert(Self::accepts_kind(self.0@.kind()));
        }
        &self.0
    }

    fn into_node(self) -> (res: Node<'a>) {
        proof {
            use_type_invariant(&self);
            assert(Self::accepts_kind(self.0@.kind()));
        }
        self.0
    }
}

impl<'a> Apply<'a> {
    /// Return the lambda being applied
    pub fn lambda(&self) -> (res: Node<'a>)
        requires
            significant_children(self.spec_node()@).len() > 0,
        ensures
            res@ == significant_children(self.spec_node()@)[0],
    {
        self.node().nth_selected(KindFilter::Significant, 0)
    }

    /// Return the value which the lambda is being applied with
    pub fn value(&self) -> (res: Node<'a>)
        requires
            significant_children(self.spec_node()@).len() > 1,
        ensures
            res@ == significant_children(self.spec_node()@)[1],
    {
        self.node().nth_selected(KindFilter::Significant, 1)
    }
}

/// An `assert` expression
pub struct Assert<'a>(Node<'a>);

impl<'a> Assert<'a> {
    #[verifier::type_invariant]
    spec fn inv(self) -> bool {
        self.0@.valid() && self.0@.kind() == NodeType::Assert
    }
}

impl<'a> TypedNode<'a> for Assert<'a> {
    open spec fn accepts_kind(kind: NodeType) -> bool {
        kind == NodeType::Assert
    }

    closed spec fn spec_node(&self) -> Node<'a> {
        self.0
    }

    fn cast(from: Node<'a>) -> (res: Option<Self>) {
        match cast_into(from, NodeType::Assert) {
            Some(node) => Some(Assert(node)),
            None => None,
        }
    }

    fn node(&self) -> (res: &Node<'a>) {
        proof {
            use_type_invariant(self);
            assert(Self::accepts_kind(self.0@.kind()));
        }
        &self.0
    }

    fn into_node(self) -> (res: Node<'a>) {
        proof {
            use_type_invariant(&self);
            assert(Self::accepts_kind(self.0@.kind()));
        }
        self.0
    }
}

impl<'a> Assert<'a> {
    /// Return the assert condition
    pub fn condition(&self) -> (res: Node<'a>)
        requires
            significant_children(self.spec_node()@).len() > 1,
        ensures
            res@ == significant_children(self.spec_node()@)[1],
    {
        self.node().nth_selected(KindFilter::Significant, 1)
    }

    /// Return the success body
    pub fn body(&self) -> (res: Node<'a>)
        requires
            significant_children(self.spec_node()@).len() > 3,
        ensures
            res@ == significant_children(self.spec_node()@)[3],
    {
        self.node().nth_selected(KindFilter::Significant, 3)
    }
}

/// A path of attribute names, like `a.b.c`
pub struct Attribute<'a>(Node<'a>);

impl<'a> Attribute<'a> {
    #[verifier::type_invariant]
    spec fn inv(self) -> bool {
        self.0@.valid() && self.0@.kind() == NodeType::Attribute
    }
}

impl<'a> TypedNode<'a> for Attribute<'a> {
    open spec fn accepts_kind(kind: NodeType) -> bool {
        kind == NodeType::Attribute
    }

    closed spec fn spec_node(&self) -> Node<'a> {
        self.0
    }

    fn cast(from: Node<'a>) -> (res: Option<Self>) {
        match cast_into(from, NodeType::Attribute) {
            Some(node) => Some(Attribute(node)),
            None => None,
        }
    }

    fn node(&self) -> (res: &Node<'a>) {
        proof {
            use_type_invariant(self);
            assert(Self::accepts_kind(self.0@.kind()));
        }
        &self.0
    }

    fn into_node(self) -> (res: Node<'a>) {
        proof {
            use_type_invariant(&self);
            assert(Self::accepts_kind(self.0@.kind()));
        }
        self.0
    }
}

/// A dynamic attribute name, like `${x}`
pub struct Dynamic<'a>(Node<'a>);

impl<'a> Dynamic<'a> {
    #[verifier::type_invariant]
    spec fn inv(self) -> bool {
        self.0@.valid() && self.0@.kind() == NodeType::Dynamic
    }
}

impl<'a> TypedNode<'a> for Dynamic<'a> {
    open spec fn accepts_kind(kind: NodeType) -> bool {
        kind == NodeType::Dynamic
    }

    closed spec fn spec_node(&self) -> Node<'a> {
        self.0
    }

    fn cast(from: Node<'a>) -> (res: Option<Self>) {
        match cast_into(from, NodeType::Dynamic) {
            Some(node) => Some(Dynamic(node)),
            None => None,
        }
    }

    fn node(&self) -> (res: &Node<'a>) {
        proof {
            use_type_invariant(self);
            assert(Self::accepts_kind(self.0@.kind()));
        }
        &self.0
    }

    fn into_node(self) -> (res: Node<'a>) {
        proof {
            use_type_invariant(&self);
            assert(Self::accepts_kind(self.0@.kind()));
        }
        self.0
    }
}

impl<'a> Wrapper<'a> for Dynamic<'a> {}

/// A piece of source that could not be parsed
pub struct Error<'a>(Node<'a>);

impl<'a> Error<'a> {
    #[verifier::type_invariant]
    spec fn inv(self) -> bool {
        self.0@.valid() && self.0@.kind() == NodeType::Error
    }
}

impl<'a> TypedNode<'a> for Error<'a> {
    open spec fn accepts_kind(kind: NodeType) -> bool {
        kind == NodeType::Error
    }

    closed spec fn spec_node(&self) -> Node<'a> {
        self.0
    }

    fn cast(from: Node<'a>) -> (res: Option<Self>) {
        match cast_into(from, NodeType::Error) {
            Some(node) => Some(Error(node)),
            None => None,
        }
    }

    fn node(&self) -> (res: &Node<'a>) {
        proof {
            use_type_invariant(self);
            assert(Self::accepts_kind(self.0@.kind()));
        }
        &self.0
    }

    fn into_node(self) -> (res: Node<'a>) {
        proof {
            use_type_invariant(&self);
            assert(Self::accepts_kind(self.0@.kind()));
        }
        self.0
    }
}

/// An `if ... then ... else ...` expression
pub struct IfElse<'a>(Node<'a>);

impl<'a> IfElse<'a> {
    #[verifier::type_invariant]
    spec fn inv(self) -> bool {
        self.0@.valid() && self.0@.kind() == NodeType::IfElse
    }
}

impl<'a> TypedNode<'a> for IfElse<'a> {
    open spec fn accepts_kind(kind: NodeType) -> bool {
        kind == NodeType::IfElse
    }

    closed spec fn spec_node(&self) -> Node<'a> {
        self.0
    }

    fn cast(from: Node<'a>) -> (res: Option<Self>) {
        match cast_into(from, NodeType::IfElse) {
            Some(node) => Some(IfElse(node)),
            None => None,
        }
    }

    fn node(&self) -> (res: &Node<'a>) {
        proof {
            use_type_invariant(self);
            assert(Self::accepts_kind(self.0@.kind()));
        }
        &self.0
    }

    fn into_node(self) -> (res: Node<'a>) {
        proof {
            use_type_invariant(&self);
            assert(Self::accepts_kind(self.0@.kind()));
        }
        self.0
    }
}

impl<'a> IfElse<'a> {
    /// Return the condition
    pub fn condition(&self) -> (res: Node<'a>)
        requires
            significant_children(self.spec_node()@).len() > 1,
        ensures
            res@ == significant_children(self.spec_node()@)[1],
    {
        self.node().nth_selected(KindFilter::Significant, 1)
    }

    /// Return the success body
    pub fn body(&self) -> (res: Node<'a>)
        requires
            significant_children(self.spec_node()@).len() > 3,
        ensures
            res@ == significant_children(self.spec_node()@)[3],
    {
        self.node().nth_selected(KindFilter::Significant, 3)
    }

    /// Return the else body
    pub fn else_body(&self) -> (res: Node<'a>)
        requires
            significant_children(self.spec_node()@).len() > 5,
        ensures
            res@ == significant_children(self.spec_node()@)[5],
    {
        self.node().nth_selected(KindFilter::Significant, 5)
    }
}

/// Indexing a set, like `a.b`
pub struct IndexSet<'a>(Node<'a>);

impl<'a> IndexSet<'a> {
    #[verifier::type_invariant]
    spec fn inv(self) -> bool {
        self.0@.valid() && self.0@.kind() == NodeType::IndexSet
    }
}

impl<'a> TypedNode<'a> for IndexSet<'a> {
    open spec fn accepts_kind(kind: NodeType) -> bool {
        kind == NodeType::IndexSet
    }

    closed spec fn spec_node(&self) -> Node<'a> {
        self.0
    }

    fn cast(from: Node<'a>) -> (res: Option<Self>) {
        match cast_into(from, NodeType::IndexSet) {
            Some(node) => Some(IndexSet(node)),
            None => None,
        }
    }

    fn node(&self) -> (res: &Node<'a>) {
        proof {
            use_type_invariant(self);
            assert(Self::accepts_kind(self.0@.kind()));
        }
        &self.0
    }

    fn into_node(self) -> (res: Node<'a>) {
        proof {
            use_type_invariant(&self);
            assert(Self::accepts_kind(self.0@.kind()));
        }
        self.0
    }
}

impl<'a> IndexSet<'a> {
    /// Return the set being indexed
    pub fn set(&self) -> (res: Node<'a>)
        requires
            significant_children(self.spec_node()@).len() > 0,
        ensures
            res@ == significant_children(self.spec_node()@)[0],
    {
        self.node().nth_selected(KindFilter::Significant, 0)
    }

    /// Return the index
    pub fn index(&self) -> (res: Node<'a>)
        requires
            significant_children(self.spec_node()@).len() > 2,
        ensures
            res@ == significant_children(self.spec_node()@)[2],
    {
        self.node().nth_selected(KindFilter::Significant, 2)
    }
}

/// An `inherit` entry
pub struct Inherit<'a>(Node<'a>);

impl<'a> Inherit<'a> {
    #[verifier::type_invariant]
    spec fn inv(self) -> bool {
        self.0@.valid() && self.0@.kind() == NodeType::Inherit
    }
}

impl<'a> TypedNode<'a> for Inherit<'a> {
    open spec fn accepts_kind(kind: NodeType) -> bool {
        kind == NodeType::Inherit
    }

    closed spec fn spec_node(&self) -> Node<'a> {
        self.0
    }

    fn cast(from: Node<'a>) -> (res: Option<Self>) {
        match cast_into(from, NodeType::Inherit) {
            Some(node) => Some(Inherit(node)),
            None => None,
        }
    }

    fn node(&self) -> (res: &Node<'a>) {
        proof {
            use_type_invariant(self);
            assert(Self::accepts_kind(self.0@.kind()));
        }
        &self.0
    }

    fn into_node(self) -> (res: Node<'a>) {
        proof {
            use_type_invariant(&self);
            assert(Self::accepts_kind(self.0@.kind()));
        }
        self.0
    }
}

/// The set that an `inherit` takes its keys from
pub struct InheritFrom<'a>(Node<'a>);

impl<'a> InheritFrom<'a> {
    #[verifier::type_invariant]
    spec fn inv(self) -> bool {
        self.0@.valid() && self.0@.kind() == NodeType::InheritFrom
    }
}

impl<'a> TypedNode<'a> for InheritFrom<'a> {
    open spec fn accepts_kind(kind: NodeType) -> bool {
        kind == NodeType::InheritFrom
    }

    closed spec fn spec_node(&self) -> Node<'a> {
        self.0
    }

    fn cast(from: Node<'a>) -> (res: Option<Self>) {
        match cast_into(from, NodeType::InheritFrom) {
            Some(node) => Some(InheritFrom(node)),
            None => None,
        }
    }

    fn node(&self) -> (res: &Node<'a>) {
        proof {
            use_type_invariant(self);
            assert(Self::accepts_kind(self.0@.kind()));
        }
        &self.0
    }

    fn into_node(self) -> (res: Node<'a>) {
        proof {
            use_type_invariant(&self);
            assert(Self::accepts_kind(self.0@.kind()));
        }
        self.0
    }
}

impl<'a> Wrapper<'a> for InheritFrom<'a> {}

/// A string with interpolations
pub struct Interpol<'a>(Node<'a>);

impl<'a> Interpol<'a> {
    #[verifier::type_invariant]
    spec fn inv(self) -> bool {
        self.0@.valid() && self.0@.kind() == NodeType::Interpol
    }
}

impl<'a> TypedNode<'a> for Interpol<'a> {
    open spec fn accepts_kind(kind: NodeType) -> bool {
        kind == NodeType::Interpol
    }

    closed spec fn spec_node(&self) -> Node<'a> {
        self.0
    }

    fn cast(from: Node<'a>) -> (res: Option<Self>) {
        match cast_into(from, NodeType::Interpol) {
            Some(node) => Some(Interpol(node)),
            None => None,
        }
    }

    fn node(&self) -> (res: &Node<'a>) {
        proof {
            use_type_invariant(self);
            assert(Self::accepts_kind(self.0@.kind()));
        }
        &self.0
    }

    fn into_node(self) -> (res: Node<'a>) {
        proof {
            use_type_invariant(&self);
            assert(Self::accepts_kind(self.0@.kind()));
        }
        self.0
    }
}

/// An interpolated expression inside a string
pub struct InterpolAst<'a>(Node<'a>);

impl<'a> InterpolAst<'a> {
    #[verifier::type_invariant]
    spec fn inv(self) -> bool {
        self.0@.valid() && self.0@.kind() == NodeType::InterpolAst
    }
}

impl<'a> TypedNode<'a> for InterpolAst<'a> {
    open spec fn accepts_kind(kind: NodeType) -> bool {
        kind == NodeType::InterpolAst
    }

    closed spec fn spec_node(&self) -> Node<'a> {
        self.0
    }

    fn cast(from: Node<'a>) -> (res: Option<Self>) {
        match cast_into(from, NodeType::InterpolAst) {
            Some(node) => Some(InterpolAst(node)),
            None => None,
        }
    }

    fn node(&self) -> (res: &Node<'a>) {
        proof {
            use_type_invariant(self);
            assert(Self::accepts_kind(self.0@.kind()));
        }
        &self.0
    }

    fn into_node(self) -> (res: Node<'a>) {
        proof {
            use_type_invariant(&self);
            assert(Self::accepts_kind(self.0@.kind()));
        }
        self.0
    }
}

impl<'a> LightWrapper<'a> for InterpolAst<'a> {}

/// A literal piece of an interpolated string
pub struct InterpolLiteral<'a>(Node<'a>);

impl<'a> InterpolLiteral<'a> {
    #[verifier::type_invariant]
    spec fn inv(self) -> bool {
        self.0@.valid() && self.0@.kind() == NodeType::InterpolLiteral
    }
}

impl<'a> TypedNode<'a> for InterpolLiteral<'a> {
    open spec fn accepts_kind(kind: NodeType) -> bool {
        kind == NodeType::InterpolLiteral
    }

    closed spec fn spec_node(&self) -> Node<'a> {
        self.0
    }

    fn cast(from: Node<'a>) -> (res: Option<Self>) {
        match cast_into(from, NodeType::InterpolLiteral) {
            Some(node) => Some(InterpolLiteral(node)),
            None => None,
        }
    }

    fn node(&self) -> (res: &Node<'a>) {
        proof {
            use_type_invariant(self);
            assert(Self::accepts_kind(self.0@.kind()));
        }
        &self.0
    }

    fn into_node(self) -> (res: Node<'a>) {
        proof {
            use_type_invariant(&self);
            assert(Self::accepts_kind(self.0@.kind()));
        }
        self.0
    }
}

impl<'a> LightWrapper<'a> for InterpolLiteral<'a> {}

/// A function
pub struct Lambda<'a>(Node<'a>);

impl<'a> Lambda<'a> {
    #[verifier::type_invariant]
    spec fn inv(self) -> bool {
        self.0@.valid() && self.0@.kind() == NodeType::Lambda
    }
}

impl<'a> TypedNode<'a> for Lambda<'a> {
    open spec fn accepts_kind(kind: NodeType) -> bool {
        kind == NodeType::Lambda
    }

    closed spec fn spec_node(&self) -> Node<'a> {
        self.0
    }

    fn cast(from: Node<'a>) -> (res: Option<Self>) {
        match cast_into(from, NodeType::Lambda) {
            Some(node) => Some(Lambda(node)),
            None => None,
        }
    }

    fn node(&self) -> (res: &Node<'a>) {
        proof {
            use_type_invariant(self);
            assert(Self::accepts_kind(self.0@.kind()));
        }
        &self.0
    }

    fn into_node(self) -> (res: Node<'a>) {
        proof {
            use_type_invariant(&self);
            assert(Self::accepts_kind(self.0@.kind()));
        }
        self.0
    }
}

impl<'a> Lambda<'a> {
    /// Return the argument of the lambda
    pub fn arg(&self) -> (res: Node<'a>)
        requires
            significant_children(self.spec_node()@).len() > 0,
        ensures
            res@ == significant_children(self.spec_node()@)[0],
    {
        self.node().nth_selected(KindFilter::Significant, 0)
    }

    /// Return the body of the lambda
    pub fn body(&self) -> (res: Node<'a>)
        requires
            significant_children(self.spec_node()@).len() > 2,
        ensures
            res@ == significant_children(self.spec_node()@)[2],
    {
        self.node().nth_selected(KindFilter::Significant, 2)
    }
}

/// A legacy `let { ... }` set
pub struct Let<'a>(Node<'a>);

impl<'a> Let<'a> {
    #[verifier::type_invariant]
    spec fn inv(self) -> bool {
        self.0@.valid() && self.0@.kind() == NodeType::Let
    }
}

impl<'a> TypedNode<'a> for Let<'a> {
    open spec fn accepts_kind(kind: NodeType) -> bool {
        kind == NodeType::Let
    }

    closed spec fn spec_node(&self) -> Node<'a> {
        self.0
    }

    fn cast(from: Node<'a>) -> (res: Option<Self>) {
        match cast_into(from, NodeType::Let) {
            Some(node) => Some(Let(node)),
            None => None,
        }
    }

    fn node(&self) -> (res: &Node<'a>) {
        proof {
            use_type_invariant(self);
            assert(Self::accepts_kind(self.0@.kind()));
        }
        &self.0
    }

    fn into_node(self) -> (res: Node<'a>) {
        proof {
            use_type_invariant(&self);
            assert(Self::accepts_kind(self.0@.kind()));
        }
        self.0
    }
}

impl<'a> EntryHolder<'a> for Let<'a> {}

/// A `let ... in ...` expression
pub struct LetIn<'a>(Node<'a>);

impl<'a> LetIn<'a> {
    #[verifier::type_invariant]
    spec fn inv(self) -> bool {
        self.0@.valid() && self.0@.kind() == NodeType::LetIn
    }
}

impl<'a> TypedNode<'a> for LetIn<'a> {
    open spec fn accepts_kind(kind: NodeType) -> bool {
        kind == NodeType::LetIn
    }

    closed spec fn spec_node(&self) -> Node<'a> {
        self.0
    }

    fn cast(from: Node<'a>) -> (res: Option<Self>) {
        match cast_into(from, NodeType::LetIn) {
            Some(node) => Some(LetIn(node)),
            None => None,
        }
    }

    fn node(&self) -> (res: &Node<'a>) {
        proof {
            use_type_invariant(self);
            assert(Self::accepts_kind(self.0@.kind()));
        }
        &self.0
    }

    fn into_node(self) -> (res: Node<'a>) {
        proof {
            use_type_invariant(&self);
            assert(Self::accepts_kind(self.0@.kind()));
        }
        self.0
    }
}

impl<'a> EntryHolder<'a> for LetIn<'a> {}

/// A list
pub struct List<'a>(Node<'a>);

impl<'a> List<'a> {
    #[verifier::type_invariant]
    spec fn inv(self) -> bool {
        self.0@.valid() && self.0@.kind() == NodeType::List
    }
}

impl<'a> TypedNode<'a> for List<'a> {
    open spec fn accepts_kind(kind: NodeType) -> bool {
        kind == NodeType::List
    }

    closed spec fn spec_node(&self) -> Node<'a> {
        self.0
    }

    fn cast(from: Node<'a>) -> (res: Option<Self>) {
        match cast_into(from, NodeType::List) {
            Some(node) => Some(List(node)),
            None => None,
        }
    }

    fn node(&self) -> (res: &Node<'a>) {
        proof {
            use_type_invariant(self);
            assert(Self::accepts_kind(self.0@.kind()));
        }
        &self.0
    }

    fn into_node(self) -> (res: Node<'a>) {
        proof {
            use_type_invariant(&self);
            assert(Self::accepts_kind(self.0@.kind()));
        }
        self.0
    }
}

/// An item of a list
pub struct ListItem<'a>(Node<'a>);

impl<'a> ListItem<'a> {
    #[verifier::type_invariant]
    spec fn inv(self) -> bool {
        self.0@.valid() && self.0@.kind() == NodeType::ListItem
    }
}

impl<'a> TypedNode<'a> for ListItem<'a> {
    open spec fn accepts_kind(kind: NodeType) -> bool {
        kind == NodeType::ListItem
    }

    closed spec fn spec_node(&self) -> Node<'a> {
        self.0
    }

    fn cast(from: Node<'a>) -> (res: Option<Self>) {
        match cast_into(from, NodeType::ListItem) {
            Some(node) => Some(ListItem(node)),
            None => None,
        }
    }

    fn node(&self) -> (res: &Node<'a>) {
        proof {
            use_type_invariant(self);
            assert(Self::accepts_kind(self.0@.kind()));
        }
        &self.0
    }

    fn into_node(self) -> (res: Node<'a>) {
        proof {
            use_type_invariant(&self);
            assert(Self::accepts_kind(self.0@.kind()));
        }
        self.0
    }
}

impl<'a> LightWrapper<'a> for ListItem<'a> {}

/// A binary operation
pub struct Operation<'a>(Node<'a>);

impl<'a> Operation<'a> {
    #[verifier::type_invariant]
    spec fn inv(self) -> bool {
        self.0@.valid() && self.0@.kind() == NodeType::Operation
    }
}

impl<'a> TypedNode<'a> for Operation<'a> {
    open spec fn accepts_kind(kind: NodeType) -> bool {
        kind == NodeType::Operation
    }

    closed spec fn spec_node(&self) -> Node<'a> {
        self.0
    }

    fn cast(from: Node<'a>) -> (res: Option<Self>) {
        match cast_into(from, NodeType::Operation) {
            Some(node) => Some(Operation(node)),
            None => None,
        }
    }

    fn node(&self) -> (res: &Node<'a>) {
        proof {
            use_type_invariant(self);
            assert(Self::accepts_kind(self.0@.kind()));
        }
        &self.0
    }

    fn into_node(self) -> (res: Node<'a>) {
        proof {
            use_type_invariant(&self);
            assert(Self::accepts_kind(self.0@.kind()));
        }
        self.0
    }
}

/// Indexing with a default, like `a.b or c`
pub struct OrDefault<'a>(Node<'a>);

impl<'a> OrDefault<'a> {
    #[verifier::type_invariant]
    spec fn inv(self) -> bool {
        self.0@.valid() && self.0@.kind() == NodeType::OrDefault
    }
}

impl<'a> TypedNode<'a> for OrDefault<'a> {
    open spec fn accepts_kind(kind: NodeType) -> bool {
        kind == NodeType::OrDefault
    }

    closed spec fn spec_node(&self) -> Node<'a> {
        self.0
    }

    fn cast(from: Node<'a>) -> (res: Option<Self>) {
        match cast_into(from, NodeType::OrDefault) {
            Some(node) => Some(OrDefault(node)),
            None => None,
        }
    }

    fn node(&self) -> (res: &Node<'a>) {
        proof {
            use_type_invariant(self);
            assert(Self::accepts_kind(self.0@.kind()));
        }
        &self.0
    }

    fn into_node(self) -> (res: Node<'a>) {
        proof {
            use_type_invariant(&self);
            assert(Self::accepts_kind(self.0@.kind()));
        }
        self.0
    }
}

/// An expression in parentheses
pub struct Paren<'a>(Node<'a>);

impl<'a> Paren<'a> {
    #[verifier::type_invariant]
    spec fn inv(self) -> bool {
        self.0@.valid() && self.0@.kind() == NodeType::Paren
    }
}

impl<'a> TypedNode<'a> for Paren<'a> {
    open spec fn accepts_kind(kind: NodeType) -> bool {
        kind == NodeType::Paren
    }

    closed spec fn spec_node(&self) -> Node<'a> {
        self.0
    }

    fn cast(from: Node<'a>) -> (res: Option<Self>) {
        match cast_into(from, NodeType::Paren) {
            Some(node) => Some(Paren(node)),
            None => None,
        }
    }

    fn node(&self) -> (res: &Node<'a>) {
        proof {
            use_type_invariant(self);
            assert(Self::accepts_kind(self.0@.kind()));
        }
        &self.0
    }

    fn into_node(self) -> (res: Node<'a>) {
        proof {
            use_type_invariant(&self);
            assert(Self::accepts_kind(self.0@.kind()));
        }
        self.0
    }
}

impl<'a> Wrapper<'a> for Paren<'a> {}

/// The name a pattern binds the whole set to, like `args@`
pub struct PatBind<'a>(Node<'a>);

impl<'a> PatBind<'a> {
    #[verifier::type_invariant]
    spec fn inv(self) -> bool {
        self.0@.valid() && self.0@.kind() == NodeType::PatBind
    }
}

impl<'a> TypedNode<'a> for PatBind<'a> {
    open spec fn accepts_kind(kind: NodeType) -> bool {
        kind == NodeType::PatBind
    }

    closed spec fn spec_node(&self) -> Node<'a> {
        self.0
    }

    fn cast(from: Node<'a>) -> (res: Option<Self>) {
        match cast_into(from, NodeType::PatBind) {
            Some(node) => Some(PatBind(node)),
            None => None,
        }
    }

    fn node(&self) -> (res: &Node<'a>) {
        proof {
            use_type_invariant(self);
            assert(Self::accepts_kind(self.0@.kind()));
        }
        &self.0
    }

    fn into_node(self) -> (res: Node<'a>) {
        proof {
            use_type_invariant(&self);
            assert(Self::accepts_kind(self.0@.kind()));
        }
        self.0
    }
}

/// An entry of a pattern
pub struct PatEntry<'a>(Node<'a>);

impl<'a> PatEntry<'a> {
    #[verifier::type_invariant]
    spec fn inv(self) -> bool {
        self.0@.valid() && self.0@.kind() == NodeType::PatEntry
    }
}

impl<'a> TypedNode<'a> for PatEntry<'a> {
    open spec fn accepts_kind(kind: NodeType) -> bool {
        kind == NodeType::PatEntry
    }

    closed spec fn spec_node(&self) -> Node<'a> {
        self.0
    }

    fn cast(from: Node<'a>) -> (res: Option<Self>) {
        match cast_into(from, NodeType::PatEntry) {
            Some(node) => Some(PatEntry(node)),
            None => None,
        }
    }

    fn node(&self) -> (res: &Node<'a>) {
        proof {
            use_type_invariant(self);
            assert(Self::accepts_kind(self.0@.kind()));
        }
        &self.0
    }

    fn into_node(self) -> (res: Node<'a>) {
        proof {
            use_type_invariant(&self);
            assert(Self::accepts_kind(self.0@.kind()));
        }
        self.0
    }
}

/// A set pattern, like `{ a, b ? 1, ... }`
pub struct Pattern<'a>(Node<'a>);

impl<'a> Pattern<'a> {
    #[verifier::type_invariant]
    spec fn inv(self) -> bool {
        self.0@.valid() && self.0@.kind() == NodeType::Pattern
    }
}

impl<'a> TypedNode<'a> for Pattern<'a> {
    open spec fn accepts_kind(kind: NodeType) -> bool {
        kind == NodeType::Pattern
    }

    closed spec fn spec_node(&self) -> Node<'a> {
        self.0
    }

    fn cast(from: Node<'a>) -> (res: Option<Self>) {
        match cast_into(from, NodeType::Pattern) {
            Some(node) => Some(Pattern(node)),
            None => None,
        }
    }

    fn node(&self) -> (res: &Node<'a>) {
        proof {
            use_type_invariant(self);
            assert(Self::accepts_kind(self.0@.kind()));
        }
        &self.0
    }

    fn into_node(self) -> (res: Node<'a>) {
        proof {
            use_type_invariant(&self);
            assert(Self::accepts_kind(self.0@.kind()));
        }
        self.0
    }
}

/// The root of a parsed file
pub struct Root<'a>(Node<'a>);

impl<'a> Root<'a> {
    #[verifier::type_invariant]
    spec fn inv(self) -> bool {
        self.0@.valid() && self.0@.kind() == NodeType::Root
    }
}

impl<'a> TypedNode<'a> for Root<'a> {
    open spec fn accepts_kind(kind: NodeType) -> bool {
        kind == NodeType::Root
    }

    closed spec fn spec_node(&self) -> Node<'a> {
        self.0
    }

    fn cast(from: Node<'a>) -> (res: Option<Self>) {
        match cast_into(from, NodeType::Root) {
            Some(node) => Some(Root(node)),
            None => None,
        }
    }

    fn node(&self) -> (res: &Node<'a>) {
        proof {
            use_type_invariant(self);
            assert(Self::accepts_kind(self.0@.kind()));
        }
        &self.0
    }

    fn into_node(self) -> (res: Node<'a>) {
        proof {
            use_type_invariant(&self);
            assert(Self::accepts_kind(self.0@.kind()));
        }
        self.0
    }
}

impl<'a> LightWrapper<'a> for Root<'a> {}

/// A set, like `{ a = 1; }`
pub struct AttrSet<'a>(Node<'a>);

impl<'a> AttrSet<'a> {
    #[verifier::type_invariant]
    spec fn inv(self) -> bool {
        self.0@.valid() && self.0@.kind() == NodeType::AttrSet
    }
}

impl<'a> TypedNode<'a> for AttrSet<'a> {
    open spec fn accepts_kind(kind: NodeType) -> bool {
        kind == NodeType::AttrSet
    }

    closed spec fn spec_node(&self) -> Node<'a> {
        self.0
    }

    fn cast(from: Node<'a>) -> (res: Option<Self>) {
        match cast_into(from, NodeType::AttrSet) {
            Some(node) => Some(AttrSet(node)),
            None => None,
        }
    }

    fn node(&self) -> (res: &Node<'a>) {
        proof {
            use_type_invariant(self);
            assert(Self::accepts_kind(self.0@.kind()));
        }
        &self.0
    }

    fn into_node(self) -> (res: Node<'a>) {
        proof {
            use_type_invariant(&self);
            assert(Self::accepts_kind(self.0@.kind()));
        }
        self.0
    }
}

impl<'a> EntryHolder<'a> for AttrSet<'a> {}

/// A `key = value;` entry of a set
pub struct SetEntry<'a>(Node<'a>);

impl<'a> SetEntry<'a> {
    #[verifier::type_invariant]
    spec fn inv(self) -> bool {
        self.0@.valid() && self.0@.kind() == NodeType::SetEntry
    }
}

impl<'a> TypedNode<'a> for SetEntry<'a> {
    open spec fn accepts_kind(kind: NodeType) -> bool {
        kind == NodeType::SetEntry
    }

    closed spec fn spec_node(&self) -> Node<'a> {
        self.0
    }

    fn cast(from: Node<'a>) -> (res: Option<Self>) {
        match cast_into(from, NodeType::SetEntry) {
            Some(node) => Some(SetEntry(node)),
            None => None,
        }
    }

    fn node(&self) -> (res: &Node<'a>) {
        proof {
            use_type_invariant(self);
            assert(Self::accepts_kind(self.0@.kind()));
        }
        &self.0
    }

    fn into_node(self) -> (res: Node<'a>) {
        proof {
            use_type_invariant(&self);
            assert(Self::accepts_kind(self.0@.kind()));
        }
        self.0
    }
}

/// A unary operation
pub struct Unary<'a>(Node<'a>);

impl<'a> Unary<'a> {
    #[verifier::type_invariant]
    spec fn inv(self) -> bool {
        self.0@.valid() && self.0@.kind() == NodeType::Unary
    }
}

impl<'a> TypedNode<'a> for Unary<'a> {
    open spec fn accepts_kind(kind: NodeType) -> bool {
        kind == NodeType::Unary
    }

    closed spec fn spec_node(&self) -> Node<'a> {
        self.0
    }

    fn cast(from: Node<'a>) -> (res: Option<Self>) {
        match cast_into(from, NodeType::Unary) {
            Some(node) => Some(Unary(node)),
            None => None,
        }
    }

    fn node(&self) -> (res: &Node<'a>) {
        proof {
            use_type_invariant(self);
            assert(Self::accepts_kind(self.0@.kind()));
        }
        &self.0
    }

    fn into_node(self) -> (res: Node<'a>) {
        proof {
            use_type_invariant(&self);
            assert(Self::accepts_kind(self.0@.kind()));
        }
        self.0
    }
}

/// A `with ...; ...` expression
pub struct With<'a>(Node<'a>);

impl<'a> With<'a> {
    #[verifier::type_invariant]
    spec fn inv(self) -> bool {
        self.0@.valid() && self.0@.kind() == NodeType::With
    }
}

impl<'a> TypedNode<'a> for With<'a> {
    open spec fn accepts_kind(kind: NodeType) -> bool {
        kind == NodeType::With
    }

    closed spec fn spec_node(&self) -> Node<'a> {
        self.0
    }

    fn cast(from: Node<'a>) -> (res: Option<Self>) {
        match cast_into(from, NodeType::With) {
            Some(node) => Some(With(node)),
            None => None,
        }
    }

    fn node(&self) -> (res: &Node<'a>) {
        proof {
            use_type_invariant(self);
            assert(Self::accepts_kind(self.0@.kind()));
        }
        &self.0
    }

    fn into_node(self) -> (res: Node<'a>) {
        proof {
            use_type_invariant(&self);
            assert(Self::accepts_kind(self.0@.kind()));
        }
        self.0
    }
}

impl<'a> With<'a> {
    /// Return the namespace
    pub fn namespace(&self) -> (res: Node<'a>)
        requires
            significant_children(self.spec_node()@).len() > 1,
        ensures
            res@ == significant_children(self.spec_node()@)[1],
    {
        self.node().nth_selected(KindFilter::Significant, 1)
    }

    /// Return the body
    pub fn body(&self) -> (res: Node<'a>)
        requires
            significant_children(self.spec_node()@).len() > 3,
        ensures
            res@ == significant_children(self.spec_node()@)[3],
    {
        self.node().nth_selected(KindFilter::Significant, 3)
    }
}

impl<'a> Ident<'a> {
    /// Return the identifier as a string
    pub fn as_str(&self) -> (res: &'a str)
        requires
            self.spec_node()@.tree().spec_leaf_text() is Some,
        ensures
            Some(res@) == self.spec_node()@.tree().spec_leaf_text(),
    {
        self.node().leaf_text().unwrap()
    }
}

impl<'a> Attribute<'a> {
    /// Return the path as a list of identifiers: every child but trivia and dots
    pub fn path(&self) -> (res: Vec<Node<'a>>)
        ensures
            positions(res@) == select_children(
                self.spec_node()@,
                KindFilter::SignificantExcept(NodeType::Token(Token::Dot)),
            ),
    {
        self.node().select(KindFilter::SignificantExcept(NodeType::Token(Token::Dot)))
    }
}

impl<'a> Inherit<'a> {
    /// Return the set where keys are being inherited from, if any
    pub fn from(&self) -> (res: Option<InheritFrom<'a>>)
        ensures
            res is Some <==> children_as::<'a, InheritFrom<'a>>(self.spec_node()@).len() > 0,
            res matches Some(f) ==> f.spec_node()@ == children_as::<'a, InheritFrom<'a>>(
                self.spec_node()@,
            )[0],
    {
        let mut all: Vec<InheritFrom<'a>> = cast_children(self.node());
        if all.len() == 0 {
            None
        } else {
            assert(typed_positions(all@)[0] == all@[0].spec_node()@);
            Some(all.remove(0))
        }
    }
}

impl<'a> LetIn<'a> {
    /// Return the body: the third child that is neither trivia nor an entry
    pub fn body(&self) -> (res: Node<'a>)
        requires
            select_children(self.spec_node()@, KindFilter::SignificantExcept(NodeType::SetEntry)).len()
                > 2,
        ensures
            res@ == select_children(
                self.spec_node()@,
                KindFilter::SignificantExcept(NodeType::SetEntry),
            )[2],
    {
        self.node().nth_selected(KindFilter::SignificantExcept(NodeType::SetEntry), 2)
    }
}

impl<'a> List<'a> {
    /// Return the items in the list
    pub fn items(&self) -> (res: Vec<ListItem<'a>>)
        ensures
            typed_positions(res@) == children_as::<'a, ListItem<'a>>(self.spec_node()@),
    {
        cast_children(self.node())
    }
}

impl<'a> Operation<'a> {
    /// Return the first value in the operation
    pub fn value1(&self) -> (res: Node<'a>)
        requires
            significant_children(self.spec_node()@).len() > 0,
        ensures
            res@ == significant_children(self.spec_node()@)[0],
    {
        self.node().nth_selected(KindFilter::Significant, 0)
    }

    /// Return the operator: the kind of operation that the second child stands for
    pub fn operator(&self) -> (res: OpKind)
        requires
            significant_children(self.spec_node()@).len() > 1,
            significant_children(self.spec_node()@)[1].kind() matches NodeType::Token(t)
                && op_kind_of(t) is Some,
        ensures
            significant_children(self.spec_node()@)[1].kind() matches NodeType::Token(t)
                && op_kind_of(t) == Some(res),
    {
        match self.node().nth_selected(KindFilter::Significant, 1).kind() {
            NodeType::Token(token) => OpKind::from_token(token).unwrap(),
            _ => unreached(),
        }
    }

    /// Return the second value in the operation
    pub fn value2(&self) -> (res: Node<'a>)
        requires
            significant_children(self.spec_node()@).len() > 2,
        ensures
            res@ == significant_children(self.spec_node()@)[2],
    {
        self.node().nth_selected(KindFilter::Significant, 2)
    }
}

impl<'a> OrDefault<'a> {
    /// Return the indexing operation
    pub fn index(&self) -> (res: IndexSet<'a>)
        requires
            significant_children(self.spec_node()@).len() > 0,
            significant_children(self.spec_node()@)[0].kind() == NodeType::IndexSet,
        ensures
            res.spec_node()@ == significant_children(self.spec_node()@)[0],
    {
        IndexSet::cast(self.node().nth_selected(KindFilter::Significant, 0)).unwrap()
    }

    /// Return the default value
    pub fn default(&self) -> (res: Node<'a>)
        requires
            significant_children(self.spec_node()@).len() > 2,
        ensures
            res@ == significant_children(self.spec_node()@)[2],
    {
        self.node().nth_selected(KindFilter::Significant, 2)
    }
}

impl<'a> PatBind<'a> {
    /// Return the identifier the set is being bound as: the first identifier child
    pub fn name(&self) -> (res: Ident<'a>)
        requires
            children_as::<'a, Ident<'a>>(self.spec_node()@).len() > 0,
        ensures
            res.spec_node()@ == children_as::<'a, Ident<'a>>(self.spec_node()@)[0],
    {
        let mut all: Vec<Ident<'a>> = cast_children(self.node());
        assert(typed_positions(all@)[0] == all@[0].spec_node()@);
        all.remove(0)
    }
}

impl<'a> PatEntry<'a> {
    /// Return the identifier the argument is being bound as
    pub fn name(&self) -> (res: Ident<'a>)
        requires
            significant_children(self.spec_node()@).len() > 0,
            significant_children(self.spec_node()@)[0].kind() == NodeType::Token(Token::Ident),
        ensures
            res.spec_node()@ == significant_children(self.spec_node()@)[0],
    {
        Ident::cast(self.node().nth_selected(KindFilter::Significant, 0)).unwrap()
    }

    /// Return the default value, if any: the third child that is not trivia
    /// (after the name and the question mark)
    pub fn default(&self) -> (res: Option<Node<'a>>)
        ensures
            res is Some <==> significant_children(self.spec_node()@).len() > 2,
            res matches Some(n) ==> n@ == significant_children(self.spec_node()@)[2],
    {
        let mut significant = self.node().select(KindFilter::Significant);
        if significant.len() > 2 {
            assert(positions(significant@)[2] == significant@[2]@);
            Some(significant.remove(2))
        } else {
            None
        }
    }
}

impl<'a> Pattern<'a> {
    /// Return all pattern entries
    pub fn entries(&self) -> (res: Vec<PatEntry<'a>>)
        ensures
            typed_positions(res@) == children_as::<'a, PatEntry<'a>>(self.spec_node()@),
    {
        cast_children(self.node())
    }

    /// Returns true if this pattern is inexact (has an ellipsis, ...)
    pub fn ellipsis(&self) -> (res: bool)
        ensures
            res == exists|i: int|
                0 <= i < self.spec_node()@.children().len()
                    && (#[trigger] self.spec_node()@.children()[i]).kind() == NodeType::Token(
                    Token::Ellipsis,
                ),
    {
        self.node().has_child_of_kind(NodeType::Token(Token::Ellipsis))
    }
}

impl<'a> AttrSet<'a> {
    /// Returns true if this set is recursive
    pub fn recursive(&self) -> (res: bool)
        ensures
            res == exists|i: int|
                0 <= i < self.spec_node()@.children().len()
                    && (#[trigger] self.spec_node()@.children()[i]).kind() == NodeType::Token(
                    Token::Rec,
                ),
    {
        self.node().has_child_of_kind(NodeType::Token(Token::Rec))
    }
}

impl<'a> SetEntry<'a> {
    /// Return this entry's key
    pub fn key(&self) -> (res: Attribute<'a>)
        requires
            significant_children(self.spec_node()@).len() > 0,
            significant_children(self.spec_node()@)[0].kind() == NodeType::Attribute,
        ensures
            res.spec_node()@ == significant_children(self.spec_node()@)[0],
    {
        Attribute::cast(self.node().nth_selected(KindFilter::Significant, 0)).unwrap()
    }

    /// Return this entry's value
    pub fn value(&self) -> (res: Node<'a>)
        requires
            significant_children(self.spec_node()@).len() > 2,
        ensures
            res@ == significant_children(self.spec_node()@)[2],
    {
        self.node().nth_selected(KindFilter::Significant, 2)
    }
}

impl<'a> Unary<'a> {
    /// Return the operator: the kind of operation that the first child stands for
    pub fn operator(&self) -> (res: UnaryOpKind)
        requires
            significant_children(self.spec_node()@).len() > 0,
            significant_children(self.spec_node()@)[0].kind() matches NodeType::Token(t)
                && unary_op_kind_of(t) is Some,
        ensures
            significant_children(self.spec_node()@)[0].kind() matches NodeType::Token(t)
                && unary_op_kind_of(t) == Some(res),
    {
        match self.node().nth_selected(KindFilter::Significant, 0).kind() {
            NodeType::Token(token) => UnaryOpKind::from_token(token).unwrap(),
            _ => unreached(),
        }
    }

    /// Return the value in the operation
    pub fn value(&self) -> (res: Node<'a>)
        requires
            significant_children(self.spec_node()@).len() > 1,
        ensures
            res@ == significant_children(self.spec_node()@)[1],
    {
        self.node().nth_selected(KindFilter::Significant, 1)
    }
}

/// A value token: a number, a path or a string
pub struct Value<'a>(Node<'a>);

/// The kinds of node that a `Value` stands for: the value tokens
pub open spec fn is_value_kind(kind: NodeType) -> bool {
    match kind {
        NodeType::Token(t) => t.spec_is_value(),
        _ => false,
    }
}

impl<'a> Value<'a> {
    #[verifier::type_invariant]
    spec fn inv(self) -> bool {
        self.0@.valid() && is_value_kind(self.0@.kind())
    }
}

impl<'a> TypedNode<'a> for Value<'a> {
    open spec fn accepts_kind(kind: NodeType) -> bool {
        is_value_kind(kind)
    }

    closed spec fn spec_node(&self) -> Node<'a> {
        self.0
    }

    fn cast(from: Node<'a>) -> (res: Option<Self>) {
        match from.kind() {
            NodeType::Token(t) if t.is_value() => Some(Value(from)),
            _ => None,
        }
    }

    fn node(&self) -> (res: &Node<'a>) {
        proof {
            use_type_invariant(self);
            assert(Self::accepts_kind(self.0@.kind()));
        }
        &self.0
    }

    fn into_node(self) -> (res: Node<'a>) {
        proof {
            use_type_invariant(&self);
            assert(Self::accepts_kind(self.0@.kind()));
        }
        self.0
    }
}

impl<'a> Value<'a> {
    /// Return the value as a string
    pub fn as_str(&self) -> (res: &'a str)
        requires
            self.spec_node()@.tree().spec_leaf_text() is Some,
        ensures
            Some(res@) == self.spec_node()@.tree().spec_leaf_text(),
    {
        self.node().leaf_text().unwrap()
    }
}

} // verus!
