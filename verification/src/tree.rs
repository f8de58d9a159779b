use vstd::prelude::*;
use crate::token::Token;
use std::rc::Rc;

verus! {

/// The kinds of syntax nodes: either a token (a leaf) or a composite node
#[derive(Clone, Copy, Debug, PartialEq, Eq, Structural, Hash)]
pub enum NodeType {
    Apply,
    Assert,
    Attribute,
    Dynamic,
    Error,
    IfElse,
    IndexSet,
    Inherit,
    InheritFrom,
    Interpol,
    InterpolAst,
    InterpolLiteral,
    Lambda,
    Let,
    LetIn,
    List,
    ListItem,
    Operation,
    OrDefault,
    Paren,
    PatBind,
    PatEntry,
    Pattern,
    Root,
    AttrSet,
    SetEntry,
    Token(Token),
    Unary,
    With,
}

impl NodeType {
    /// A node is trivia when it is a trivia token (comment, whitespace, error).
    pub open spec fn spec_is_trivia(self) -> bool {
        match self {
            NodeType::Token(t) => t.spec_is_trivia(),
            _ => false,
        }
    }

    /// Returns true if this is a trivia token (a comment, whitespace or an error)
    #[verifier::when_used_as_spec(spec_is_trivia)]
    pub fn is_trivia(self) -> (res: bool)
        ensures
            res == self.spec_is_trivia(),
    {
        match self {
            NodeType::Token(t) => t.is_trivia(),
            _ => false,
        }
    }
}

/// An immutable node of a lossless syntax tree: a token with its text, or a
/// composite node with its children, in source order.
#[derive(Debug)]
pub enum GreenNode {
    Leaf { kind: NodeType, text: String },
    Branch { kind: NodeType, children: Vec<Rc<GreenNode>> },
}

impl GreenNode {
    pub open spec fn spec_kind(&self) -> NodeType {
        match self {
            GreenNode::Leaf { kind, .. } => *kind,
            GreenNode::Branch { kind, .. } => *kind,
        }
    }

    /// The children of this node, in source order (none for a leaf)
    pub open spec fn spec_children(&self) -> Seq<Rc<GreenNode>> {
        match self {
            GreenNode::Leaf { .. } => Seq::empty(),
            GreenNode::Branch { children, .. } => children@,
        }
    }

    /// The `i`-th child of this node
    pub open spec fn spec_child(&self, i: int) -> GreenNode {
        *self.spec_children()[i]
    }

    /// The text of this node if it is a leaf
    pub open spec fn spec_leaf_text(&self) -> Option<Seq<char>> {
        match self {
            GreenNode::Leaf { text, .. } => Some(text@),
            GreenNode::Branch { .. } => None,
        }
    }

    /// Creates a new leaf node
    pub fn new_leaf(kind: NodeType, text: String) -> (res: GreenNode)
        ensures
            res == (GreenNode::Leaf { kind, text }),
    {
        GreenNode::Leaf { kind, text }
    }

    /// Creates a new composite node
    pub fn new_branch(kind: NodeType, children: Vec<Rc<GreenNode>>) -> (res: GreenNode)
        ensures
            res == (GreenNode::Branch { kind, children }),
    {
        GreenNode::Branch { kind, children }
    }

    /// Kind of this node
    pub fn kind(&self) -> (res: NodeType)
        ensures
            res == self.spec_kind(),
    {
        match self {
            GreenNode::Leaf { kind, .. } => *kind,
            GreenNode::Branch { kind, .. } => *kind,
        }
    }

    /// Number of children of this node
    pub fn child_count(&self) -> (res: usize)
        ensures
            res == self.spec_children().len(),
    {
        match self {
            GreenNode::Leaf { .. } => 0,
            GreenNode::Branch { children, .. } => children.len(),
        }
    }

    /// The child at index `i`
    pub fn child(&self, i: usize) -> (res: &GreenNode)
        requires
            i < self.spec_children().len(),
        ensures
            *res == *self.spec_children()[i as int],
    {
        match self {
            GreenNode::Leaf { .. } => unreached(),
            GreenNode::Branch { children, .. } => &*children[i],
        }
    }

    /// The shared pointer to the child at index `i`
    fn child_rc(&self, i: usize) -> (res: &Rc<GreenNode>)
        requires
            i < self.spec_children().len(),
        ensures
            *res == self.spec_children()[i as int],
    {
        match self {
            GreenNode::Leaf { .. } => unreached(),
            GreenNode::Branch { children, .. } => &children[i],
        }
    }

    /// Another pointer to the child at index `i`
    pub(crate) fn share_child(&self, i: usize) -> (res: Rc<GreenNode>)
        requires
            i < self.spec_children().len(),
        ensures
            res == self.spec_children()[i as int],
    {
        share(self.child_rc(i))
    }

    /// Text of this node, if it is a leaf
    pub fn leaf_text(&self) -> (res: Option<&str>)
        ensures
            res is Some <==> self.spec_leaf_text() is Some,
            res matches Some(s) ==> Some(s@) == self.spec_leaf_text(),
    {
        match self {
            GreenNode::Leaf { text, .. } => Some(text.as_str()),
            GreenNode::Branch { .. } => None,
        }
    }
}

/// The node found by following `path` (child indices) from `root`.
pub open spec fn subtree_at(root: GreenNode, path: Seq<usize>) -> Option<GreenNode>
    decreases path.len(),
{
    if path.len() == 0 {
        Some(root)
    } else {
        match subtree_at(root, path.drop_last()) {
            Some(parent) => if path.last() < parent.spec_children().len() {
                Some(*parent.spec_children()[path.last() as int])
            } else {
                None
            },
            None => None,
        }
    }
}

/// A position in a syntax tree: the root of the tree and the path of child
/// indices that leads from it to the node.
pub struct SyntaxPos {
    pub root: GreenNode,
    pub path: Seq<usize>,
}

impl SyntaxPos {
    /// The path leads to a node of the tree
    pub open spec fn valid(self) -> bool {
        subtree_at(self.root, self.path) is Some
    }

    /// The node at this position
    pub open spec fn tree(self) -> GreenNode {
        subtree_at(self.root, self.path)->Some_0
    }

    pub open spec fn kind(self) -> NodeType {
        self.tree().spec_kind()
    }

    /// The position of the `i`-th child of this node
    pub open spec fn child(self, i: int) -> SyntaxPos {
        SyntaxPos { root: self.root, path: self.path.push(i as usize) }
    }

    /// The positions of all children of this node, in order
    pub open spec fn children(self) -> Seq<SyntaxPos> {
        Seq::new(self.tree().spec_children().len(), |i: int| self.child(i))
    }
}

/// A node of a syntax tree, seen from the root of its tree: it knows its
/// kind, its text or children, and where in the tree it stands.
pub struct Node<'a> {
    root: &'a GreenNode,
    green: &'a GreenNode,
    path: Vec<usize>,
}

impl<'a> View for Node<'a> {
    type V = SyntaxPos;

    closed spec fn view(&self) -> SyntaxPos {
        SyntaxPos { root: *self.root, path: self.path@ }
    }
}

impl<'a> Node<'a> {
    #[verifier::type_invariant]
    closed spec fn inv(self) -> bool {
        subtree_at(*self.root, self.path@) == Some(*self.green)
    }

    /// A node for the root of a tree
    pub fn new_root(root: &'a GreenNode) -> (res: Node<'a>)
        ensures
            res@.root == *root,
            res@.path == Seq::<usize>::empty(),
            res@.valid(),
    {
        Node { root, green: root, path: Vec::new() }
    }

    /// The green node at this position
    pub fn green(&self) -> (res: &'a GreenNode)
        ensures
            *res == self@.tree(),
            self@.valid(),
    {
        proof {
            use_type_invariant(self);
        }
        self.green
    }

    /// Kind of this node
    pub fn kind(&self) -> (res: NodeType)
        ensures
            res == self@.kind(),
            self@.valid(),
    {
        proof {
            use_type_invariant(self);
        }
        self.green.kind()
    }

    /// Text of this node, if it is a leaf
    pub fn leaf_text(&self) -> (res: Option<&'a str>)
        ensures
            res is Some <==> self@.tree().spec_leaf_text() is Some,
            res matches Some(s) ==> Some(s@) == self@.tree().spec_leaf_text(),
    {
        proof {
            use_type_invariant(self);
        }
        self.green.leaf_text()
    }

    /// Number of children of this node
    pub fn child_count(&self) -> (res: usize)
        ensures
            res == self@.tree().spec_children().len(),
            self@.valid(),
    {
        proof {
            use_type_invariant(self);
        }
        self.green.child_count()
    }

    /// The `i`-th child of this node
    pub fn child(&self, i: usize) -> (res: Node<'a>)
        requires
            i < self@.tree().spec_children().len(),
        ensures
            res@ == self@.child(i as int),
            res@.valid(),
    {
        proof {
            use_type_invariant(self);
        }
        let mut path = self.path.clone();
        assert(path@ =~= self.path@);
        path.push(i);
        let green = self.green.child(i);
        proof {
            assert(path@.drop_last() =~= self.path@);
        }
        Node { root: self.root, green, path }
    }

    /// All children of this node, in order
    pub fn children(&self) -> (res: Vec<Node<'a>>)
        ensures
            res@.map_values(|n: Node<'a>| n@) == self@.children(),
            forall|i: int| 0 <= i < res@.len() ==> (#[trigger] res@[i])@.valid(),
    {
        let n = self.child_count();
        let mut res: Vec<Node<'a>> = Vec::new();
        let mut i: usize = 0;
        while i < n
            invariant
                i <= n,
                n == self@.tree().spec_children().len(),
                res@.len() == i,
                forall|j: int| 0 <= j < i ==> (#[trigger] res@[j])@ == self@.child(j),
                forall|j: int| 0 <= j < i ==> (#[trigger] res@[j])@.valid(),
            decreases n - i,
        {
            res.push(self.child(i));
            i = i + 1;
        }
        assert(res@.map_values(|n: Node<'a>| n@) =~= self@.children());
        res
    }
}


/// Which children of a node to select, by their kind
#[derive(Clone, Copy, Debug, PartialEq, Eq, Structural)]
pub enum KindFilter {
    /// Everything but trivia
    Significant,
    /// Trivia only
    Trivia,
    /// The children of one kind
    Kind(NodeType),
    /// Everything but trivia and the children of one kind
    SignificantExcept(NodeType),
}

impl KindFilter {
    pub open spec fn spec_accepts(self, kind: NodeType) -> bool {
        match self {
            KindFilter::Significant => !kind.spec_is_trivia(),
            KindFilter::Trivia => kind.spec_is_trivia(),
            KindFilter::Kind(k) => kind == k,
            KindFilter::SignificantExcept(k) => !kind.spec_is_trivia() && kind != k,
        }
    }

    /// Returns true if a node of kind `kind` is selected
    #[verifier::when_used_as_spec(spec_accepts)]
    pub fn accepts(self, kind: NodeType) -> (res: bool)
        ensures
            res == self.spec_accepts(kind),
    {
        match self {
            KindFilter::Significant => !kind.is_trivia(),
            KindFilter::Trivia => kind.is_trivia(),
            KindFilter::Kind(k) => kind == k,
            KindFilter::SignificantExcept(k) => !kind.is_trivia() && kind != k,
        }
    }

    /// The filter as a predicate on positions
    pub open spec fn pred(self) -> spec_fn(SyntaxPos) -> bool {
        |c: SyntaxPos| self.spec_accepts(c.kind())
    }
}

/// The children of the node at `p` that `f` selects, in order
pub open spec fn select_children(p: SyntaxPos, f: KindFilter) -> Seq<SyntaxPos> {
    p.children().filter(f.pred())
}

/// The children that are not trivia, in order
pub open spec fn significant_children(p: SyntaxPos) -> Seq<SyntaxPos> {
    select_children(p, KindFilter::Significant)
}

/// The positions of a sequence of nodes
pub open spec fn positions<'a>(nodes: Seq<Node<'a>>) -> Seq<SyntaxPos> {
    nodes.map_values(|n: Node<'a>| n@)
}

/// One step of filtering a prefix of a sequence
pub proof fn lemma_filter_take_step<A>(s: Seq<A>, pred: spec_fn(A) -> bool, i: int)
    requires
        0 <= i < s.len(),
    ensures
        s.take(i + 1).filter(pred) == (if pred(s[i]) {
            s.take(i).filter(pred).push(s[i])
        } else {
            s.take(i).filter(pred)
        }),
{
    reveal_with_fuel(Seq::filter, 1);
    assert(s.take(i + 1).drop_last() =~= s.take(i));
}

impl<'a> Node<'a> {
    /// The children that `f` selects, in order
    pub fn select(&self, f: KindFilter) -> (res: Vec<Node<'a>>)
        ensures
            positions(res@) == select_children(self@, f),
            forall|i: int| 0 <= i < res@.len() ==> (#[trigger] res@[i])@.valid(),
    {
        let n = self.child_count();
        let ghost all = self@.children();
        let mut res: Vec<Node<'a>> = Vec::new();
        let mut i: usize = 0;
        while i < n
            invariant
                i <= n,
                n == all.len(),
                all == self@.children(),
                positions(res@) == all.take(i as int).filter(f.pred()),
                forall|j: int| 0 <= j < res@.len() ==> (#[trigger] res@[j])@.valid(),
            decreases n - i,
        {
            let child = self.child(i);
            proof {
                lemma_filter_take_step(all, f.pred(), i as int);
            }
            if f.accepts(child.kind()) {
                let ghost prev = res@;
                res.push(child);
                assert(positions(res@) =~= positions(prev).push(all[i as int]));
            }
            i = i + 1;
        }
        assert(all.take(n as int) =~= all);
        res
    }
}


impl<'a> Node<'a> {
    /// The `k`-th of the children that `f` selects
    pub fn nth_selected(&self, f: KindFilter, k: usize) -> (res: Node<'a>)
        requires
            k < select_children(self@, f).len(),
        ensures
            res@ == select_children(self@, f)[k as int],
            res@.valid(),
    {
        let mut selected = self.select(f);
        assert(positions(selected@)[k as int] == selected@[k as int]@);
        selected.remove(k)
    }

    /// Returns true if some child of this node is of kind `kind`
    pub fn has_child_of_kind(&self, kind: NodeType) -> (res: bool)
        ensures
            res == exists|i: int| 0 <= i < self@.children().len() && (#[trigger] self@.children()[i]).kind() == kind,
    {
        let n = self.child_count();
        let mut i: usize = 0;
        while i < n
            invariant
                i <= n,
                n == self@.children().len(),
                forall|j: int| 0 <= j < i ==> (#[trigger] self@.children()[j]).kind() != kind,
            decreases n - i,
        {
            let child = self.child(i);
            if child.kind() == kind {
                assert(self@.children()[i as int] == child@);
                return true;
            }
            assert(self@.children()[i as int] == child@);
            i = i + 1;
        }
        false
    }
}


/// The child at position `p.child(i)` is the `i`-th child of the node at `p`,
/// and it is structurally smaller.
pub proof fn lemma_child(p: SyntaxPos, i: int)
    requires
        p.valid(),
        0 <= i < p.tree().spec_children().len(),
    ensures
        p.child(i).valid(),
        p.child(i).tree() == *p.tree().spec_children()[i],
        decreases_to!(p.tree() => p.child(i).tree()),
{
    assert(p.child(i).path.drop_last() =~= p.path);
    let t = p.tree();
    match t {
        GreenNode::Leaf { .. } => {},
        GreenNode::Branch { kind, children } => {
            assert(children@.len() == children.len());
            assert(p.child(i).path.last() == i);
            assert(decreases_to!(t => children));
            assert(decreases_to!(children => children@));
            assert(decreases_to!(children@ => children@[i]));
        },
    }
}

/// All nodes of the subtree at `p`, in preorder: the node itself, then the
/// subtrees of its children from first to last.
pub open spec fn preorder(p: SyntaxPos) -> Seq<SyntaxPos>
    decreases p.tree(), p.tree().spec_children().len() + 1,
{
    seq![p] + preorder_from(p, 0)
}

/// The preorders of the subtrees of the children of `p` from the `i`-th on.
pub open spec fn preorder_from(p: SyntaxPos, i: int) -> Seq<SyntaxPos>
    decreases p.tree(), p.tree().spec_children().len() - i,
{
    if p.valid() && 0 <= i < p.tree().spec_children().len() {
        proof {
            lemma_child(p, i);
        }
        preorder(p.child(i)) + preorder_from(p, i + 1)
    } else {
        Seq::empty()
    }
}

/// Error nodes: syntax errors and lexer errors
pub open spec fn is_error_kind(kind: NodeType) -> bool {
    kind == NodeType::Error || kind == NodeType::Token(Token::Error)
}

pub open spec fn error_pred() -> spec_fn(SyntaxPos) -> bool {
    |c: SyntaxPos| is_error_kind(c.kind())
}

/// All error nodes in the subtree at `p`, in preorder
pub open spec fn errors_in(p: SyntaxPos) -> Seq<SyntaxPos> {
    preorder(p).filter(error_pred())
}

impl<'a> Node<'a> {
    /// Appends the error nodes of this subtree, in preorder, to `out`
    fn collect_errors(&self, out: &mut Vec<Node<'a>>)
        ensures
            positions(final(out)@) == positions(old(out)@) + errors_in(self@),
            forall|j: int| 0 <= j < old(out)@.len() ==> final(out)@[j] == old(out)@[j],
            forall|j: int| 0 <= j < final(out)@.len() && (#[trigger] old(out)@.len() <= j) ==> final(out)@[j]@.valid(),
        decreases self@.tree(),
    {
        let ghost p = self@;
        let ghost base = positions(out@);
        let ghost out0 = out@;
        let kind = self.kind();
        proof {
            reveal_with_fuel(Seq::filter, 2);
            assert(seq![p].drop_last() =~= Seq::<SyntaxPos>::empty());
            if is_error_kind(p.kind()) {
                assert(seq![p].filter(error_pred()) =~= seq![p]);
            } else {
                assert(seq![p].filter(error_pred()) =~= Seq::<SyntaxPos>::empty());
            }
        }
        if kind == NodeType::Error || kind == NodeType::Token(Token::Error) {
            let ghost prev = out@;
            proof {
                use_type_invariant(self);
            }
            let path = self.path.clone();
            assert(path@ =~= self.path@);
            out.push(Node { root: self.root, green: self.green, path });
            proof {
                assert(out@.last()@.path =~= p.path);
                assert(positions(out@) =~= positions(prev).push(p));
            }
        }
        assert(positions(out@) =~= base + seq![p].filter(error_pred()));
        let n = self.child_count();
        let mut i: usize = 0;
        while i < n
            invariant
                i <= n,
                n == p.tree().spec_children().len(),
                p == self@,
                p.valid(),
                positions(out@) + preorder_from(p, i as int).filter(error_pred())
                    == base + errors_in(p),
                out0.len() <= out@.len(),
                forall|j: int| 0 <= j < out0.len() ==> out@[j] == out0[j],
                forall|j: int| 0 <= j < out@.len() && (#[trigger] out0.len() <= j) ==> out@[j]@.valid(),
            decreases n - i,
        {
            let child = self.child(i);
            proof {
                lemma_child(p, i as int);
            }
            let ghost before = positions(out@);
            child.collect_errors(out);
            proof {
                let e = error_pred();
                assert(preorder_from(p, i as int) == preorder(p.child(i as int)) + preorder_from(p, i + 1));
                assert(preorder_from(p, i as int).filter(e)
                    == preorder(p.child(i as int)).filter(e) + preorder_from(p, i + 1).filter(e));
                assert(positions(out@) =~= before + errors_in(p.child(i as int)));
                assert(positions(out@) + preorder_from(p, i + 1).filter(e)
                    =~= before + (errors_in(p.child(i as int)) + preorder_from(p, i + 1).filter(e)));
            }
            i = i + 1;
        }
        proof {
            assert(preorder_from(p, n as int) == Seq::<SyntaxPos>::empty());
            assert(Seq::<SyntaxPos>::empty().filter(error_pred()) =~= Seq::<SyntaxPos>::empty());
            assert(positions(out@) + Seq::<SyntaxPos>::empty() =~= positions(out@));
        }
    }

    /// All error nodes in the subtree of this node (itself included), in preorder
    pub fn errors(&self) -> (res: Vec<Node<'a>>)
        ensures
            positions(res@) == errors_in(self@),
            forall|j: int| 0 <= j < res@.len() ==> (#[trigger] res@[j])@.valid(),
    {
        let mut res: Vec<Node<'a>> = Vec::new();
        assert(positions(res@) =~= Seq::<SyntaxPos>::empty());
        self.collect_errors(&mut res);
        assert(Seq::<SyntaxPos>::empty() + errors_in(self@) =~= errors_in(self@));
        res
    }
}


/// `Rc::clone` from std: another pointer to the same node, so equal to it.
#[verifier::external_body]
fn share(node: &Rc<GreenNode>) -> (res: Rc<GreenNode>)
    ensures
        res == *node,
{
    Rc::clone(node)
}

/// `new` is the tree `old` with the children of the node at `path` replaced
/// by `children`: every node on the path is rebuilt as a composite node of
/// the same kind, every other node is left as it was.
pub open spec fn replaced(new: GreenNode, old: GreenNode, path: Seq<usize>, children: Seq<Rc<GreenNode>>) -> bool
    decreases path.len(),
{
    &&& new is Branch
    &&& new.spec_kind() == old.spec_kind()
    &&& if path.len() == 0 {
        new.spec_children() == children
    } else {
        let i = path[0] as int;
        &&& 0 <= i < old.spec_children().len()
        &&& new.spec_children().len() == old.spec_children().len()
        &&& forall|j: int| 0 <= j < old.spec_children().len() && j != i
            ==> #[trigger] new.spec_children()[j] == old.spec_children()[j]
        &&& replaced(*new.spec_children()[i], *old.spec_children()[i], path.drop_first(), children)
    }
}

/// Following a path from the root is following its first step, then the rest.
pub proof fn lemma_subtree_at_first(root: GreenNode, path: Seq<usize>)
    requires
        path.len() > 0,
        subtree_at(root, path) is Some,
    ensures
        path[0] < root.spec_children().len(),
        subtree_at(*root.spec_children()[path[0] as int], path.drop_first()) == subtree_at(root, path),
    decreases path.len(),
{
    if path.len() == 1 {
        assert(path.drop_last() =~= Seq::<usize>::empty());
        assert(path.drop_first() =~= Seq::<usize>::empty());
    } else {
        let prefix = path.drop_last();
        lemma_subtree_at_first(root, prefix);
        assert(prefix[0] == path[0]);
        assert(prefix.drop_first() =~= path.drop_first().drop_last());
        assert(path.drop_first().last() == path.last());
    }
}

/// Rebuilds `node` with the children of its descendant at `path[k..]`
/// replaced by `children`.
fn rebuild(node: &GreenNode, path: &Vec<usize>, k: usize, children: Vec<Rc<GreenNode>>) -> (res: GreenNode)
    requires
        k <= path@.len(),
        subtree_at(*node, path@.skip(k as int)) is Some,
    ensures
        replaced(res, *node, path@.skip(k as int), children@),
    decreases path@.len() - k,
{
    if k == path.len() {
        assert(path@.skip(k as int) =~= Seq::<usize>::empty());
        GreenNode::Branch { kind: node.kind(), children }
    } else {
        let ghost rest = path@.skip(k as int);
        proof {
            lemma_subtree_at_first(*node, rest);
            assert(rest.drop_first() =~= path@.skip(k + 1));
        }
        let i = path[k];
        let n = node.child_count();
        let mut new_children: Vec<Rc<GreenNode>> = Vec::new();
        let mut j: usize = 0;
        while j < i
            invariant
                j <= i < n,
                n == node.spec_children().len(),
                new_children@.len() == j,
                forall|m: int| 0 <= m < j ==> #[trigger] new_children@[m] == node.spec_children()[m],
            decreases i - j,
        {
            new_children.push(node.share_child(j));
            j = j + 1;
        }
        let rebuilt = rebuild(node.child(i), path, k + 1, children);
        new_children.push(Rc::new(rebuilt));
        j = j + 1;
        while j < n
            invariant
                i < j <= n,
                n == node.spec_children().len(),
                new_children@.len() == j,
                forall|m: int| 0 <= m < j && m != i ==> #[trigger] new_children@[m] == node.spec_children()[m],
                replaced(*new_children@[i as int], *node.spec_children()[i as int], path@.skip(k + 1), children@),
            decreases n - j,
        {
            new_children.push(node.share_child(j));
            j = j + 1;
        }
        GreenNode::Branch { kind: node.kind(), children: new_children }
    }
}

impl<'a> Node<'a> {
    /// Returns a new tree, equal to the tree this node belongs to except that
    /// this node has `children` as its children.
    pub fn with_children(&self, children: Vec<Rc<GreenNode>>) -> (res: GreenNode)
        ensures
            replaced(res, self@.root, self@.path, children@),
    {
        proof {
            use_type_invariant(self);
            assert(self.path@.skip(0) =~= self.path@);
        }
        rebuild(self.root, &self.path, 0, children)
    }
}

} // verus!
