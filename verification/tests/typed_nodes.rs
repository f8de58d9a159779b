use std::rc::Rc;

use rnix::filter::FilterStyle;
use rnix::ops::{OpKind, UnaryOpKind};
use rnix::token::Token;
use rnix::tree::{GreenNode, KindFilter, Node, NodeType};
use rnix::typed::{
    Apply, AttrSet, EntryHolder, Ident, IfElse, Inherit, LetIn, LightWrapper, List, Operation,
    OrDefault, Paren, PatBind, PatEntry, Pattern, Root, SetEntry, TypedNode, Unary, Value, With,
    Wrapper,
};

fn tok(t: Token, text: &str) -> Rc<GreenNode> {
    Rc::new(GreenNode::new_leaf(NodeType::Token(t), text.to_string()))
}

fn ws() -> Rc<GreenNode> {
    tok(Token::Whitespace, " ")
}

fn node(kind: NodeType, children: Vec<Rc<GreenNode>>) -> Rc<GreenNode> {
    Rc::new(GreenNode::new_branch(kind, children))
}

fn root(children: Vec<Rc<GreenNode>>) -> GreenNode {
    GreenNode::new_branch(NodeType::Root, children)
}

/// The source text of a tree: its leaves, in order
fn text(n: &GreenNode) -> String {
    match n {
        GreenNode::Leaf { text, .. } => text.clone(),
        GreenNode::Branch { children, .. } => children.iter().map(|c| text(c)).collect(),
    }
}

fn ident(name: &str) -> Rc<GreenNode> {
    tok(Token::Ident, name)
}

/// `{ a, b, c }` as a pattern
fn pattern_abc() -> Rc<GreenNode> {
    node(
        NodeType::Pattern,
        vec![
            tok(Token::CurlyBOpen, "{"),
            ws(),
            node(NodeType::PatEntry, vec![ident("a")]),
            tok(Token::Comma, ","),
            ws(),
            node(NodeType::PatEntry, vec![ident("b")]),
            tok(Token::Comma, ","),
            ws(),
            node(NodeType::PatEntry, vec![ident("c")]),
            ws(),
            tok(Token::CurlyBClose, "}"),
        ],
    )
}

fn entry_name(e: &PatEntry) -> String {
    e.name().as_str().to_string()
}

#[test]
fn op_kind_from_binary_tokens() {
    assert_eq!(OpKind::from_token(Token::Concat), Some(OpKind::Concat));
    assert_eq!(OpKind::from_token(Token::Question), Some(OpKind::IsSet));
    assert_eq!(OpKind::from_token(Token::Merge), Some(OpKind::Merge));
    assert_eq!(OpKind::from_token(Token::Add), Some(OpKind::Add));
    assert_eq!(OpKind::from_token(Token::Sub), Some(OpKind::Sub));
    assert_eq!(OpKind::from_token(Token::Mul), Some(OpKind::Mul));
    assert_eq!(OpKind::from_token(Token::Div), Some(OpKind::Div));
    assert_eq!(OpKind::from_token(Token::And), Some(OpKind::And));
    assert_eq!(OpKind::from_token(Token::Equal), Some(OpKind::Equal));
    assert_eq!(OpKind::from_token(Token::Implication), Some(OpKind::Implication));
    assert_eq!(OpKind::from_token(Token::Less), Some(OpKind::Less));
    assert_eq!(OpKind::from_token(Token::LessOrEq), Some(OpKind::LessOrEq));
    assert_eq!(OpKind::from_token(Token::More), Some(OpKind::More));
    assert_eq!(OpKind::from_token(Token::MoreOrEq), Some(OpKind::MoreOrEq));
    assert_eq!(OpKind::from_token(Token::NotEqual), Some(OpKind::NotEqual));
    assert_eq!(OpKind::from_token(Token::Or), Some(OpKind::Or));
}

#[test]
fn op_kind_rejects_other_tokens() {
    assert_eq!(OpKind::from_token(Token::Invert), None);
    assert_eq!(OpKind::from_token(Token::Ident), None);
    assert_eq!(OpKind::from_token(Token::Whitespace), None);
    assert_eq!(OpKind::from_token(Token::Assign), None);
}

#[test]
fn unary_op_kind_from_tokens() {
    assert_eq!(UnaryOpKind::from_token(Token::Invert), Some(UnaryOpKind::Invert));
    assert_eq!(UnaryOpKind::from_token(Token::Sub), Some(UnaryOpKind::Negate));
    assert_eq!(UnaryOpKind::from_token(Token::Add), None);
    assert_eq!(UnaryOpKind::from_token(Token::Question), None);
}

#[test]
fn minus_is_both_binary_and_unary() {
    assert_eq!(OpKind::from_token(Token::Sub), Some(OpKind::Sub));
    assert_eq!(UnaryOpKind::from_token(Token::Sub), Some(UnaryOpKind::Negate));
}

#[test]
fn trivia_tokens() {
    assert!(Token::Comment.is_trivia());
    assert!(Token::Whitespace.is_trivia());
    assert!(Token::Error.is_trivia());
    assert!(!Token::Ident.is_trivia());
    assert!(NodeType::Token(Token::Comment).is_trivia());
    assert!(!NodeType::Error.is_trivia());
    assert!(Token::Integer.is_value());
    assert!(Token::Path.is_value());
    assert!(!Token::Ident.is_value());
}

#[test]
fn cast_checks_the_kind() {
    let tree = root(vec![node(NodeType::Apply, vec![ident("f"), ws(), ident("x")])]);
    let r = Node::new_root(&tree);
    assert!(Apply::cast(r.child(0)).is_some());
    assert!(With::cast(r.child(0)).is_none());
    assert!(Root::cast(Node::new_root(&tree)).is_some());
    assert!(Apply::cast(Node::new_root(&tree)).is_none());
    let apply = Apply::cast(r.child(0)).unwrap();
    assert_eq!(apply.node().kind(), NodeType::Apply);
    assert_eq!(apply.into_node().kind(), NodeType::Apply);
}

#[test]
fn children_skip_trivia() {
    let tree = root(vec![node(
        NodeType::Apply,
        vec![ident("f"), ws(), tok(Token::Comment, "# c"), ident("x")],
    )]);
    let r = Node::new_root(&tree);
    let apply = Apply::cast(r.child(0)).unwrap();
    let children = apply.children();
    assert_eq!(children.len(), 2);
    assert_eq!(children[0].leaf_text(), Some("f"));
    assert_eq!(children[1].leaf_text(), Some("x"));
    assert_eq!(apply.lambda().leaf_text(), Some("f"));
    assert_eq!(apply.value().leaf_text(), Some("x"));
}

#[test]
fn errors_are_found_in_preorder() {
    let tree = root(vec![
        node(NodeType::Error, vec![tok(Token::Error, "$")]),
        ws(),
        node(NodeType::Paren, vec![tok(Token::ParenOpen, "("), tok(Token::Error, "%"), tok(Token::ParenClose, ")")]),
    ]);
    let r = Root::cast(Node::new_root(&tree)).unwrap();
    let errors = r.errors();
    assert_eq!(errors.len(), 3);
    assert_eq!(errors[0].kind(), NodeType::Error);
    assert_eq!(errors[1].leaf_text(), Some("$"));
    assert_eq!(errors[2].leaf_text(), Some("%"));
}

#[test]
fn no_errors_in_clean_tree() {
    let tree = root(vec![ident("x")]);
    let r = Root::cast(Node::new_root(&tree)).unwrap();
    assert!(r.errors().is_empty());
    assert_eq!(r.inner().leaf_text(), Some("x"));
}

#[test]
fn wrapper_inner_is_second_child() {
    let tree = root(vec![node(
        NodeType::Paren,
        vec![tok(Token::ParenOpen, "("), ws(), ident("x"), tok(Token::ParenClose, ")")],
    )]);
    let r = Node::new_root(&tree);
    let paren = Paren::cast(r.child(0)).unwrap();
    assert_eq!(paren.inner().leaf_text(), Some("x"));
}

#[test]
fn if_else_parts() {
    let tree = root(vec![node(
        NodeType::IfElse,
        vec![
            tok(Token::If, "if"), ws(), ident("c"), ws(), tok(Token::Then, "then"), ws(),
            ident("a"), ws(), tok(Token::Else, "else"), ws(), ident("b"),
        ],
    )]);
    let r = Node::new_root(&tree);
    let ie = IfElse::cast(r.child(0)).unwrap();
    assert_eq!(ie.condition().leaf_text(), Some("c"));
    assert_eq!(ie.body().leaf_text(), Some("a"));
    assert_eq!(ie.else_body().leaf_text(), Some("b"));
}

#[test]
fn operation_parts() {
    let tree = root(vec![node(
        NodeType::Operation,
        vec![tok(Token::Integer, "1"), ws(), tok(Token::Add, "+"), ws(), tok(Token::Integer, "2")],
    )]);
    let r = Node::new_root(&tree);
    let op = Operation::cast(r.child(0)).unwrap();
    assert_eq!(op.operator(), OpKind::Add);
    assert_eq!(op.value1().leaf_text(), Some("1"));
    assert_eq!(op.value2().leaf_text(), Some("2"));
    let v = Value::cast(op.value1()).unwrap();
    assert_eq!(v.as_str(), "1");
    assert!(Value::cast(op.children().remove(1)).is_none());
}

#[test]
fn unary_parts() {
    let tree = root(vec![node(NodeType::Unary, vec![tok(Token::Invert, "!"), ident("x")])]);
    let r = Node::new_root(&tree);
    let u = Unary::cast(r.child(0)).unwrap();
    assert_eq!(u.operator(), UnaryOpKind::Invert);
    assert_eq!(u.value().leaf_text(), Some("x"));

    let tree = root(vec![node(NodeType::Unary, vec![tok(Token::Sub, "-"), tok(Token::Integer, "1")])]);
    let r = Node::new_root(&tree);
    let u = Unary::cast(r.child(0)).unwrap();
    assert_eq!(u.operator(), UnaryOpKind::Negate);
}

#[test]
fn with_parts() {
    let tree = root(vec![node(
        NodeType::With,
        vec![tok(Token::With, "with"), ws(), ident("pkgs"), tok(Token::Semicolon, ";"), ws(), ident("hello")],
    )]);
    let r = Node::new_root(&tree);
    let w = With::cast(r.child(0)).unwrap();
    assert_eq!(w.namespace().leaf_text(), Some("pkgs"));
    assert_eq!(w.body().leaf_text(), Some("hello"));
}

fn set_entry(key: &str, value: &str) -> Rc<GreenNode> {
    node(
        NodeType::SetEntry,
        vec![
            node(NodeType::Attribute, vec![ident(key)]),
            ws(),
            tok(Token::Assign, "="),
            ws(),
            tok(Token::Integer, value),
            tok(Token::Semicolon, ";"),
        ],
    )
}

/// `{ a = 2; b = 3; }`
fn set_ab() -> Rc<GreenNode> {
    node(
        NodeType::AttrSet,
        vec![tok(Token::CurlyBOpen, "{"), ws(), set_entry("a", "2"), ws(), set_entry("b", "3"), ws(), tok(Token::CurlyBClose, "}")],
    )
}

#[test]
fn set_entries_keys_and_values() {
    let tree = root(vec![set_ab()]);
    let r = Node::new_root(&tree);
    let set = AttrSet::cast(r.child(0)).unwrap();
    assert!(!set.recursive());
    let entries = set.entries();
    assert_eq!(entries.len(), 2);
    let key = entries[0].key();
    let path = key.path();
    assert_eq!(path.len(), 1);
    assert_eq!(path[0].leaf_text(), Some("a"));
    assert_eq!(entries[0].value().leaf_text(), Some("2"));
    assert_eq!(entries[1].value().leaf_text(), Some("3"));
    assert!(set.inherits().is_empty());
}

#[test]
fn recursive_set() {
    let tree = root(vec![node(
        NodeType::AttrSet,
        vec![tok(Token::Rec, "rec"), ws(), tok(Token::CurlyBOpen, "{"), tok(Token::CurlyBClose, "}")],
    )]);
    let r = Node::new_root(&tree);
    assert!(AttrSet::cast(r.child(0)).unwrap().recursive());
}

#[test]
fn attribute_path_skips_dots() {
    let tree = root(vec![node(
        NodeType::Attribute,
        vec![ident("a"), tok(Token::Dot, "."), ident("b"), tok(Token::Dot, "."), ident("c")],
    )]);
    let r = Node::new_root(&tree);
    let attr = rnix::typed::Attribute::cast(r.child(0)).unwrap();
    let path = attr.path();
    let names: Vec<&str> = path.iter().map(|n| n.leaf_text().unwrap()).collect();
    assert_eq!(names, vec!["a", "b", "c"]);
}

#[test]
fn let_in_body_and_entries() {
    let tree = root(vec![node(
        NodeType::LetIn,
        vec![
            tok(Token::Let, "let"), ws(), set_entry("x", "1"), ws(), set_entry("y", "2"), ws(),
            tok(Token::In, "in"), ws(), ident("x"),
        ],
    )]);
    let r = Node::new_root(&tree);
    let l = LetIn::cast(r.child(0)).unwrap();
    assert_eq!(l.entries().len(), 2);
    assert_eq!(l.body().leaf_text(), Some("x"));
}

#[test]
fn list_items() {
    let tree = root(vec![node(
        NodeType::List,
        vec![
            tok(Token::SquareBOpen, "["), ws(),
            node(NodeType::ListItem, vec![tok(Token::Integer, "1")]), ws(),
            node(NodeType::ListItem, vec![tok(Token::Integer, "2")]), ws(),
            tok(Token::SquareBClose, "]"),
        ],
    )]);
    let r = Node::new_root(&tree);
    let list = List::cast(r.child(0)).unwrap();
    let items = list.items();
    assert_eq!(items.len(), 2);
    assert_eq!(items[0].inner().leaf_text(), Some("1"));
    assert_eq!(items[1].inner().leaf_text(), Some("2"));
}

#[test]
fn inherit_from() {
    let with_from = root(vec![node(
        NodeType::Inherit,
        vec![
            tok(Token::Inherit, "inherit"), ws(),
            node(NodeType::InheritFrom, vec![tok(Token::ParenOpen, "("), ident("pkgs"), tok(Token::ParenClose, ")")]),
            ws(), ident("hello"), tok(Token::Semicolon, ";"),
        ],
    )]);
    let r = Node::new_root(&with_from);
    let inherit = Inherit::cast(r.child(0)).unwrap();
    let from = inherit.from().unwrap();
    assert_eq!(from.inner().leaf_text(), Some("pkgs"));

    let without = root(vec![node(
        NodeType::Inherit,
        vec![tok(Token::Inherit, "inherit"), ws(), ident("hello"), tok(Token::Semicolon, ";")],
    )]);
    let r = Node::new_root(&without);
    assert!(Inherit::cast(r.child(0)).unwrap().from().is_none());
}

#[test]
fn or_default_parts() {
    let tree = root(vec![node(
        NodeType::OrDefault,
        vec![
            node(NodeType::IndexSet, vec![ident("a"), tok(Token::Dot, "."), ident("b")]),
            ws(), tok(Token::Ident, "or"), ws(), tok(Token::Integer, "1"),
        ],
    )]);
    let r = Node::new_root(&tree);
    let od = OrDefault::cast(r.child(0)).unwrap();
    let index = od.index();
    assert_eq!(index.set().leaf_text(), Some("a"));
    assert_eq!(index.index().leaf_text(), Some("b"));
    assert_eq!(od.default().leaf_text(), Some("1"));
}

#[test]
fn pattern_entries_and_ellipsis() {
    let tree = root(vec![pattern_abc()]);
    let r = Node::new_root(&tree);
    let pat = Pattern::cast(r.child(0)).unwrap();
    assert!(!pat.ellipsis());
    let names: Vec<String> = pat.entries().iter().map(entry_name).collect();
    assert_eq!(names, vec!["a", "b", "c"]);

    let tree = root(vec![node(
        NodeType::Pattern,
        vec![tok(Token::CurlyBOpen, "{"), node(NodeType::PatEntry, vec![ident("a")]), tok(Token::Comma, ","), tok(Token::Ellipsis, "..."), tok(Token::CurlyBClose, "}")],
    )]);
    let r = Node::new_root(&tree);
    assert!(Pattern::cast(r.child(0)).unwrap().ellipsis());
}

#[test]
fn pat_bind_name() {
    let tree = root(vec![node(
        NodeType::PatBind,
        vec![tok(Token::At, "@"), ws(), ident("args")],
    )]);
    let r = Node::new_root(&tree);
    let bind = PatBind::cast(r.child(0)).unwrap();
    assert_eq!(bind.name().as_str(), "args");
}

#[test]
fn pat_entry_default_value() {
    let tree = root(vec![node(
        NodeType::PatEntry,
        vec![ident("a"), ws(), tok(Token::Question, "?"), ws(), tok(Token::Comment, "# one"), tok(Token::Integer, "1")],
    )]);
    let r = Node::new_root(&tree);
    let entry = PatEntry::cast(r.child(0)).unwrap();
    assert_eq!(entry.name().as_str(), "a");
    assert_eq!(entry.default().unwrap().leaf_text(), Some("1"));

    let tree = root(vec![node(NodeType::PatEntry, vec![ident("a")])]);
    let r = Node::new_root(&tree);
    let entry = PatEntry::cast(r.child(0)).unwrap();
    assert!(entry.default().is_none());
}

#[test]
fn pattern_filter_removes_middle_entry() {
    let tree = root(vec![pattern_abc()]);
    let r = Node::new_root(&tree);
    let pat = Pattern::cast(r.child(0)).unwrap();
    let filtered = pat.filter_entries(|e| entry_name(&e) != "b");
    assert_eq!(filtered.kind(), NodeType::Root);
    assert_eq!(text(&filtered), "{ a, c }");
    assert_eq!(text(&tree), "{ a, b, c }");
}

#[test]
fn pattern_filter_removes_trailing_comma() {
    let tree = root(vec![pattern_abc()]);
    let r = Node::new_root(&tree);
    let pat = Pattern::cast(r.child(0)).unwrap();
    let filtered = pat.filter_entries(|e| entry_name(&e) != "c");
    assert_eq!(text(&filtered), "{ a, b }");
}

#[test]
fn pattern_filter_keeps_everything() {
    let tree = root(vec![pattern_abc()]);
    let r = Node::new_root(&tree);
    let pat = Pattern::cast(r.child(0)).unwrap();
    let mut asked = Vec::new();
    let filtered = pat.filter_entries(|e| {
        asked.push(entry_name(&e));
        true
    });
    assert_eq!(text(&filtered), "{ a, b, c }");
    assert_eq!(asked, vec!["a", "b", "c"]);
}

#[test]
fn pattern_filter_drops_comment_with_its_entry() {
    let tree = root(vec![node(
        NodeType::Pattern,
        vec![
            tok(Token::CurlyBOpen, "{"), ws(),
            node(NodeType::PatEntry, vec![ident("a")]), tok(Token::Comma, ","), ws(),
            tok(Token::Comment, "# about b"), ws(),
            node(NodeType::PatEntry, vec![ident("b")]), ws(),
            tok(Token::CurlyBClose, "}"),
        ],
    )]);
    let r = Node::new_root(&tree);
    let pat = Pattern::cast(r.child(0)).unwrap();
    let mut asked = Vec::new();
    let filtered = pat.filter_entries(|e| {
        let name = entry_name(&e);
        asked.push(name.clone());
        name != "b"
    });
    assert_eq!(asked, vec!["a", "b"]);
    assert_eq!(text(&filtered), "{ a }");
}

#[test]
fn set_filter_removes_first_entry() {
    let tree = root(vec![set_ab()]);
    let r = Node::new_root(&tree);
    let set = AttrSet::cast(r.child(0)).unwrap();
    let mut index = 0;
    let filtered = set.filter_entries(|_| {
        index += 1;
        index != 1
    });
    assert_eq!(text(&filtered), "{ b = 3; }");
    assert_eq!(text(&tree), "{ a = 2; b = 3; }");
}

#[test]
fn filter_keeps_the_rest_of_the_tree() {
    let tree = root(vec![ident("before"), ws(), set_ab(), ws(), ident("after")]);
    let r = Node::new_root(&tree);
    let set = AttrSet::cast(r.child(2)).unwrap();
    let filtered = set.filter_entries(|e| e.value().leaf_text() != Some("3"));
    assert_eq!(text(&filtered), "before { a = 2; } after");
}

#[test]
fn with_children_rebuilds_from_root() {
    let tree = root(vec![node(NodeType::Paren, vec![tok(Token::ParenOpen, "("), ident("x"), tok(Token::ParenClose, ")")])]);
    let r = Node::new_root(&tree);
    let paren = r.child(0);
    let rebuilt = paren.with_children(vec![ident("y")]);
    assert_eq!(rebuilt.kind(), NodeType::Root);
    assert_eq!(text(&rebuilt), "y");
    assert_eq!(rebuilt.child(0).kind(), NodeType::Paren);
}

#[test]
fn select_by_kind() {
    let tree = root(vec![ident("a"), ws(), tok(Token::Comment, "#"), ident("b")]);
    let r = Node::new_root(&tree);
    assert_eq!(r.select(KindFilter::Trivia).len(), 2);
    assert_eq!(r.select(KindFilter::Significant).len(), 2);
    assert_eq!(r.select(KindFilter::Kind(NodeType::Token(Token::Ident))).len(), 2);
    assert_eq!(r.nth_selected(KindFilter::Significant, 1).leaf_text(), Some("b"));
    assert_eq!(FilterStyle::Pattern.entry_kind(), NodeType::PatEntry);
    assert_eq!(FilterStyle::AttrSet.entry_kind(), NodeType::SetEntry);
}

#[test]
fn ident_as_str() {
    let tree = root(vec![ident("hello")]);
    let r = Node::new_root(&tree);
    let id = Ident::cast(r.child(0)).unwrap();
    assert_eq!(id.as_str(), "hello");
    assert!(Ident::cast(Node::new_root(&tree)).is_none());
}

#[test]
fn dynamic_inner() {
    let tree = root(vec![node(
        NodeType::Dynamic,
        vec![tok(Token::Dynamic, "${"), ident("x"), tok(Token::DynamicEnd, "}")],
    )]);
    let r = Node::new_root(&tree);
    let d = rnix::typed::Dynamic::cast(r.child(0)).unwrap();
    assert_eq!(d.inner().leaf_text(), Some("x"));
}

#[test]
fn distinct_operator_tokens_give_distinct_kinds() {
    let tokens = [
        Token::Concat, Token::Question, Token::Merge, Token::Add, Token::Sub, Token::Mul, Token::Div,
        Token::And, Token::Equal, Token::Implication, Token::Less, Token::LessOrEq, Token::More,
        Token::MoreOrEq, Token::NotEqual, Token::Or,
    ];
    let kinds: Vec<OpKind> = tokens.iter().map(|t| OpKind::from_token(*t).unwrap()).collect();
    for i in 0..kinds.len() {
        for j in 0..kinds.len() {
            assert_eq!(i == j, kinds[i] == kinds[j]);
        }
    }
}

#[test]
fn pattern_lookahead_is_reset_by_an_error_token() {
    // a comment decides ahead for the entry after it; an error token between
    // them makes the pattern filter ask about the entry once more
    let tree = root(vec![node(
        NodeType::Pattern,
        vec![
            tok(Token::CurlyBOpen, "{"),
            tok(Token::Comment, "#c"),
            tok(Token::Error, "!"),
            node(NodeType::PatEntry, vec![ident("a")]),
            tok(Token::CurlyBClose, "}"),
        ],
    )]);
    let r = Node::new_root(&tree);
    let pat = Pattern::cast(r.child(0)).unwrap();
    let mut asked = Vec::new();
    let filtered = pat.filter_entries(|e| {
        asked.push(entry_name(&e));
        asked.len() == 1
    });
    assert_eq!(asked, vec!["a", "a"]);
    assert_eq!(text(&filtered), "{#c!}");
}

#[test]
fn set_lookahead_survives_an_error_token() {
    let tree = root(vec![node(
        NodeType::AttrSet,
        vec![
            tok(Token::CurlyBOpen, "{"),
            tok(Token::Comment, "#c"),
            tok(Token::Error, "!"),
            set_entry("a", "1"),
            tok(Token::CurlyBClose, "}"),
        ],
    )]);
    let r = Node::new_root(&tree);
    let set = AttrSet::cast(r.child(0)).unwrap();
    let mut asked = 0;
    let filtered = set.filter_entries(|_| {
        asked += 1;
        false
    });
    assert_eq!(asked, 1);
    assert_eq!(text(&filtered), "{!}");
}

#[test]
fn set_filter_with_comments() {
    let tree = root(vec![node(
        NodeType::AttrSet,
        vec![
            tok(Token::CurlyBOpen, "{"), ws(),
            tok(Token::Comment, "# first"), ws(), set_entry("a", "1"), ws(),
            tok(Token::Comment, "# second"), ws(), set_entry("b", "2"), ws(),
            tok(Token::CurlyBClose, "}"),
        ],
    )]);
    let r = Node::new_root(&tree);
    let set = AttrSet::cast(r.child(0)).unwrap();
    let filtered = set.filter_entries(|e| e.value().leaf_text() == Some("2"));
    assert_eq!(text(&filtered), "{ # second b = 2; }");
}
