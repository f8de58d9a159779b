use vstd::prelude::*;
use std::rc::Rc;
use crate::token::Token;
use crate::filter::{
    FilterStyle, peek_entry, filter_step, filter_state, filter_step_at, filter_calls, filter_kept,
    lemma_used_is_calls, child_kinds, keep_flagged, without_trailing_comma, filtered_children,
    last_significant,
};
use crate::typed::{TypedNode, Value};
use crate::tree::{
    NodeType, GreenNode, SyntaxPos, KindFilter, subtree_at, significant_children,
    preorder, preorder_from, errors_in, is_error_kind, lemma_child, replaced, lemma_subtree_at_first,
};

verus! {

/// The significant children of a node are exactly its children that are not
/// trivia (comments, whitespace, errors), in their order.
pub proof fn lemma_significant_children(p: SyntaxPos)
    ensures
        forall|i: int|
            0 <= i < significant_children(p).len() ==> !(#[trigger] significant_children(p)[i]).kind().spec_is_trivia()
                && p.children().contains(significant_children(p)[i]),
        forall|i: int|
            0 <= i < p.children().len() && !(#[trigger] p.children()[i]).kind().spec_is_trivia()
                ==> significant_children(p).contains(p.children()[i]),
        significant_children(p).len() <= p.children().len(),
{
    let f = KindFilter::Significant.pred();
    assert forall|i: int| 0 <= i < significant_children(p).len() implies !(#[trigger] significant_children(p)[i]).kind().spec_is_trivia()
        && p.children().contains(significant_children(p)[i]) by {
        p.children().lemma_filter_pred(f, i);
        #[allow(deprecated)]
        p.children().filter_lemma(f);
        let c = significant_children(p)[i];
        assert(f(c));
        lemma_filter_elements_come_from(p.children(), f, i);
    }
    assert forall|i: int| 0 <= i < p.children().len() && !(#[trigger] p.children()[i]).kind().spec_is_trivia()
        implies significant_children(p).contains(p.children()[i]) by {
        assert(f(p.children()[i]));
        p.children().lemma_filter_contains(f, i);
    }
}

/// Every element of a filtered sequence is an element of the sequence.
pub proof fn lemma_filter_elements_come_from<A>(s: Seq<A>, pred: spec_fn(A) -> bool, i: int)
    requires
        0 <= i < s.filter(pred).len(),
    ensures
        s.contains(s.filter(pred)[i]),
    decreases s.len(),
{
    reveal_with_fuel(Seq::filter, 1);
    if s.len() > 0 {
        let rest = s.drop_last().filter(pred);
        if i < rest.len() {
            lemma_filter_elements_come_from(s.drop_last(), pred, i);
            let j = choose|j: int| 0 <= j < s.drop_last().len() && s.drop_last()[j] == rest[i];
            assert(s[j] == s.filter(pred)[i]);
        } else {
            assert(s[s.len() - 1] == s.filter(pred)[i]);
        }
    }
}

/// Every node of the preorder of a valid position lies in its subtree: same
/// root, a path that extends its path, and a node of the tree.
pub proof fn lemma_preorder_in_subtree(p: SyntaxPos)
    requires
        p.valid(),
    ensures
        forall|k: int|
            0 <= k < preorder(p).len() ==> (#[trigger] preorder(p)[k]).valid() && preorder(p)[k].root == p.root
                && p.path.len() <= preorder(p)[k].path.len() && preorder(p)[k].path.take(p.path.len() as int)
                == p.path,
    decreases p.tree(), p.tree().spec_children().len() + 1,
{
    lemma_preorder_from_in_subtree(p, 0);
    assert(p.path.take(p.path.len() as int) =~= p.path);
}

pub proof fn lemma_preorder_from_in_subtree(p: SyntaxPos, i: int)
    requires
        p.valid(),
    ensures
        forall|k: int|
            0 <= k < preorder_from(p, i).len() ==> (#[trigger] preorder_from(p, i)[k]).valid()
                && preorder_from(p, i)[k].root == p.root && p.path.len() <= preorder_from(p, i)[k].path.len()
                && preorder_from(p, i)[k].path.take(p.path.len() as int) == p.path,
    decreases p.tree(), p.tree().spec_children().len() - i,
{
    if 0 <= i < p.tree().spec_children().len() {
        lemma_child(p, i);
        let c = p.child(i);
        lemma_preorder_in_subtree(c);
        lemma_preorder_from_in_subtree(p, i + 1);
        let s = preorder(c);
        let t = preorder_from(p, i + 1);
        assert(preorder_from(p, i) == s + t);
        assert forall|k: int| 0 <= k < preorder_from(p, i).len() implies (#[trigger] preorder_from(p, i)[k]).valid()
            && preorder_from(p, i)[k].root == p.root && p.path.len() <= preorder_from(p, i)[k].path.len()
            && preorder_from(p, i)[k].path.take(p.path.len() as int) == p.path by {
            if k < s.len() {
                let q = s[k];
                assert(q.path.take(c.path.len() as int) == c.path);
                assert(q.path.take(p.path.len() as int) =~= c.path.take(p.path.len() as int));
                assert(c.path.take(p.path.len() as int) =~= p.path);
            } else {
                assert(preorder_from(p, i)[k] == t[k - s.len()]);
            }
        }
    }
}

/// The errors of a node are error nodes (syntax errors or lexer errors) of
/// its subtree.
pub proof fn lemma_errors_in_subtree(p: SyntaxPos)
    requires
        p.valid(),
    ensures
        forall|k: int|
            0 <= k < errors_in(p).len() ==> is_error_kind((#[trigger] errors_in(p)[k]).kind())
                && errors_in(p)[k].valid() && errors_in(p)[k].root == p.root
                && errors_in(p)[k].path.take(p.path.len() as int) == p.path,
{
    lemma_preorder_in_subtree(p);
    assert forall|k: int| 0 <= k < errors_in(p).len() implies is_error_kind((#[trigger] errors_in(p)[k]).kind())
        && errors_in(p)[k].valid() && errors_in(p)[k].root == p.root
        && errors_in(p)[k].path.take(p.path.len() as int) == p.path by {
        let e = crate::tree::error_pred();
        preorder(p).lemma_filter_pred(e, k);
        lemma_filter_elements_come_from(preorder(p), e, k);
        let q = errors_in(p)[k];
        let j = choose|j: int| 0 <= j < preorder(p).len() && preorder(p)[j] == q;
        assert(preorder(p)[j] == q);
    }
}

/// A path that leads to a node leads to a node at each of its prefixes.
pub proof fn lemma_subtree_at_prefix(root: GreenNode, path: Seq<usize>, k: int)
    requires
        0 <= k <= path.len(),
        subtree_at(root, path) is Some,
    ensures
        subtree_at(root, path.take(k)) is Some,
        k < path.len() ==> path[k] < subtree_at(root, path.take(k))->Some_0.spec_children().len(),
    decreases path.len() - k,
{
    if k < path.len() {
        if k + 1 == path.len() {
            assert(path.take(k + 1) =~= path);
        } else {
            lemma_subtree_at_prefix(root, path, k + 1);
        }
        assert(path.take(k + 1).drop_last() =~= path.take(k));
        assert(path.take(k + 1).last() == path[k]);
    } else {
        assert(path.take(k) =~= path);
    }
}

/// Every node of the subtree of a child from the `i`-th on is in the
/// preorder of the children from the `j`-th on, for `j <= i`.
pub proof fn lemma_preorder_from_contains(p: SyntaxPos, j: int, i: int, q: SyntaxPos)
    requires
        p.valid(),
        0 <= j <= i < p.tree().spec_children().len(),
        preorder(p.child(i)).contains(q),
    ensures
        preorder_from(p, j).contains(q),
    decreases i - j,
{
    lemma_child(p, j);
    let s = preorder(p.child(j));
    let t = preorder_from(p, j + 1);
    assert(preorder_from(p, j) == s + t);
    if j == i {
        let k = choose|k: int| 0 <= k < s.len() && s[k] == q;
        assert((s + t)[k] == q);
    } else {
        lemma_preorder_from_contains(p, j + 1, i, q);
        let k = choose|k: int| 0 <= k < t.len() && t[k] == q;
        assert((s + t)[s.len() + k] == q);
    }
}

/// Every node of the subtree at `p` is in the preorder of `p`.
pub proof fn lemma_preorder_complete(p: SyntaxPos, suffix: Seq<usize>)
    requires
        p.valid(),
        subtree_at(p.root, p.path + suffix) is Some,
    ensures
        preorder(p).contains(SyntaxPos { root: p.root, path: p.path + suffix }),
    decreases suffix.len(),
{
    let q = SyntaxPos { root: p.root, path: p.path + suffix };
    if suffix.len() == 0 {
        assert(p.path + suffix =~= p.path);
        assert(preorder(p)[0] == q);
    } else {
        let full = p.path + suffix;
        lemma_subtree_at_prefix(p.root, full, p.path.len() as int);
        assert(full.take(p.path.len() as int) =~= p.path);
        let i = suffix[0] as int;
        assert(full[p.path.len() as int] == suffix[0]);
        lemma_child(p, i);
        let c = p.child(i);
        assert(c.path + suffix.drop_first() =~= full);
        lemma_preorder_complete(c, suffix.drop_first());
        lemma_preorder_from_contains(p, 0, i, q);
        let t = preorder_from(p, 0);
        let k = choose|k: int| 0 <= k < t.len() && t[k] == q;
        assert(preorder(p)[k + 1] == q);
    }
}

/// Every error node of the subtree at `p` is among its errors.
pub proof fn lemma_errors_complete(p: SyntaxPos, suffix: Seq<usize>)
    requires
        p.valid(),
        subtree_at(p.root, p.path + suffix) is Some,
        is_error_kind((SyntaxPos { root: p.root, path: p.path + suffix }).kind()),
    ensures
        errors_in(p).contains(SyntaxPos { root: p.root, path: p.path + suffix }),
{
    let q = SyntaxPos { root: p.root, path: p.path + suffix };
    lemma_preorder_complete(p, suffix);
    let k = choose|k: int| 0 <= k < preorder(p).len() && preorder(p)[k] == q;
    preorder(p).lemma_filter_contains(crate::tree::error_pred(), k);
}

/// A rebuilt tree has the new children at the rebuilt position, and its root
/// keeps the kind of the old root.
pub proof fn lemma_replaced_has_children(
    new: GreenNode,
    old: GreenNode,
    path: Seq<usize>,
    children: Seq<std::rc::Rc<GreenNode>>,
)
    requires
        replaced(new, old, path, children),
    ensures
        new.spec_kind() == old.spec_kind(),
        subtree_at(new, path) is Some,
        subtree_at(new, path)->Some_0.spec_children() == children,
        subtree_at(old, path) is Some ==> subtree_at(new, path)->Some_0.spec_kind()
            == subtree_at(old, path)->Some_0.spec_kind(),
    decreases path.len(),
{
    if path.len() > 0 {
        let i = path[0] as int;
        lemma_replaced_has_children(new.spec_child(i), old.spec_child(i), path.drop_first(), children);
        lemma_subtree_at_follows(new, path);
        if subtree_at(old, path) is Some {
            lemma_subtree_at_first(old, path);
        }
    } else {
        assert(path =~= Seq::<usize>::empty());
    }
}

/// If the path without its first step leads somewhere from the first child
/// on the path, the path leads to the same node from the root.
pub proof fn lemma_subtree_at_follows(root: GreenNode, path: Seq<usize>)
    requires
        path.len() > 0,
        path[0] < root.spec_children().len(),
        subtree_at(*root.spec_children()[path[0] as int], path.drop_first()) is Some,
    ensures
        subtree_at(root, path) == subtree_at(*root.spec_children()[path[0] as int], path.drop_first()),
    decreases path.len(),
{
    if path.len() == 1 {
        assert(path.drop_last() =~= Seq::<usize>::empty());
        assert(path.drop_first() =~= Seq::<usize>::empty());
    } else {
        let prefix = path.drop_last();
        let child = *root.spec_children()[path[0] as int];
        assert(prefix.drop_first() =~= path.drop_first().drop_last());
        assert(path.drop_first().last() == path.last());
        assert(prefix[0] == path[0]);
        lemma_subtree_at_follows(root, prefix);
    }
}


/// The entry found by looking ahead from child `i` comes after it, and only
/// trivia stands between them.
pub proof fn lemma_peek_entry(kinds: Seq<NodeType>, i: int, entry: NodeType)
    requires
        0 <= i,
        peek_entry(kinds, i, entry) is Some,
    ensures
        ({
            let j = peek_entry(kinds, i, entry)->Some_0;
            &&& i < j < kinds.len()
            &&& kinds[j] == entry
            &&& forall|t: int| i < t < j ==> (#[trigger] kinds[t]).spec_is_trivia()
        }),
    decreases kinds.len() - i,
{
    if i + 1 < kinds.len() && kinds[i + 1].spec_is_trivia() {
        lemma_peek_entry(kinds, i + 1, entry);
    }
}

/// What holds of the filter after its walk over the first `n` children:
/// it hands only entries to the callback; a decision it took ahead of time
/// is the last answer it got, about an entry that only trivia separates
/// from the current child; and every entry it has passed was handed to the
/// callback, with an answer equal to whether the entry is kept.
pub proof fn lemma_filter_walk(style: FilterStyle, kinds: Seq<NodeType>, answers: Seq<bool>, n: nat)
    requires
        n <= kinds.len(),
    ensures
        ({
            let calls = filter_calls(style, kinds, answers, n);
            let st = filter_state(style, kinds, answers, n);
            &&& forall|m: int|
                0 <= m < calls.len() ==> 0 <= #[trigger] calls[m] < kinds.len() && kinds[calls[m]]
                    == style.spec_entry_kind()
            &&& st.next_entry matches Some(v) ==> {
                &&& calls.len() > 0
                &&& answers[calls.len() - 1] == v
                &&& n <= calls.last()
                &&& forall|t: int| n <= t < calls.last() ==> (#[trigger] kinds[t]).spec_is_trivia()
            }
            &&& forall|i: int|
                0 <= i < n && kinds[i] == style.spec_entry_kind() ==> exists|m: int|
                    0 <= m < calls.len() && calls[m] == i && #[trigger] answers[m]
                        == filter_step_at(style, kinds, answers, i as nat).0
        }),
    decreases n,
{
    if n > 0 {
        let k = (n - 1) as nat;
        lemma_filter_walk(style, kinds, answers, k);
        lemma_used_is_calls(style, kinds, answers, k);
        lemma_used_is_calls(style, kinds, answers, n);
        let before = filter_calls(style, kinds, answers, k);
        let calls = filter_calls(style, kinds, answers, n);
        let st = filter_state(style, kinds, answers, k);
        let step = filter_step(style, kinds, answers, k as int, st);
        let entry = style.spec_entry_kind();
        if let Some(j) = peek_entry(kinds, k as int, entry) {
            lemma_peek_entry(kinds, k as int, entry);
        }
        assert forall|m: int| 0 <= m < before.len() implies calls[m] == before[m] by {}
        if kinds[k as int] == entry {
            if let Some(v) = st.next_entry {
                assert(before.last() == k as int);
            }
        }
        assert forall|i: int| 0 <= i < n && kinds[i] == entry implies exists|m: int|
            0 <= m < calls.len() && calls[m] == i && #[trigger] answers[m]
                == filter_step_at(style, kinds, answers, i as nat).0 by {
            if i < k {
                let m = choose|m: int|
                    0 <= m < before.len() && before[m] == i && #[trigger] answers[m]
                        == filter_step_at(style, kinds, answers, i as nat).0;
                assert(calls[m] == i);
            } else {
                let m = calls.len() - 1;
                assert(calls[m] == i);
            }
        }
    }
}

/// What filtering the entries of a node promises: the callback is only ever
/// handed entries, every entry is handed to it, and an entry is kept exactly
/// when the callback's answer about it was true.
pub proof fn lemma_filter_keeps_answered_entries(style: FilterStyle, kinds: Seq<NodeType>, answers: Seq<bool>)
    ensures
        ({
            let calls = filter_calls(style, kinds, answers, kinds.len());
            &&& forall|m: int|
                0 <= m < calls.len() ==> 0 <= #[trigger] calls[m] < kinds.len() && kinds[calls[m]]
                    == style.spec_entry_kind()
            &&& forall|i: int|
                0 <= i < kinds.len() && kinds[i] == style.spec_entry_kind() ==> exists|m: int|
                    0 <= m < calls.len() && calls[m] == i && #[trigger] answers[m]
                        == filter_kept(style, kinds, answers)[i]
        }),
{
    lemma_filter_walk(style, kinds, answers, kinds.len());
}


/// A token is trivia exactly when it is a comment, whitespace or a lexer
/// error; a node is trivia exactly when it is one of these tokens.
pub proof fn lemma_trivia_tokens(t: Token, k: NodeType)
    ensures
        t.spec_is_trivia() <==> (t == Token::Comment || t == Token::Error || t == Token::Whitespace),
        k.spec_is_trivia() <==> (k == NodeType::Token(Token::Comment) || k == NodeType::Token(Token::Error)
            || k == NodeType::Token(Token::Whitespace)),
{
}

/// The significant children of a node are exactly its children that are not
/// comments, whitespace or lexer errors, in their order.
pub proof fn lemma_significant_children_literal(p: SyntaxPos)
    ensures
        forall|i: int|
            0 <= i < significant_children(p).len() ==> {
                let k = (#[trigger] significant_children(p)[i]).kind();
                &&& k != NodeType::Token(Token::Comment)
                &&& k != NodeType::Token(Token::Error)
                &&& k != NodeType::Token(Token::Whitespace)
                &&& p.children().contains(significant_children(p)[i])
            },
        forall|i: int|
            0 <= i < p.children().len() && (#[trigger] p.children()[i]).kind() != NodeType::Token(Token::Comment)
                && p.children()[i].kind() != NodeType::Token(Token::Error)
                && p.children()[i].kind() != NodeType::Token(Token::Whitespace)
                ==> significant_children(p).contains(p.children()[i]),
{
    lemma_significant_children(p);
    assert forall|i: int|
        0 <= i < p.children().len() && (#[trigger] p.children()[i]).kind() != NodeType::Token(Token::Comment)
            && p.children()[i].kind() != NodeType::Token(Token::Error)
            && p.children()[i].kind() != NodeType::Token(Token::Whitespace)
        implies significant_children(p).contains(p.children()[i]) by {
        lemma_trivia_tokens(Token::Comment, p.children()[i].kind());
    }
    assert forall|i: int| 0 <= i < significant_children(p).len() implies {
        let k = (#[trigger] significant_children(p)[i]).kind();
        &&& k != NodeType::Token(Token::Comment)
        &&& k != NodeType::Token(Token::Error)
        &&& k != NodeType::Token(Token::Whitespace)
        &&& p.children().contains(significant_children(p)[i])
    } by {
        lemma_trivia_tokens(Token::Comment, significant_children(p)[i].kind());
    }
}

/// The value tokens are exactly the numbers (floats and integers), paths and
/// string-like values, and `Value::cast` accepts exactly the nodes of these kinds.
pub proof fn lemma_value_tokens<'a>(t: Token, k: NodeType)
    ensures
        t.spec_is_value() <==> (t == Token::Float || t == Token::Integer || t == Token::Path || t == Token::Value),
        <Value<'a> as TypedNode<'a>>::accepts_kind(k) <==> (k == NodeType::Token(Token::Float) || k
            == NodeType::Token(Token::Integer) || k == NodeType::Token(Token::Path) || k == NodeType::Token(
            Token::Value,
        )),
{
}

/// The errors of a node are exactly the syntax-error nodes and lexer-error
/// tokens of its subtree.
pub proof fn lemma_errors_literal(p: SyntaxPos, suffix: Seq<usize>)
    requires
        p.valid(),
    ensures
        forall|k: int|
            0 <= k < errors_in(p).len() ==> ((#[trigger] errors_in(p)[k]).kind() == NodeType::Error
                || errors_in(p)[k].kind() == NodeType::Token(Token::Error)),
        subtree_at(p.root, p.path + suffix) is Some && ((SyntaxPos { root: p.root, path: p.path + suffix }).kind()
            == NodeType::Error || (SyntaxPos { root: p.root, path: p.path + suffix }).kind() == NodeType::Token(
            Token::Error,
        )) ==> errors_in(p).contains(SyntaxPos { root: p.root, path: p.path + suffix }),
{
    lemma_errors_in_subtree(p);
    let q = SyntaxPos { root: p.root, path: p.path + suffix };
    if subtree_at(p.root, p.path + suffix) is Some && (q.kind() == NodeType::Error || q.kind() == NodeType::Token(
        Token::Error,
    )) {
        lemma_errors_complete(p, suffix);
    }
}

/// Children whose flag is set are kept, and nothing else appears.
pub proof fn lemma_keep_flagged(s: Seq<Rc<GreenNode>>, flags: Seq<bool>)
    ensures
        forall|i: int| 0 <= i < s.len() && flags[i] ==> keep_flagged(s, flags).contains(#[trigger] s[i]),
        forall|j: int| 0 <= j < keep_flagged(s, flags).len() ==> s.contains(#[trigger] keep_flagged(s, flags)[j]),
    decreases s.len(),
{
    if s.len() > 0 {
        let d = s.drop_last();
        lemma_keep_flagged(d, flags);
        let r = keep_flagged(d, flags);
        assert forall|i: int| 0 <= i < s.len() && flags[i] implies keep_flagged(s, flags).contains(#[trigger] s[i]) by {
            if i < s.len() - 1 {
                assert(d[i] == s[i]);
                let j = choose|j: int| 0 <= j < r.len() && r[j] == d[i];
                if flags[s.len() - 1] {
                    assert(keep_flagged(s, flags)[j] == s[i]);
                }
            } else {
                assert(keep_flagged(s, flags)[r.len() as int] == s[i]);
            }
        }
        assert forall|j: int| 0 <= j < keep_flagged(s, flags).len() implies s.contains(#[trigger] keep_flagged(s, flags)[j]) by {
            if j < r.len() {
                let m = choose|m: int| 0 <= m < d.len() && d[m] == r[j];
                assert(s[m] == r[j]);
            } else {
                assert(s[s.len() - 1] == keep_flagged(s, flags)[j]);
            }
        }
    }
}

/// The last node that is neither a closing brace nor trivia is one of the nodes.
pub proof fn lemma_last_significant_in_range(s: Seq<Rc<GreenNode>>, n: int)
    requires
        n <= s.len(),
    ensures
        last_significant(s, n) matches Some(i) ==> 0 <= i < n,
    decreases n,
{
    if n > 0 {
        lemma_last_significant_in_range(s, n - 1);
    }
}

/// Removing a trailing comma removes nothing but a comma.
pub proof fn lemma_without_trailing_comma(s: Seq<Rc<GreenNode>>)
    ensures
        forall|i: int|
            0 <= i < s.len() && (#[trigger] s[i]).spec_kind() != NodeType::Token(Token::Comma)
                ==> without_trailing_comma(s).contains(s[i]),
        forall|j: int| 0 <= j < without_trailing_comma(s).len() ==> s.contains(#[trigger] without_trailing_comma(s)[j]),
{
    let r = without_trailing_comma(s);
    lemma_last_significant_in_range(s, s.len() as int);
    match last_significant(s, s.len() as int) {
        Some(c) => {
            if s[c].spec_kind() == NodeType::Token(Token::Comma) {
                assert(r == s.remove(c));
                assert forall|i: int| 0 <= i < s.len() && (#[trigger] s[i]).spec_kind() != NodeType::Token(Token::Comma)
                    implies r.contains(s[i]) by {
                    if i < c {
                        assert(r[i] == s[i]);
                    } else {
                        assert(r[i - 1] == s[i]);
                    }
                }
                assert forall|j: int| 0 <= j < r.len() implies s.contains(#[trigger] r[j]) by {
                    if j < c {
                        assert(s[j] == r[j]);
                    } else {
                        assert(s[j + 1] == r[j]);
                    }
                }
            } else {
                assert forall|i: int| 0 <= i < s.len() && (#[trigger] s[i]).spec_kind() != NodeType::Token(Token::Comma)
                    implies r.contains(s[i]) by {
                    assert(r[i] == s[i]);
                }
                assert forall|j: int| 0 <= j < r.len() implies s.contains(#[trigger] r[j]) by {
                    assert(s[j] == r[j]);
                }
            }
        },
        None => {
            assert forall|i: int| 0 <= i < s.len() && (#[trigger] s[i]).spec_kind() != NodeType::Token(Token::Comma)
                implies r.contains(s[i]) by {
                assert(r[i] == s[i]);
            }
            assert forall|j: int| 0 <= j < r.len() implies s.contains(#[trigger] r[j]) by {
                assert(s[j] == r[j]);
            }
        },
    }
}

/// The children that filtering may drop: entries, whitespace and comments,
/// and in a pattern also commas. Every other child is always kept.
pub open spec fn filter_may_drop(style: FilterStyle, kind: NodeType) -> bool {
    ||| kind == NodeType::Token(Token::Whitespace)
    ||| kind == NodeType::Token(Token::Comment)
    ||| (style == FilterStyle::Pattern && (kind == NodeType::PatEntry || kind == NodeType::Token(Token::Comma)))
    ||| (style == FilterStyle::AttrSet && kind == NodeType::SetEntry)
}

/// Filtering the entries of a pattern or a set, whatever the callback
/// answers, keeps every child that is not an entry, whitespace, a comment or
/// (in a pattern) a comma — such as the `...` of a pattern or the `inherit`s
/// of a set — and the remaining children all come from the node.
pub proof fn lemma_filter_keeps_other_children(style: FilterStyle, p: SyntaxPos, answers: Seq<bool>)
    requires
        p.valid(),
    ensures
        ({
            let children = p.tree().spec_children();
            let res = filtered_children(style, children, filter_kept(style, child_kinds(p), answers));
            &&& forall|i: int|
                0 <= i < children.len() && !filter_may_drop(style, (#[trigger] children[i]).spec_kind())
                    ==> res.contains(children[i])
            &&& forall|j: int| 0 <= j < res.len() ==> children.contains(#[trigger] res[j])
        }),
{
    let children = p.tree().spec_children();
    let kinds = child_kinds(p);
    let kept = filter_kept(style, kinds, answers);
    let flagged = keep_flagged(children, kept);
    let res = filtered_children(style, children, kept);
    lemma_keep_flagged(children, kept);
    lemma_without_trailing_comma(flagged);
    assert forall|i: int| 0 <= i < children.len() && !filter_may_drop(style, (#[trigger] children[i]).spec_kind())
        implies res.contains(children[i]) by {
        lemma_child(p, i);
        assert(kinds[i] == children[i].spec_kind());
        assert(kept[i]);
        assert(flagged.contains(children[i]));
        if style == FilterStyle::Pattern {
            let j = choose|j: int| 0 <= j < flagged.len() && flagged[j] == children[i];
            assert(flagged[j].spec_kind() != NodeType::Token(Token::Comma));
        }
    }
    assert forall|j: int| 0 <= j < res.len() implies children.contains(#[trigger] res[j]) by {
        if style == FilterStyle::Pattern {
            let m = choose|m: int| 0 <= m < flagged.len() && flagged[m] == res[j];
            assert(flagged.contains(flagged[m]));
        }
    }
}


/// Separators share the fate of what precedes them: in a pattern, a comma or
/// whitespace right after an entry is kept exactly when the entry is, and in
/// both filters a separator right after another separator (whitespace, or a
/// comma in a pattern) is kept exactly when that one is.
pub proof fn lemma_filter_separators(style: FilterStyle, kinds: Seq<NodeType>, answers: Seq<bool>, i: int)
    requires
        0 < i < kinds.len(),
        kinds[i] == NodeType::Token(Token::Whitespace) || (style == FilterStyle::Pattern && kinds[i]
            == NodeType::Token(Token::Comma)),
    ensures
        style == FilterStyle::Pattern && kinds[i - 1] == NodeType::PatEntry ==> filter_kept(style, kinds, answers)[i]
            == filter_kept(style, kinds, answers)[i - 1],
        (kinds[i - 1] == NodeType::Token(Token::Whitespace) || (style == FilterStyle::Pattern && kinds[i - 1]
            == NodeType::Token(Token::Comma))) ==> filter_kept(style, kinds, answers)[i] == filter_kept(
            style,
            kinds,
            answers,
        )[i - 1],
{
    let prev = filter_step_at(style, kinds, answers, (i - 1) as nat);
    assert(filter_state(style, kinds, answers, i as nat) == prev.1);
}

} // verus!
