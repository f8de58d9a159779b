use vstd::prelude::*;
use std::rc::Rc;
use crate::token::Token;
use crate::tree::{NodeType, GreenNode, Node, SyntaxPos, replaced};
use crate::typed::{TypedNode, Pattern, PatEntry, AttrSet, SetEntry};

verus! {

/// Which entries are being filtered: those of a pattern or those of a set.
/// The two differ a little in how they treat the nodes around entries.
#[derive(Clone, Copy, Debug, PartialEq, Eq, Structural)]
pub enum FilterStyle {
    Pattern,
    AttrSet,
}

impl FilterStyle {
    pub open spec fn spec_entry_kind(self) -> NodeType {
        match self {
            FilterStyle::Pattern => NodeType::PatEntry,
            FilterStyle::AttrSet => NodeType::SetEntry,
        }
    }

    /// The kind of the entries that are filtered
    #[verifier::when_used_as_spec(spec_entry_kind)]
    pub fn entry_kind(self) -> (res: NodeType)
        ensures
            res == self.spec_entry_kind(),
    {
        match self {
            FilterStyle::Pattern => NodeType::PatEntry,
            FilterStyle::AttrSet => NodeType::SetEntry,
        }
    }
}

/// What the filter remembers while it walks over the children: the decision
/// taken ahead of time for the next entry (after a comment), the decision
/// for the last entry, and how many answers of the callback it has used.
pub struct FilterState {
    pub next_entry: Option<bool>,
    pub last_entry: bool,
    pub used: nat,
}

pub open spec fn initial_filter_state() -> FilterState {
    FilterState { next_entry: None, last_entry: true, used: 0 }
}

/// The kinds of the children of the node at `p`, in order
pub open spec fn child_kinds(p: SyntaxPos) -> Seq<NodeType> {
    p.children().map_values(|c: SyntaxPos| c.kind())
}

/// The first sibling after child `i` that is not trivia, if it is an entry
pub open spec fn peek_entry(kinds: Seq<NodeType>, i: int, entry: NodeType) -> Option<int>
    decreases kinds.len() - i,
{
    if i + 1 < 0 || i + 1 >= kinds.len() {
        None
    } else if kinds[i + 1].spec_is_trivia() {
        peek_entry(kinds, i + 1, entry)
    } else if kinds[i + 1] == entry {
        Some(i + 1)
    } else {
        None
    }
}

/// What the filter does at child `i` in state `st`, given the answers of the
/// callback in the order they are asked for: whether the child is kept, the
/// next state, and the child handed to the callback, if any.
pub open spec fn filter_step(
    style: FilterStyle,
    kinds: Seq<NodeType>,
    answers: Seq<bool>,
    i: int,
    st: FilterState,
) -> (bool, FilterState, Option<int>) {
    let kind = kinds[i];
    if kind == style.spec_entry_kind() {
        match st.next_entry {
            Some(keep) => (
                keep,
                FilterState {
                    next_entry: None,
                    last_entry: if style == FilterStyle::Pattern { keep } else { st.last_entry },
                    used: st.used,
                },
                None,
            ),
            None => {
                let answer = answers[st.used as int];
                (answer, FilterState { next_entry: None, last_entry: answer, used: st.used + 1 }, Some(i))
            },
        }
    } else if kind == NodeType::Token(Token::Comment) {
        match st.next_entry {
            Some(keep) => (keep, st, None),
            None => match peek_entry(kinds, i, style.spec_entry_kind()) {
                Some(j) => {
                    let answer = answers[st.used as int];
                    (
                        answer,
                        FilterState { next_entry: Some(answer), last_entry: answer, used: st.used + 1 },
                        Some(j),
                    )
                },
                None => (true, st, None),
            },
        }
    } else if (style == FilterStyle::Pattern && kind == NodeType::Token(Token::Comma)) || kind
        == NodeType::Token(Token::Whitespace) {
        (st.last_entry, st, None)
    } else {
        (
            true,
            FilterState {
                next_entry: if style == FilterStyle::Pattern { None } else { st.next_entry },
                last_entry: true,
                used: st.used,
            },
            None,
        )
    }
}

/// The state of the filter after the first `n` children
pub open spec fn filter_state(style: FilterStyle, kinds: Seq<NodeType>, answers: Seq<bool>, n: nat) -> FilterState
    decreases n,
{
    if n == 0 {
        initial_filter_state()
    } else {
        filter_step(style, kinds, answers, n - 1, filter_state(style, kinds, answers, (n - 1) as nat)).1
    }
}

/// What the filter does at child `i`
pub open spec fn filter_step_at(style: FilterStyle, kinds: Seq<NodeType>, answers: Seq<bool>, i: nat) -> (
    bool,
    FilterState,
    Option<int>,
) {
    filter_step(style, kinds, answers, i as int, filter_state(style, kinds, answers, i))
}

/// The children handed to the callback while the filter walks over the first
/// `n` children, in order
pub open spec fn filter_calls(style: FilterStyle, kinds: Seq<NodeType>, answers: Seq<bool>, n: nat) -> Seq<int>
    decreases n,
{
    if n == 0 {
        Seq::empty()
    } else {
        let before = filter_calls(style, kinds, answers, (n - 1) as nat);
        match filter_step_at(style, kinds, answers, (n - 1) as nat).2 {
            Some(j) => before.push(j),
            None => before,
        }
    }
}

/// Which children the filter keeps
pub open spec fn filter_kept(style: FilterStyle, kinds: Seq<NodeType>, answers: Seq<bool>) -> Seq<bool> {
    Seq::new(kinds.len(), |i: int| filter_step_at(style, kinds, answers, i as nat).0)
}

/// The callback is asked exactly once per answer used.
pub proof fn lemma_used_is_calls(style: FilterStyle, kinds: Seq<NodeType>, answers: Seq<bool>, n: nat)
    ensures
        filter_state(style, kinds, answers, n).used == filter_calls(style, kinds, answers, n).len(),
    decreases n,
{
    if n > 0 {
        lemma_used_is_calls(style, kinds, answers, (n - 1) as nat);
    }
}

/// The walk over the first `n` children depends only on the answers it used.
pub proof fn lemma_answers_prefix(
    style: FilterStyle,
    kinds: Seq<NodeType>,
    a: Seq<bool>,
    b: Seq<bool>,
    n: nat,
)
    requires
        forall|j: int| 0 <= j < filter_state(style, kinds, a, n).used ==> a[j] == b[j],
    ensures
        filter_state(style, kinds, a, n) == filter_state(style, kinds, b, n),
        filter_calls(style, kinds, a, n) == filter_calls(style, kinds, b, n),
        forall|i: nat| i < n ==> filter_step_at(style, kinds, a, i) == filter_step_at(style, kinds, b, i),
    decreases n,
{
    if n > 0 {
        let m = (n - 1) as nat;
        let sa = filter_state(style, kinds, a, m);
        assert(filter_state(style, kinds, a, n).used >= sa.used);
        lemma_answers_prefix(style, kinds, a, b, m);
        assert(filter_step_at(style, kinds, a, m) == filter_step_at(style, kinds, b, m));
        assert forall|i: nat| i < n implies filter_step_at(style, kinds, a, i) == filter_step_at(
            style,
            kinds,
            b,
            i,
        ) by {
            if i < m {
            }
        }
    }
}


/// The elements of `s` whose flag is set, in order
pub open spec fn keep_flagged<A>(s: Seq<A>, flags: Seq<bool>) -> Seq<A>
    decreases s.len(),
{
    if s.len() == 0 {
        s
    } else {
        let before = keep_flagged(s.drop_last(), flags);
        if flags[s.len() - 1] {
            before.push(s.last())
        } else {
            before
        }
    }
}

/// Closing braces and trivia are skipped when looking for a trailing comma
pub open spec fn closing_or_trivia(kind: NodeType) -> bool {
    kind == NodeType::Token(Token::CurlyBClose) || kind.spec_is_trivia()
}

/// The last of the first `n` nodes that is neither a closing brace nor trivia
pub open spec fn last_significant(s: Seq<Rc<GreenNode>>, n: int) -> Option<int>
    decreases n,
{
    if n <= 0 {
        None
    } else if closing_or_trivia(s[n - 1].spec_kind()) {
        last_significant(s, n - 1)
    } else {
        Some(n - 1)
    }
}

/// `s` without its trailing comma: the comma is removed if it is the last
/// node that is neither a closing brace nor trivia
pub open spec fn without_trailing_comma(s: Seq<Rc<GreenNode>>) -> Seq<Rc<GreenNode>> {
    match last_significant(s, s.len() as int) {
        Some(i) => if s[i].spec_kind() == NodeType::Token(Token::Comma) {
            s.remove(i)
        } else {
            s
        },
        None => s,
    }
}

/// The children that remain after filtering: the kept ones and, for a
/// pattern, without a trailing comma
pub open spec fn filtered_children(style: FilterStyle, children: Seq<Rc<GreenNode>>, kept: Seq<bool>) -> Seq<
    Rc<GreenNode>,
> {
    if style == FilterStyle::Pattern {
        without_trailing_comma(keep_flagged(children, kept))
    } else {
        keep_flagged(children, kept)
    }
}

/// The children of the node at `p` that the filter hands to the callback,
/// in order, given the callback's answers
pub open spec fn filter_calls_of(style: FilterStyle, p: SyntaxPos, answers: Seq<bool>) -> Seq<int> {
    filter_calls(style, child_kinds(p), answers, child_kinds(p).len())
}

/// `answers` are what the callback answered, in order, when it was handed
/// `passed`: the entries that the filter of the node at `p` asks about.
pub open spec fn answered<'a, T: TypedNode<'a>, F: FnMut(T) -> bool>(
    style: FilterStyle,
    p: SyntaxPos,
    callback: F,
    answers: Seq<bool>,
    passed: Seq<T>,
) -> bool {
    let calls = filter_calls_of(style, p, answers);
    &&& answers.len() == calls.len()
    &&& passed.len() == calls.len()
    &&& forall|k: int|
        0 <= k < calls.len() ==> (#[trigger] passed[k]).spec_node()@ == p.child(calls[k])
            && call_ensures(callback, (passed[k],), answers[k])
}

/// `res` is the tree of `p` where the children of `p` are those that the
/// filter keeps, given the callback's `answers`.
pub open spec fn filter_result(style: FilterStyle, p: SyntaxPos, answers: Seq<bool>, res: GreenNode) -> bool {
    replaced(
        res,
        p.root,
        p.path,
        filtered_children(style, p.tree().spec_children(), filter_kept(style, child_kinds(p), answers)),
    )
}

/// The first sibling after child `i` that is not trivia, if it is an entry
fn find_next_entry(kinds: &Vec<NodeType>, i: usize, entry: NodeType) -> (res: Option<usize>)
    requires
        i < kinds.len(),
    ensures
        res is Some <==> peek_entry(kinds@, i as int, entry) is Some,
        res matches Some(j) ==> i < j < kinds@.len() && kinds@[j as int] == entry,
        res matches Some(j) ==> peek_entry(kinds@, i as int, entry) == Some(j as int),
{
    let mut j: usize = i + 1;
    while j < kinds.len()
        invariant
            i < j <= kinds@.len(),
            peek_entry(kinds@, i as int, entry) == peek_entry(kinds@, j - 1, entry),
        decreases kinds@.len() - j,
    {
        if kinds[j].is_trivia() {
            j = j + 1;
        } else if kinds[j] == entry {
            return Some(j);
        } else {
            return None;
        }
    }
    None
}

/// The kinds of the children of `node`
fn kinds_of_children<'a>(node: &Node<'a>) -> (res: Vec<NodeType>)
    ensures
        res@ == child_kinds(node@),
{
    let n = node.child_count();
    let mut kinds: Vec<NodeType> = Vec::new();
    let mut i: usize = 0;
    while i < n
        invariant
            i <= n,
            n == node@.children().len(),
            kinds@ == child_kinds(node@).take(i as int),
        decreases n - i,
    {
        let kind = node.child(i).kind();
        kinds.push(kind);
        assert(kinds@ =~= child_kinds(node@).take(i + 1));
        i = i + 1;
    }
    assert(child_kinds(node@).take(n as int) =~= child_kinds(node@));
    kinds
}

/// Walks over the children of `node`, asking `callback` about entries, and
/// returns which children to keep together with the answers it got.
fn decide<'a, T: TypedNode<'a>, F: FnMut(T) -> bool>(node: &Node<'a>, style: FilterStyle, mut callback: F) -> (res: (
    Vec<bool>,
    Ghost<(Seq<bool>, Seq<T>)>,
))
    requires
        forall|k: NodeType| T::accepts_kind(k) <==> k == style.spec_entry_kind(),
        forall|e: T| call_requires(callback, (e,)),
    ensures
        res.0@ == filter_kept(style, child_kinds(node@), res.1@.0),
        answered(style, node@, callback, res.1@.0, res.1@.1),
{
    let kinds = kinds_of_children(node);
    let n = kinds.len();
    let entry = style.entry_kind();
    let mut keep: Vec<bool> = Vec::new();
    let mut next_entry: Option<bool> = None;
    let mut last_entry: bool = true;
    let ghost mut answers: Seq<bool> = Seq::empty();
    let ghost mut passed: Seq<T> = Seq::empty();
    let ghost k0 = kinds@;
    let ghost cb0 = callback;
    let mut i: usize = 0;
    while i < n
        invariant
            i <= n,
            n == kinds@.len(),
            k0 == kinds@,
            cb0 == callback,
            kinds@ == child_kinds(node@),
            n == node@.children().len(),
            entry == style.spec_entry_kind(),
            forall|k: NodeType| T::accepts_kind(k) <==> k == style.spec_entry_kind(),
            forall|e: T| call_requires(callback, (e,)),
            filter_state(style, k0, answers, i as nat) == (FilterState {
                next_entry,
                last_entry,
                used: answers.len(),
            }),
            keep@ == Seq::new(i as nat, |j: int| filter_step_at(style, k0, answers, j as nat).0),
            answers.len() == filter_calls(style, k0, answers, i as nat).len(),
            passed.len() == answers.len(),
            forall|k: int|
                0 <= k < answers.len() ==> (#[trigger] passed[k]).spec_node()@ == node@.child(
                    filter_calls(style, k0, answers, i as nat)[k],
                ) && call_ensures(callback, (passed[k],), answers[k]),
        decreases n - i,
    {
        let kind = kinds[i];
        let ghost before = answers;
        let ghost st = filter_state(style, k0, answers, i as nat);
        proof {
            lemma_used_is_calls(style, k0, answers, i as nat);
        }
        let mut asked: Option<usize> = None;
        let kept: bool;
        if kind == entry {
            match next_entry {
                Some(k) => {
                    next_entry = None;
                    if style == FilterStyle::Pattern {
                        last_entry = k;
                    }
                    kept = k;
                },
                None => {
                    asked = Some(i);
                    let child = node.child(i);
                    assert(child@.kind() == k0[i as int]);
                    let e = T::cast(child).unwrap();
                    let ghost ge = e;
                    let answer = callback(e);
                    proof {
                        answers = answers.push(answer);
                        passed = passed.push(ge);
                    }
                    last_entry = answer;
                    kept = answer;
                },
            }
        } else if kind == NodeType::Token(Token::Comment) {
            match next_entry {
                Some(k) => {
                    kept = k;
                },
                None => match find_next_entry(&kinds, i, entry) {
                    Some(j) => {
                        asked = Some(j);
                        let child = node.child(j);
                        assert(child@.kind() == k0[j as int]);
                        let e = T::cast(child).unwrap();
                        let ghost ge = e;
                        let answer = callback(e);
                        proof {
                            answers = answers.push(answer);
                            passed = passed.push(ge);
                        }
                        last_entry = answer;
                        next_entry = Some(answer);
                        kept = answer;
                    },
                    None => {
                        kept = true;
                    },
                },
            }
        } else if (style == FilterStyle::Pattern && kind == NodeType::Token(Token::Comma)) || kind
            == NodeType::Token(Token::Whitespace) {
            kept = last_entry;
        } else {
            last_entry = true;
            if style == FilterStyle::Pattern {
                next_entry = None;
            }
            kept = true;
        }
        proof {
            lemma_answers_prefix(style, k0, before, answers, i as nat);
            let step = filter_step_at(style, k0, answers, i as nat);
            assert(filter_state(style, k0, answers, i as nat) == st);
            assert(step.0 == kept);
            assert(step.2 == match asked { Some(j) => Some(j as int), None => None::<int> });
            assert(filter_state(style, k0, answers, (i + 1) as nat) == step.1);
            assert(keep@.push(kept) =~= Seq::new((i + 1) as nat, |j: int| filter_step_at(style, k0, answers, j as nat).0));
            lemma_used_is_calls(style, k0, answers, (i + 1) as nat);
        }
        keep.push(kept);
        i = i + 1;
    }
    assert(keep@ =~= filter_kept(style, k0, answers));
    assert(k0 == child_kinds(node@));
    (keep, Ghost((answers, passed)))
}


/// The children of `node` whose flag is set, in order
fn kept_children(node: &GreenNode, flags: &Vec<bool>) -> (res: Vec<Rc<GreenNode>>)
    requires
        flags@.len() == node.spec_children().len(),
    ensures
        res@ == keep_flagged(node.spec_children(), flags@),
{
    let n = node.child_count();
    let ghost all = node.spec_children();
    let mut res: Vec<Rc<GreenNode>> = Vec::new();
    let mut i: usize = 0;
    assert(all.take(0) =~= Seq::<Rc<GreenNode>>::empty());
    while i < n
        invariant
            i <= n,
            n == all.len(),
            all == node.spec_children(),
            flags@.len() == n,
            res@ == keep_flagged(all.take(i as int), flags@),
        decreases n - i,
    {
        assert(all.take(i + 1).drop_last() =~= all.take(i as int));
        if flags[i] {
            res.push(node.share_child(i));
        }
        i = i + 1;
    }
    assert(all.take(n as int) =~= all);
    res
}

/// Removes the trailing comma, if there is one
fn remove_trailing_comma(children: &mut Vec<Rc<GreenNode>>)
    ensures
        final(children)@ == without_trailing_comma(old(children)@),
{
    let ghost s = children@;
    let mut i: usize = children.len();
    let mut found: bool = false;
    while i > 0
        invariant_except_break
            !found,
            i <= s.len(),
            last_significant(s, s.len() as int) == last_significant(s, i as int),
        invariant
            children@ == s,
        ensures
            i <= s.len(),
            found ==> 0 < i && last_significant(s, s.len() as int) == Some((i - 1) as int),
            !found ==> last_significant(s, s.len() as int) is None,
        decreases i,
    {
        let kind = children[i - 1].kind();
        if kind == NodeType::Token(Token::CurlyBClose) || kind.is_trivia() {
            i = i - 1;
        } else {
            assert(last_significant(s, i as int) == Some((i - 1) as int));
            found = true;
            break;
        }
    }
    if found && children[i - 1].kind() == NodeType::Token(Token::Comma) {
        children.remove(i - 1);
    }
}

/// The rule shared by both filters: decide which children to keep, drop the
/// others (and, in a pattern, a trailing comma), and rebuild the tree.
fn filter_tree<'a, T: TypedNode<'a>, F: FnMut(T) -> bool>(node: &Node<'a>, style: FilterStyle, callback: F) -> (res: (
    GreenNode,
    Ghost<(Seq<bool>, Seq<T>)>,
))
    requires
        forall|k: NodeType| T::accepts_kind(k) <==> k == style.spec_entry_kind(),
        forall|e: T| call_requires(callback, (e,)),
    ensures
        answered(style, node@, callback, res.1@.0, res.1@.1),
        filter_result(style, node@, res.1@.0, res.0),
        res.0.spec_kind() == node@.root.spec_kind(),
{
    let (keep, Ghost(answers)) = decide(node, style, callback);
    let mut children = kept_children(node.green(), &keep);
    if style == FilterStyle::Pattern {
        remove_trailing_comma(&mut children);
    }
    let res = node.with_children(children);
    (res, Ghost(answers))
}

impl<'a> Pattern<'a> {
    /// Returns a clone of the tree root but without entries where the
    /// callback function returns false
    /// { a, b, c } without b is { a, c }
    pub fn filter_entries<F>(&self, callback: F) -> (res: GreenNode) where F: FnMut(PatEntry<'a>) -> bool
        requires
            self.spec_node()@.root.spec_kind() == NodeType::Root,
            forall|e: PatEntry<'a>| call_requires(callback, (e,)),
        ensures
            res.spec_kind() == NodeType::Root,
            exists|answers: Seq<bool>, passed: Seq<PatEntry<'a>>|
                #![trigger answered(FilterStyle::Pattern, self.spec_node()@, callback, answers, passed)]
                answered(FilterStyle::Pattern, self.spec_node()@, callback, answers, passed)
                    && filter_result(FilterStyle::Pattern, self.spec_node()@, answers, res),
    {
        let (res, Ghost(outcome)) = filter_tree(self.node(), FilterStyle::Pattern, callback);
        assert(answered(FilterStyle::Pattern, self.spec_node()@, callback, outcome.0, outcome.1));
        res
    }
}

impl<'a> AttrSet<'a> {
    /// Returns a clone of the tree root but without entries where the
    /// callback function returns false
    /// { a = 2; b = 3; } without 0 is { b = 3; }
    pub fn filter_entries<F>(&self, callback: F) -> (res: GreenNode) where F: FnMut(SetEntry<'a>) -> bool
        requires
            self.spec_node()@.root.spec_kind() == NodeType::Root,
            forall|e: SetEntry<'a>| call_requires(callback, (e,)),
        ensures
            res.spec_kind() == NodeType::Root,
            exists|answers: Seq<bool>, passed: Seq<SetEntry<'a>>|
                #![trigger answered(FilterStyle::AttrSet, self.spec_node()@, callback, answers, passed)]
                answered(FilterStyle::AttrSet, self.spec_node()@, callback, answers, passed)
                    && filter_result(FilterStyle::AttrSet, self.spec_node()@, answers, res),
    {
        let (res, Ghost(outcome)) = filter_tree(self.node(), FilterStyle::AttrSet, callback);
        assert(answered(FilterStyle::AttrSet, self.spec_node()@, callback, outcome.0, outcome.1));
        res
    }
}

} // verus!
