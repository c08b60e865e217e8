//! Sibling-list optimization: whitespace elision, slot reordering and the
//! folding of `v-if` / `v-else-if` / `v-else` chains.

use vstd::prelude::*;
use crate::ast::{
    Conditional, ConditionalNodeSequence, ElementKind, ElementNode, Node, StartingTag, StrOrExpr,
    VueDirectives,
};
use crate::ident::str_eq;

verus! {

/// Whether a character is white space.
pub uninterp spec fn white_space(c: char) -> bool;

/// Relies on `char::is_whitespace` of std: the Unicode `White_Space` property,
/// which `str::trim` strips.
#[verifier::external_body]
fn is_white(c: char) -> (r: bool)
    ensures
        r == white_space(c),
{
    c.is_whitespace()
}

/// Every character is white space.
pub open spec fn blank(s: Seq<char>) -> bool {
    forall|i: int| 0 <= i < s.len() ==> white_space(#[trigger] s[i])
}

/// Whether `s` holds white space only.
pub fn is_blank(s: &str) -> (r: bool)
    ensures
        r == blank(s@),
{
    let n = s.unicode_len();
    let mut i: usize = 0;
    while i < n
        invariant
            i <= n,
            n == s@.len(),
            forall|j: int| 0 <= j < i ==> white_space(#[trigger] s@[j]),
        decreases n - i,
    {
        if !is_white(s.get_char(i)) {
            return false;
        }
        i = i + 1;
    }
    true
}

pub open spec fn is_blank_text(n: Node) -> bool {
    match n {
        Node::Text(t) => blank(t@),
        _ => false,
    }
}

pub open spec fn is_element_or_comment(n: Node) -> bool {
    n is Element || n is Comment
}

/// The node at `i` is a white-space text that whitespace elision drops: it is
/// first or last, or stands between two elements or comments.
pub open spec fn drops_whitespace(s: Seq<Node>, i: int) -> bool {
    &&& is_blank_text(s[i])
    &&& (i == 0 || i == s.len() - 1 || (is_element_or_comment(s[i - 1])
        && is_element_or_comment(s[i + 1])))
}

/// What whitespace elision keeps of the first `n` nodes.
pub open spec fn kept_prefix(s: Seq<Node>, n: int) -> Seq<Node>
    decreases n,
{
    if n <= 0 {
        Seq::empty()
    } else if drops_whitespace(s, n - 1) {
        kept_prefix(s, n - 1)
    } else {
        kept_prefix(s, n - 1).push(s[n - 1])
    }
}

/// The sibling list after whitespace elision.
pub open spec fn elide_whitespace(s: Seq<Node>) -> Seq<Node> {
    kept_prefix(s, s.len() as int)
}

/// Whether the node belongs to a component's default slot: anything but an
/// element whose `v-slot` names a slot other than `default`.
pub open spec fn from_default_slot(n: Node) -> bool {
    match n {
        Node::Element(el) => match el.starting_tag.directives {
            Some(d) => match d.v_slot {
                Some(vs) => match vs.slot_name {
                    Some(StrOrExpr::Str(name)) => name@ == "default"@,
                    Some(StrOrExpr::Expr(_)) => false,
                    None => true,
                },
                None => true,
            },
            None => true,
        },
        _ => true,
    }
}

/// The nodes among the first `n` whose default-slot membership is `dflt`, in
/// order.
pub open spec fn select_slot(s: Seq<Node>, n: int, dflt: bool) -> Seq<Node>
    decreases n,
{
    if n <= 0 {
        Seq::empty()
    } else if from_default_slot(s[n - 1]) == dflt {
        select_slot(s, n - 1, dflt).push(s[n - 1])
    } else {
        select_slot(s, n - 1, dflt)
    }
}

/// Named-slot nodes first, then default-slot nodes, each group in its order.
pub open spec fn slot_order(s: Seq<Node>) -> Seq<Node> {
    select_slot(s, s.len() as int, false) + select_slot(s, s.len() as int, true)
}

/// A node of a folded sibling list: a node kept as it was, or a chain of an
/// `if` branch, its `else-if` branches and an optional `else` element.
pub enum FoldedNode {
    Plain(Node),
    Chain(Conditional, Seq<Conditional>, Option<ElementNode>),
}

/// An open chain while folding: its `if` branch and its `else-if` branches.
pub type OpenChain = Option<(Conditional, Seq<Conditional>)>;

/// The element with its `v-if` taken out.
pub open spec fn without_if(el: ElementNode) -> ElementNode {
    match el.starting_tag.directives {
        Some(d) => ElementNode {
            starting_tag: StartingTag {
                directives: Some(Box::new(VueDirectives { v_if: None, ..*d })),
                ..el.starting_tag
            },
            ..el
        },
        None => el,
    }
}

/// The element with its `v-else-if` taken out.
pub open spec fn without_else_if(el: ElementNode) -> ElementNode {
    match el.starting_tag.directives {
        Some(d) => ElementNode {
            starting_tag: StartingTag {
                directives: Some(Box::new(VueDirectives { v_else_if: None, ..*d })),
                ..el.starting_tag
            },
            ..el
        },
        None => el,
    }
}

/// Ends the open chain, if any, onto the output.
pub open spec fn close(out: Seq<FoldedNode>, open: OpenChain) -> Seq<FoldedNode> {
    match open {
        Some((c, es)) => out.push(FoldedNode::Chain(c, es, None)),
        None => out,
    }
}

/// One step of the left-to-right fold.
pub open spec fn fold_step(st: (Seq<FoldedNode>, OpenChain), n: Node) -> (
    Seq<FoldedNode>,
    OpenChain,
) {
    let (out, open) = st;
    match n {
        Node::Element(el) => match el.starting_tag.directives {
            Some(d) => if d.v_if is Some {
                (
                    close(out, open),
                    Some((Conditional { condition: d.v_if->0, node: without_if(el) }, Seq::empty())),
                )
            } else if d.v_else_if is Some && open is Some {
                let (c, es) = open->0;
                (
                    out,
                    Some(
                        (
                            c,
                            es.push(
                                Conditional { condition: d.v_else_if->0, node: without_else_if(el) },
                            ),
                        ),
                    ),
                )
            } else if d.v_else && open is Some {
                let (c, es) = open->0;
                (out.push(FoldedNode::Chain(c, es, Some(el))), None)
            } else {
                (close(out, open).push(FoldedNode::Plain(n)), None)
            },
            None => (close(out, open).push(FoldedNode::Plain(n)), None),
        },
        Node::Comment(_) => if open is Some {
            st
        } else {
            (out.push(FoldedNode::Plain(n)), None)
        },
        _ => (close(out, open).push(FoldedNode::Plain(n)), None),
    }
}

/// The fold state after the first `n` nodes.
pub open spec fn fold_prefix(s: Seq<Node>, n: int) -> (Seq<FoldedNode>, OpenChain)
    decreases n,
{
    if n <= 0 {
        (Seq::empty(), None)
    } else {
        fold_step(fold_prefix(s, n - 1), s[n - 1])
    }
}

/// The folded sibling list.
pub open spec fn fold_all(s: Seq<Node>) -> Seq<FoldedNode> {
    let st = fold_prefix(s, s.len() as int);
    close(st.0, st.1)
}

/// The sibling list after the three passes, for a parent of the given kind.
pub open spec fn optimized(s: Seq<Node>, kind: ElementKind) -> Seq<FoldedNode> {
    let e = elide_whitespace(s);
    if kind == ElementKind::Component {
        fold_all(slot_order(e))
    } else {
        fold_all(e)
    }
}

/// A node stands for a folded node: the same node, or a conditional sequence
/// with the same branches.
pub open spec fn node_matches(n: Node, f: FoldedNode) -> bool {
    match f {
        FoldedNode::Plain(x) => n == x,
        FoldedNode::Chain(c, es, e) => match n {
            Node::ConditionalSeq(q) => {
                &&& *q.if_node == c
                &&& q.else_if_nodes@ == es
                &&& match (q.else_node, e) {
                    (Some(b), Some(x)) => *b == x,
                    (None, None) => true,
                    _ => false,
                }
            },
            _ => false,
        },
    }
}

pub open spec fn nodes_match(ns: Seq<Node>, fs: Seq<FoldedNode>) -> bool {
    &&& ns.len() == fs.len()
    &&& forall|i: int| 0 <= i < ns.len() ==> node_matches(#[trigger] ns[i], fs[i])
}

pub open spec fn open_model(open: Option<(Conditional, Vec<Conditional>)>) -> OpenChain {
    match open {
        Some((c, es)) => Some((c, es@)),
        None => None,
    }
}

/// The same elements, last first.
pub(crate) fn into_reversed<T>(v: Vec<T>) -> (r: Vec<T>)
    ensures
        r@.len() == v@.len(),
        forall|j: int| 0 <= j < v@.len() ==> r@[j] == v@[v@.len() - 1 - j],
{
    let ghost s = v@;
    let mut v = v;
    let mut r: Vec<T> = Vec::new();
    while v.len() > 0
        invariant
            r@.len() + v@.len() == s.len(),
            v@ == s.subrange(0, v@.len() as int),
            forall|j: int| 0 <= j < r@.len() ==> r@[j] == s[s.len() - 1 - j],
        decreases v@.len(),
    {
        match v.pop() {
            Some(x) => r.push(x),
            None => {},
        }
    }
    r
}

fn blank_text(n: &Node) -> (r: bool)
    ensures
        r == is_blank_text(*n),
{
    match n {
        Node::Text(t) => is_blank(t.as_str()),
        _ => false,
    }
}

fn element_or_comment(n: &Node) -> (r: bool)
    ensures
        r == is_element_or_comment(*n),
{
    match n {
        Node::Element(_) => true,
        Node::Comment(_) => true,
        _ => false,
    }
}

/// Drops white-space text nodes at both ends and between two elements or
/// comments.
pub fn elide_whitespace_nodes(children: Vec<Node>) -> (r: Vec<Node>)
    ensures
        r@ == elide_whitespace(children@),
{
    let ghost s = children@;
    let n = children.len();
    let mut drop: Vec<bool> = Vec::new();
    let mut i: usize = 0;
    while i < n
        invariant
            i <= n,
            n == s.len(),
            children@ == s,
            drop@.len() == i,
            forall|j: int| 0 <= j < i ==> drop@[j] == drops_whitespace(s, j),
        decreases n - i,
    {
        let d = blank_text(&children[i]) && (i == 0 || i == n - 1 || (element_or_comment(
            &children[i - 1],
        ) && element_or_comment(&children[i + 1])));
        drop.push(d);
        i = i + 1;
    }
    let mut rev = into_reversed(children);
    let mut out: Vec<Node> = Vec::new();
    let mut k: usize = 0;
    while k < n
        invariant
            k <= n,
            n == s.len(),
            drop@.len() == n,
            forall|j: int| 0 <= j < n ==> drop@[j] == drops_whitespace(s, j),
            rev@.len() == n - k,
            forall|j: int| 0 <= j < n - k ==> rev@[j] == s[n - 1 - j],
            out@ == kept_prefix(s, k as int),
        decreases n - k,
    {
        match rev.pop() {
            Some(x) => {
                if !drop[k] {
                    out.push(x);
                }
            },
            None => {},
        }
        k = k + 1;
    }
    out
}

/// Whether the node belongs to a component's default slot.
pub fn is_from_default_slot(n: &Node) -> (r: bool)
    ensures
        r == from_default_slot(*n),
{
    match n {
        Node::Element(el) => match &el.starting_tag.directives {
            Some(d) => match &d.v_slot {
                Some(vs) => match &vs.slot_name {
                    Some(StrOrExpr::Str(name)) => str_eq(name.as_str(), "default"),
                    Some(StrOrExpr::Expr(_)) => false,
                    None => true,
                },
                None => true,
            },
            None => true,
        },
        _ => true,
    }
}

/// Moves the nodes of named slots before those of the default slot, keeping
/// the order within each group.
pub fn order_slots(children: Vec<Node>) -> (r: Vec<Node>)
    ensures
        r@ == slot_order(children@),
{
    let ghost s = children@;
    let n = children.len();
    let mut rev = into_reversed(children);
    let mut named: Vec<Node> = Vec::new();
    let mut dflt: Vec<Node> = Vec::new();
    let mut k: usize = 0;
    while k < n
        invariant
            k <= n,
            n == s.len(),
            rev@.len() == n - k,
            forall|j: int| 0 <= j < n - k ==> rev@[j] == s[n - 1 - j],
            named@ == select_slot(s, k as int, false),
            dflt@ == select_slot(s, k as int, true),
        decreases n - k,
    {
        match rev.pop() {
            Some(x) => {
                if is_from_default_slot(&x) {
                    dflt.push(x);
                } else {
                    named.push(x);
                }
            },
            None => {},
        }
        k = k + 1;
    }
    named.append(&mut dflt);
    named
}

/// Which of `v-if`, `v-else-if` and `v-else` the element carries.
fn conditional_marks(el: &ElementNode) -> (r: (bool, bool, bool))
    ensures
        r.0 == (el.starting_tag.directives is Some && el.starting_tag.directives->0.v_if is Some),
        r.1 == (el.starting_tag.directives is Some
            && el.starting_tag.directives->0.v_else_if is Some),
        r.2 == (el.starting_tag.directives is Some && el.starting_tag.directives->0.v_else),
{
    match &el.starting_tag.directives {
        Some(d) => (d.v_if.is_some(), d.v_else_if.is_some(), d.v_else),
        None => (false, false, false),
    }
}

/// Takes the `v-if` condition out of an element that carries one.
fn take_if(el: ElementNode) -> (r: (crate::ast::Expr, ElementNode))
    requires
        el.starting_tag.directives is Some,
        el.starting_tag.directives->0.v_if is Some,
    ensures
        r.0 == el.starting_tag.directives->0.v_if->0,
        r.1 == without_if(el),
{
    let mut el = el;
    let dirs = el.starting_tag.directives.take();
    match dirs {
        Some(b) => {
            let mut d = *b;
            match d.v_if.take() {
                Some(c) => {
                    el.starting_tag.directives = Some(Box::new(d));
                    (c, el)
                },
                None => {
                    proof {
                        assert(false);
                    }
                    (crate::ast::Expr { tokens: Vec::new() }, el)
                },
            }
        },
        None => {
            proof {
                assert(false);
            }
            (crate::ast::Expr { tokens: Vec::new() }, el)
        },
    }
}

/// Takes the `v-else-if` condition out of an element that carries one.
fn take_else_if(el: ElementNode) -> (r: (crate::ast::Expr, ElementNode))
    requires
        el.starting_tag.directives is Some,
        el.starting_tag.directives->0.v_else_if is Some,
    ensures
        r.0 == el.starting_tag.directives->0.v_else_if->0,
        r.1 == without_else_if(el),
{
    let mut el = el;
    let dirs = el.starting_tag.directives.take();
    match dirs {
        Some(b) => {
            let mut d = *b;
            match d.v_else_if.take() {
                Some(c) => {
                    el.starting_tag.directives = Some(Box::new(d));
                    (c, el)
                },
                None => {
                    proof {
                        assert(false);
                    }
                    (crate::ast::Expr { tokens: Vec::new() }, el)
                },
            }
        },
        None => {
            proof {
                assert(false);
            }
            (crate::ast::Expr { tokens: Vec::new() }, el)
        },
    }
}

/// Pushes the open chain, if any, as a conditional sequence.
fn close_into(
    out: &mut Vec<Node>,
    open: Option<(Conditional, Vec<Conditional>)>,
    Ghost(fs): Ghost<Seq<FoldedNode>>,
)
    requires
        nodes_match(old(out)@, fs),
    ensures
        nodes_match(final(out)@, close(fs, open_model(open))),
{
    match open {
        Some((c, es)) => {
            out.push(
                Node::ConditionalSeq(
                    ConditionalNodeSequence { if_node: Box::new(c), else_if_nodes: es, else_node: None },
                ),
            );
            assert(node_matches(out@[out@.len() - 1], close(fs, open_model(Some((c, es))))[fs.len() as int]));
        },
        None => {},
    }
}

/// Folds each `v-if` / `v-else-if` / `v-else` run into one conditional
/// sequence; comments inside a run are absorbed, orphan branches stay as
/// they are.
pub fn fold_conditionals(children: Vec<Node>) -> (r: Vec<Node>)
    ensures
        nodes_match(r@, fold_all(children@)),
{
    let ghost s = children@;
    let n = children.len();
    let mut rev = into_reversed(children);
    let mut out: Vec<Node> = Vec::new();
    let mut open: Option<(Conditional, Vec<Conditional>)> = None;
    let mut k: usize = 0;
    while k < n
        invariant
            k <= n,
            n == s.len(),
            rev@.len() == n - k,
            forall|j: int| 0 <= j < n - k ==> rev@[j] == s[n - 1 - j],
            nodes_match(out@, fold_prefix(s, k as int).0),
            open_model(open) == fold_prefix(s, k as int).1,
        decreases n - k,
    {
        let ghost st = fold_prefix(s, k as int);
        let popped = rev.pop();
        match popped {
            Some(child) => {
                assert(child == s[k as int]);
                match child {
                    Node::Element(el) => {
                        let (has_if, has_else_if, has_else) = conditional_marks(&el);
                        if has_if {
                            close_into(&mut out, open, Ghost(st.0));
                            let (c, e) = take_if(el);
                            open = Some((Conditional { condition: c, node: e }, Vec::new()));
                            assert((open_model(open)->0).1 =~= Seq::<Conditional>::empty());
                        } else if has_else_if && open.is_some() {
                            let (c, e) = take_else_if(el);
                            match open {
                                Some((first, es)) => {
                                    let mut es = es;
                                    es.push(Conditional { condition: c, node: e });
                                    open = Some((first, es));
                                },
                                None => {
                                    open = None;
                                },
                            }
                        } else if has_else && open.is_some() {
                            match open {
                                Some((first, es)) => {
                                    out.push(
                                        Node::ConditionalSeq(
                                            ConditionalNodeSequence {
                                                if_node: Box::new(first),
                                                else_if_nodes: es,
                                                else_node: Some(Box::new(el)),
                                            },
                                        ),
                                    );
                                },
                                None => {},
                            }
                            open = None;
                        } else {
                            close_into(&mut out, open, Ghost(st.0));
                            open = None;
                            out.push(Node::Element(el));
                        }
                    },
                    Node::Comment(t) => {
                        if open.is_none() {
                            out.push(Node::Comment(t));
                        }
                    },
                    other => {
                        close_into(&mut out, open, Ghost(st.0));
                        open = None;
                        out.push(other);
                    },
                }
            },
            None => {},
        }
        k = k + 1;
    }
    let ghost st = fold_prefix(s, n as int);
    close_into(&mut out, open, Ghost(st.0));
    out
}

/// Optimizes a sibling list: drops white-space text nodes at both ends and
/// between elements or comments, puts named slots first under a component,
/// and folds conditional chains into conditional sequences.
pub fn optimize_children(children: &mut Vec<Node>, element_kind: ElementKind)
    ensures
        nodes_match(final(children)@, optimized(old(children)@, element_kind)),
{
    let mut taken: Vec<Node> = Vec::new();
    std::mem::swap(children, &mut taken);
    let kept = elide_whitespace_nodes(taken);
    let ordered = if element_kind == ElementKind::Component {
        order_slots(kept)
    } else {
        kept
    };
    let mut folded = fold_conditionals(ordered);
    std::mem::swap(children, &mut folded);
}

/// The node is an element that carries `v-if`.
pub open spec fn has_v_if(n: Node) -> bool {
    n is Element && n->Element_0.starting_tag.directives is Some
        && n->Element_0.starting_tag.directives->0.v_if is Some
}

/// The node is an element with `v-else-if` and no `v-if`.
pub open spec fn is_else_if_branch(n: Node) -> bool {
    n is Element && n->Element_0.starting_tag.directives is Some
        && n->Element_0.starting_tag.directives->0.v_if is None
        && n->Element_0.starting_tag.directives->0.v_else_if is Some
}

/// The node is an element with `v-else` and neither `v-if` nor `v-else-if`.
pub open spec fn is_else_branch(n: Node) -> bool {
    n is Element && n->Element_0.starting_tag.directives is Some
        && n->Element_0.starting_tag.directives->0.v_if is None
        && n->Element_0.starting_tag.directives->0.v_else_if is None
        && n->Element_0.starting_tag.directives->0.v_else
}

/// The siblings form one chain: an `if`, then `else-if`s, then at most one
/// `else`, last.
pub open spec fn chain_run(s: Seq<Node>) -> bool {
    &&& s.len() >= 1
    &&& has_v_if(s[0])
    &&& forall|i: int| 1 <= i < s.len() - 1 ==> is_else_if_branch(#[trigger] s[i])
    &&& s.len() > 1 ==> (is_else_if_branch(s[s.len() - 1]) || is_else_branch(s[s.len() - 1]))
}

/// The element with `v-if` set to the condition.
pub open spec fn with_if(el: ElementNode, c: crate::ast::Expr) -> ElementNode {
    match el.starting_tag.directives {
        Some(d) => ElementNode {
            starting_tag: StartingTag {
                directives: Some(Box::new(VueDirectives { v_if: Some(c), ..*d })),
                ..el.starting_tag
            },
            ..el
        },
        None => el,
    }
}

/// The element with `v-else-if` set to the condition.
pub open spec fn with_else_if(el: ElementNode, c: crate::ast::Expr) -> ElementNode {
    match el.starting_tag.directives {
        Some(d) => ElementNode {
            starting_tag: StartingTag {
                directives: Some(Box::new(VueDirectives { v_else_if: Some(c), ..*d })),
                ..el.starting_tag
            },
            ..el
        },
        None => el,
    }
}

/// The `else-if` branches flattened back into elements, in order.
pub open spec fn flatten_else_ifs(es: Seq<Conditional>) -> Seq<Node> {
    Seq::new(es.len(), |i: int| Node::Element(with_else_if(es[i].node, es[i].condition)))
}

/// A chain flattened back into sibling elements: the `if` branch, the
/// `else-if` branches and the `else` element, in order, each with its
/// condition restored.
pub open spec fn flatten_chain(c: Conditional, es: Seq<Conditional>, e: Option<ElementNode>) -> Seq<
    Node,
> {
    let head = seq![Node::Element(with_if(c.node, c.condition))] + flatten_else_ifs(es);
    match e {
        Some(x) => head.push(Node::Element(x)),
        None => head,
    }
}

proof fn lemma_chain_prefix(s: Seq<Node>, n: int)
    requires
        chain_run(s),
        1 <= n <= s.len(),
        n < s.len() || !is_else_branch(s[s.len() - 1]),
    ensures
        fold_prefix(s, n).0 == Seq::<FoldedNode>::empty(),
        fold_prefix(s, n).1 is Some,
        flatten_chain((fold_prefix(s, n).1->0).0, (fold_prefix(s, n).1->0).1, None) =~= s.subrange(
            0,
            n,
        ),
    decreases n,
{
    if n == 1 {
        assert(fold_prefix(s, 0) == (Seq::<FoldedNode>::empty(), None::<(Conditional, Seq<Conditional>)>));
        let st = fold_prefix(s, 1);
        let (c, es) = st.1->0;
        assert(es =~= Seq::<Conditional>::empty());
        assert(with_if(c.node, c.condition) == s[0]->Element_0);
    } else {
        lemma_chain_prefix(s, n - 1);
        let prev = fold_prefix(s, n - 1);
        let (c, es) = prev.1->0;
        let st = fold_prefix(s, n);
        assert(is_else_if_branch(s[n - 1]));
        let (c2, es2) = st.1->0;
        assert(c2 == c);
        let el = s[n - 1]->Element_0;
        assert(with_else_if(without_else_if(el), el.starting_tag.directives->0.v_else_if->0) == el);
        assert(flatten_else_ifs(es2) =~= flatten_else_ifs(es).push(s[n - 1]));
        assert(s.subrange(0, n) =~= s.subrange(0, n - 1).push(s[n - 1]));
    }
}

/// Folding a run of `if`, `else-if`s and an optional `else` gives one chain,
/// and flattening that chain gives back the run: the same elements in the
/// same order with the same conditions.
pub proof fn lemma_fold_soundness(s: Seq<Node>)
    requires
        chain_run(s),
    ensures
        fold_all(s).len() == 1,
        fold_all(s)[0] is Chain,
        flatten_chain(fold_all(s)[0]->Chain_0, fold_all(s)[0]->Chain_1, fold_all(s)[0]->Chain_2)
            == s,
{
    let n = s.len() as int;
    if is_else_branch(s[n - 1]) && n > 1 {
        lemma_chain_prefix(s, n - 1);
        let prev = fold_prefix(s, n - 1);
        assert(s.subrange(0, n) =~= s.subrange(0, n - 1).push(s[n - 1]));
        assert(s.subrange(0, n) == s);
    } else {
        lemma_chain_prefix(s, n);
        assert(s.subrange(0, n) == s);
    }
}

proof fn lemma_fold_without_if(s: Seq<Node>, n: int)
    requires
        0 <= n <= s.len(),
        forall|j: int| 0 <= j < n ==> !has_v_if(#[trigger] s[j]),
    ensures
        fold_prefix(s, n).1 is None,
        fold_prefix(s, n).0 =~= Seq::new(n as nat, |j: int| FoldedNode::Plain(s[j])),
    decreases n,
{
    if n > 0 {
        lemma_fold_without_if(s, n - 1);
        assert(!has_v_if(s[n - 1]));
    }
}

proof fn lemma_fold_grows(s: Seq<Node>, n: int, m: int)
    requires
        0 <= n <= m <= s.len(),
    ensures
        fold_prefix(s, n).0.len() <= fold_prefix(s, m).0.len(),
        forall|j: int|
            0 <= j < fold_prefix(s, n).0.len() ==> fold_prefix(s, m).0[j] == fold_prefix(s, n).0[j],
    decreases m - n,
{
    if n < m {
        lemma_fold_grows(s, n, m - 1);
    }
}

/// An `else-if` or `else` with no `if` before it among its siblings stays a
/// plain node at its place; a sibling list with no `if` at all folds to
/// itself, with the same number of siblings.
pub proof fn lemma_orphans_stay(s: Seq<Node>, i: int)
    requires
        0 <= i < s.len(),
        forall|j: int| 0 <= j <= i ==> !has_v_if(#[trigger] s[j]),
    ensures
        fold_all(s)[i] == FoldedNode::Plain(s[i]),
        (forall|j: int| 0 <= j < s.len() ==> !has_v_if(#[trigger] s[j])) ==> fold_all(s)
            =~= Seq::new(s.len(), |j: int| FoldedNode::Plain(s[j])),
{
    lemma_fold_without_if(s, i + 1);
    lemma_fold_grows(s, i + 1, s.len() as int);
    if forall|j: int| 0 <= j < s.len() ==> !has_v_if(#[trigger] s[j]) {
        lemma_fold_without_if(s, s.len() as int);
    }
}

/// How many of the first `i` nodes whitespace elision keeps.
pub open spec fn kept_count(s: Seq<Node>, i: int) -> int {
    kept_prefix(s, i).len() as int
}

proof fn lemma_kept_prefix_grows(s: Seq<Node>, i: int, m: int)
    requires
        0 <= i <= m <= s.len(),
    ensures
        kept_count(s, i) <= kept_count(s, m),
        forall|j: int| 0 <= j < kept_count(s, i) ==> kept_prefix(s, m)[j] == kept_prefix(s, i)[j],
    decreases m - i,
{
    if i < m {
        lemma_kept_prefix_grows(s, i, m - 1);
    }
}

proof fn lemma_kept_at(s: Seq<Node>, i: int)
    requires
        0 <= i < s.len(),
        !drops_whitespace(s, i),
    ensures
        kept_count(s, i + 1) == kept_count(s, i) + 1,
        kept_count(s, i) < kept_count(s, s.len() as int),
        elide_whitespace(s)[kept_count(s, i)] == s[i],
{
    lemma_kept_prefix_grows(s, i + 1, s.len() as int);
}

proof fn lemma_kept_onto(s: Seq<Node>, n: int, j: int)
    requires
        0 <= n <= s.len(),
        0 <= j < kept_count(s, n),
    ensures
        exists|i: int| 0 <= i < n && !drops_whitespace(s, i) && kept_count(s, i) == j,
    decreases n,
{
    if j < kept_count(s, n - 1) {
        lemma_kept_onto(s, n - 1, j);
    } else {
        assert(!drops_whitespace(s, n - 1) && kept_count(s, n - 1) == j);
    }
}

proof fn lemma_none_kept_between(s: Seq<Node>, a: int, b: int, k: int)
    requires
        0 <= a <= k < b <= s.len(),
        kept_count(s, a) == kept_count(s, b),
    ensures
        drops_whitespace(s, k),
{
    lemma_kept_prefix_grows(s, a, k);
    lemma_kept_prefix_grows(s, k + 1, b);
}

proof fn lemma_nothing_to_drop(r: Seq<Node>, k: int)
    requires
        0 <= k <= r.len(),
        forall|j: int| 0 <= j < r.len() ==> !drops_whitespace(r, j),
    ensures
        kept_prefix(r, k) =~= r.subrange(0, k),
    decreases k,
{
    if k > 0 {
        lemma_nothing_to_drop(r, k - 1);
    }
}

/// Two white-space texts open or close a list of three or more nodes: the
/// second one survives elision and only a second run drops it.
pub open spec fn blank_pair_at_an_end(s: Seq<Node>) -> bool {
    s.len() >= 3 && ((is_blank_text(s[0]) && is_blank_text(s[1])) || (is_blank_text(
        s[s.len() - 1],
    ) && is_blank_text(s[s.len() - 2])))
}

/// Whitespace elision is idempotent: eliding an elided sibling list changes
/// nothing, unless two white-space texts open or close the original list.
pub proof fn lemma_elision_idempotent(s: Seq<Node>)
    requires
        !blank_pair_at_an_end(s),
    ensures
        elide_whitespace(elide_whitespace(s)) == elide_whitespace(s),
{
    let r = elide_whitespace(s);
    let n = s.len() as int;
    assert forall|j: int| 0 <= j < r.len() implies !drops_whitespace(r, j) by {
        lemma_kept_onto(s, n, j);
        let i = choose|i: int| 0 <= i < n && !drops_whitespace(s, i) && kept_count(s, i) == j;
        lemma_kept_at(s, i);
        if drops_whitespace(r, j) {
            assert(is_blank_text(s[i]));
            assert(0 < i < n - 1);
            assert(kept_count(s, 0) == 0);
            assert(kept_count(s, n) == r.len());
            if j == 0 {
                lemma_none_kept_between(s, 0, i, i - 1);
                if i >= 2 {
                    assert(drops_whitespace(s, i - 1));
                    assert(false);
                } else {
                    lemma_none_kept_between(s, 0, i, 0);
                    assert(blank_pair_at_an_end(s));
                }
            } else if j == r.len() - 1 {
                lemma_none_kept_between(s, i + 1, n, i + 1);
                if i + 1 < n - 1 {
                    assert(false);
                } else {
                    assert(s.len() - 2 == i);
                    assert(blank_pair_at_an_end(s));
                }
            } else {
                if !is_element_or_comment(s[i - 1]) {
                    if drops_whitespace(s, i - 1) {
                        assert(i - 1 == 0);
                        assert(kept_count(s, 1) == 0);
                        assert(false);
                    } else {
                        lemma_kept_at(s, i - 1);
                        assert(r[j - 1] == s[i - 1]);
                    }
                } else {
                    assert(!is_element_or_comment(s[i + 1]));
                    if drops_whitespace(s, i + 1) {
                        assert(i + 1 == n - 1);
                        assert(kept_count(s, n) == kept_count(s, n - 1));
                        assert(false);
                    } else {
                        lemma_kept_at(s, i + 1);
                        assert(r[j + 1] == s[i + 1]);
                    }
                }
            }
        }
    }
    lemma_nothing_to_drop(r, r.len() as int);
    assert(r.subrange(0, r.len() as int) =~= r);
}

proof fn lemma_fold_prefix_nonempty(s: Seq<Node>, n: int)
    requires
        1 <= n <= s.len(),
    ensures
        fold_prefix(s, n).0.len() >= 1 || fold_prefix(s, n).1 is Some,
    decreases n,
{
    if n > 1 {
        lemma_fold_prefix_nonempty(s, n - 1);
    }
}

/// A non-empty sibling list folds to a non-empty list.
pub proof fn lemma_fold_nonempty(s: Seq<Node>)
    requires
        s.len() >= 1,
    ensures
        fold_all(s).len() >= 1,
{
    lemma_fold_prefix_nonempty(s, s.len() as int);
}

/// Whitespace elision keeps every node that is not a white-space text.
pub proof fn lemma_elision_keeps_non_blank(s: Seq<Node>, i: int)
    requires
        0 <= i < s.len(),
        !is_blank_text(s[i]),
    ensures
        elide_whitespace(s).len() >= 1,
{
    lemma_kept_at(s, i);
}

} // verus!
