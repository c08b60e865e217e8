//! The template pass: one depth-first traversal that classifies elements,
//! opens scopes, resolves expressions and derives patch flags.

use vstd::prelude::*;
use crate::ast::{
    AttributeOrBinding, ConditionalNodeSequence, Conditional, ElementKind, ElementNode, Expr,
    Interpolation, Node, StartingTag, StrOrExpr, VBindDirective, VOnDirective, VueDirectives,
};
use crate::bindings::{
    BindingsHelper, binding_kind, collect_variables, has_dynamic_ref, pattern_names, resolved_token,
};
use crate::classify::{element_kind_of, has_attr, has_attribute, recognize_element_kind};
use crate::flags::{
    CLASS, FULL_PROPS, KEYED_FRAGMENT, PROPS, PatchHints, STABLE_FRAGMENT, STYLE, TEXT,
    UNKEYED_FRAGMENT, full_props_exclusive, has_flag, one_fragment_flag,
};
use crate::ident::str_eq;
use crate::optimize::{
    FoldedNode, OpenChain, fold_all, node_matches, fold_prefix, into_reversed, kept_prefix, nodes_match,
    optimize_children, optimized, select_slot, is_blank_text, lemma_elision_keeps_non_blank,
    lemma_fold_nonempty, slot_order, elide_whitespace, without_else_if,
    without_if,
};
use crate::scope::{TemplateScope, open_scope, resolve_scope, scope_vars};
use crate::sfc::SfcTemplateBlock;

verus! {

/// The hints after one `v-bind` with static argument `arg` (`None` for a
/// dynamic argument) whose value is dynamic or not.
pub open spec fn bind_step(
    flags: u16,
    props: Seq<Seq<char>>,
    is_component: bool,
    arg: Option<Seq<char>>,
    dynamic: bool,
) -> (u16, Seq<Seq<char>>) {
    match arg {
        None => ((flags & !(PROPS | CLASS | STYLE)) | FULL_PROPS, Seq::empty()),
        Some(a) => if !dynamic || has_flag(flags, FULL_PROPS) || a == "key"@ {
            (flags, props)
        } else if is_component {
            (flags | PROPS, props.push(a))
        } else if a == "class"@ {
            (flags | CLASS, props)
        } else if a == "style"@ {
            (flags | STYLE, props)
        } else {
            (flags | PROPS, props.push(a))
        },
    }
}

pub open spec fn props_view(h: PatchHints) -> Seq<Seq<char>> {
    h.props@.map_values(|s: String| s@)
}

/// Adds the flags that one `v-bind` contributes: a dynamic argument turns
/// on full props and clears the individual ones; a dynamic value adds
/// `class`, `style` or a named prop (always a named prop on a component);
/// `key` and static values add nothing.
pub fn apply_bind_flags(
    hints: &mut PatchHints,
    is_component: bool,
    argument: Option<&str>,
    dynamic: bool,
)
    ensures
        (final(hints).flags, props_view(*final(hints))) == bind_step(
            old(hints).flags,
            props_view(*old(hints)),
            is_component,
            match argument {
                Some(a) => Some(a@),
                None => None,
            },
            dynamic,
        ),
        full_props_exclusive(*old(hints)) ==> full_props_exclusive(*final(hints)),
        !has_flag(old(hints).flags, TEXT) ==> !has_flag(final(hints).flags, TEXT),
{
    match argument {
        None => {
            let f = hints.flags;
            let g = (f & !(PROPS | CLASS | STYLE)) | FULL_PROPS;
            assert(g & 16 != 0 && g & 2 == 0 && g & 4 == 0 && g & 8 == 0 && (f & 1 == 0 ==> g & 1
                == 0)) by (bit_vector)
                requires
                    g == (f & !(8u16 | 2u16 | 4u16)) | 16u16,
            ;
            hints.flags = g;
            hints.props = Vec::new();
            assert(props_view(*hints) =~= Seq::<Seq<char>>::empty());
        },
        Some(a) => {
            let f = hints.flags;
            if !dynamic || f & FULL_PROPS != 0 || str_eq(a, "key") {
            } else {
                assert(!has_flag(f, FULL_PROPS));
                let g8 = f | PROPS;
                let g2 = f | CLASS;
                let g4 = f | STYLE;
                assert(g8 & 16 == 0 && g2 & 16 == 0 && g4 & 16 == 0 && (f & 1 == 0 ==> (g8 & 1 == 0
                    && g2 & 1 == 0 && g4 & 1 == 0))) by (bit_vector)
                    requires
                        f & 16u16 == 0,
                        g8 == f | 8u16,
                        g2 == f | 2u16,
                        g4 == f | 4u16,
                ;
                if is_component {
                    hints.flags = f | PROPS;
                    hints.props.push(a.to_string());
                } else if str_eq(a, "class") {
                    hints.flags = f | CLASS;
                } else if str_eq(a, "style") {
                    hints.flags = f | STYLE;
                } else {
                    hints.flags = f | PROPS;
                    hints.props.push(a.to_string());
                }
                assert(props_view(*hints) =~= bind_step(
                    f,
                    props_view(*old(hints)),
                    is_component,
                    Some(a@),
                    dynamic,
                ).1);
            }
        },
    }
}

/// The loop's flags with the fragment group set: stable for a static
/// collection, else keyed or unkeyed by the presence of `key`.
pub open spec fn fragment_step(flags: u16, dynamic: bool, has_key: bool) -> u16 {
    let rest = flags & !(STABLE_FRAGMENT | KEYED_FRAGMENT | UNKEYED_FRAGMENT);
    if !dynamic {
        rest | STABLE_FRAGMENT
    } else if has_key {
        rest | KEYED_FRAGMENT
    } else {
        rest | UNKEYED_FRAGMENT
    }
}

/// Sets the fragment flag of a `v-for`: exactly one of stable, keyed and
/// unkeyed.
pub fn fragment_flags(flags: u16, dynamic: bool, has_key: bool) -> (r: u16)
    ensures
        r == fragment_step(flags, dynamic, has_key),
        one_fragment_flag(r),
{
    let rest = flags & !(STABLE_FRAGMENT | KEYED_FRAGMENT | UNKEYED_FRAGMENT);
    let r = if !dynamic {
        rest | STABLE_FRAGMENT
    } else if has_key {
        rest | KEYED_FRAGMENT
    } else {
        rest | UNKEYED_FRAGMENT
    };
    assert(one_fragment_flag(r)) by (bit_vector)
        requires
            rest == flags & !(64u16 | 128u16 | 256u16),
            r == rest | 64u16 || r == rest | 128u16 || r == rest | 256u16,
    ;
    r
}

/// The `v-for` of the element, if any, carries exactly one fragment flag.
pub open spec fn v_for_ok(el: ElementNode) -> bool {
    match el.starting_tag.directives {
        Some(d) => match d.v_for {
            Some(vf) => one_fragment_flag(vf.patch_flags),
            None => true,
        },
        None => true,
    }
}

/// Every element of the tree has exclusive full props and, on its `v-for`,
/// exactly one fragment flag.
pub open spec fn element_flags_ok(el: ElementNode) -> bool
    decreases el,
{
    &&& full_props_exclusive(el.patch_hints)
    &&& v_for_ok(el)
    &&& forall|i: int| 0 <= i < el.children.len() ==> node_flags_ok(#[trigger] el.children[i])
}

/// Every element under the node satisfies `element_flags_ok`.
pub open spec fn node_flags_ok(n: Node) -> bool
    decreases n,
{
    match n {
        Node::Element(e) => element_flags_ok(e),
        Node::ConditionalSeq(q) => {
            &&& element_flags_ok(q.if_node.node)
            &&& forall|i: int|
                0 <= i < q.else_if_nodes.len() ==> element_flags_ok(
                    (#[trigger] q.else_if_nodes[i]).node,
                )
            &&& match q.else_node {
                Some(e) => element_flags_ok(*e),
                None => true,
            }
        },
        _ => true,
    }
}

/// The text flag's condition: a plain element whose children are all text,
/// comments or interpolations, at least one, with a dynamic interpolation.
pub open spec fn text_only_dynamic(kind: ElementKind, children: Seq<Node>) -> bool {
    &&& kind == ElementKind::Element
    &&& children.len() > 0
    &&& forall|i: int| 0 <= i < children.len() ==> !(#[trigger] children[i] is Element)
        && !(children[i] is ConditionalSeq)
    &&& exists|i: int|
        0 <= i < children.len() && (#[trigger] children[i]) is Interpolation
            && children[i]->Interpolation_0.patch_flag
}

/// What resolution reads is unchanged and the scope table only grows: the
/// scopes already there stay as they were, and each new scope's parent
/// comes before it.
pub open spec fn helper_extends(a: BindingsHelper, b: BindingsHelper) -> bool {
    &&& a.setup_bindings == b.setup_bindings
    &&& a.options_api_bindings == b.options_api_bindings
    &&& a.template_generation_mode == b.template_generation_mode
    &&& a.template_scopes@.len() <= b.template_scopes@.len()
    &&& forall|i: int|
        0 <= i < a.template_scopes@.len() ==> #[trigger] b.template_scopes@[i] == a.template_scopes@[i]
    &&& forall|i: int|
        a.template_scopes@.len() <= i < b.template_scopes@.len() ==> (
        #[trigger] b.template_scopes@[i]).parent < i
}

/// `n` is `o` with every free identifier resolved in scope `s`.
pub open spec fn tokens_resolved(h: BindingsHelper, s: int, o: Expr, n: Expr) -> bool {
    &&& n.tokens@.len() == o.tokens@.len()
    &&& forall|i: int|
        0 <= i < o.tokens@.len() ==> resolved_token(h, s, #[trigger] o.tokens@[i], n.tokens@[i])
}

/// The expression holds a dynamic reference when resolved in scope `s`.
pub open spec fn expr_dynamic(h: BindingsHelper, s: int, e: Expr) -> bool {
    has_dynamic_ref(h, s, e.tokens@, e.tokens@.len() as int)
}

pub open spec fn opt_resolved(h: BindingsHelper, s: int, o: Option<Expr>, n: Option<Expr>) -> bool {
    match (o, n) {
        (None, None) => true,
        (Some(a), Some(b)) => tokens_resolved(h, s, a, b),
        _ => false,
    }
}

/// An attribute after the visit: plain attributes unchanged, binding values
/// and handlers resolved in scope `s`, everything else kept.
pub open spec fn attr_visited(h: BindingsHelper, s: int, a: AttributeOrBinding, b: AttributeOrBinding) -> bool {
    match a {
        AttributeOrBinding::VBind(x) => match b {
            AttributeOrBinding::VBind(y) => {
                &&& y.argument == x.argument
                &&& y.is_camel == x.is_camel
                &&& y.is_prop == x.is_prop
                &&& y.is_attr == x.is_attr
                &&& tokens_resolved(h, s, x.value, y.value)
            },
            _ => false,
        },
        AttributeOrBinding::VOn(x) => match b {
            AttributeOrBinding::VOn(y) => {
                &&& y.event == x.event
                &&& y.modifiers == x.modifiers
                &&& opt_resolved(h, s, x.handler, y.handler)
            },
            _ => false,
        },
        _ => b == a,
    }
}

/// The static argument of a binding, `None` for a dynamic or missing one.
pub open spec fn bind_arg(b: VBindDirective) -> Option<Seq<char>> {
    match b.argument {
        Some(StrOrExpr::Str(a)) => Some(a@),
        _ => None,
    }
}

/// The flags and dynamic prop names that the first `n` attributes give:
/// `bind_step` over each binding in source order.
pub open spec fn attr_flags(
    h: BindingsHelper,
    s: int,
    attrs: Seq<AttributeOrBinding>,
    n: int,
    is_component: bool,
) -> (u16, Seq<Seq<char>>)
    decreases n,
{
    if n <= 0 {
        (0, Seq::empty())
    } else {
        let prev = attr_flags(h, s, attrs, n - 1, is_component);
        match attrs[n - 1] {
            AttributeOrBinding::VBind(b) => bind_step(
                prev.0,
                prev.1,
                is_component,
                bind_arg(b),
                expr_dynamic(h, s, b.value),
            ),
            _ => prev,
        }
    }
}

/// The element carries `v-for` or `v-slot`, which open a scope.
pub open spec fn opens_scope(o: ElementNode) -> bool {
    o.starting_tag.directives is Some && (o.starting_tag.directives->0.v_for is Some
        || o.starting_tag.directives->0.v_slot is Some)
}

pub open spec fn expr_len(e: Option<Expr>) -> int {
    match e {
        Some(x) => x.tokens@.len() as int,
        None => 0,
    }
}

pub open spec fn expr_names(e: Option<Expr>) -> Seq<Seq<char>> {
    match e {
        Some(x) => pattern_names(x.tokens@, x.tokens@.len() as int),
        None => Seq::empty(),
    }
}

/// The loop variables of `v-for`, if any.
pub open spec fn for_var(o: ElementNode) -> Option<Expr> {
    match o.starting_tag.directives {
        Some(d) => match d.v_for {
            Some(f) => Some(f.itervar),
            None => None,
        },
        None => None,
    }
}

/// The slot-props pattern of `v-slot`, if any.
pub open spec fn slot_var(o: ElementNode) -> Option<Expr> {
    match o.starting_tag.directives {
        Some(d) => match d.v_slot {
            Some(vs) => vs.value,
            None => None,
        },
        None => None,
    }
}

/// The directives after the visit: the branch condition resolved in the
/// enclosing scope `p`; the `v-for` kept, its collection resolved in `s`
/// and its fragment flag set; `v-slot` kept; the value directives resolved
/// in `s`.
pub open spec fn directives_visited(
    h: BindingsHelper,
    p: int,
    s: int,
    o: Option<Box<VueDirectives>>,
    n: Option<Box<VueDirectives>>,
    has_key: bool,
) -> bool {
    match (o, n) {
        (None, None) => true,
        (Some(d), Some(e)) => {
            &&& opt_resolved(h, p, d.v_if, e.v_if)
            &&& opt_resolved(h, p, d.v_else_if, e.v_else_if)
            &&& e.v_else == d.v_else
            &&& match (d.v_for, e.v_for) {
                (None, None) => true,
                (Some(f), Some(g)) => {
                    &&& g.itervar == f.itervar
                    &&& tokens_resolved(h, s, f.iterable, g.iterable)
                    &&& g.patch_flags == fragment_step(
                        f.patch_flags,
                        expr_dynamic(h, s, f.iterable),
                        has_key,
                    )
                },
                _ => false,
            }
            &&& e.v_slot == d.v_slot
            &&& opt_resolved(h, s, d.v_html, e.v_html)
            &&& opt_resolved(h, s, d.v_memo, e.v_memo)
            &&& opt_resolved(h, s, d.v_show, e.v_show)
            &&& opt_resolved(h, s, d.v_text, e.v_text)
        },
        _ => false,
    }
}

/// `r` is element `o` visited in enclosing scope `p`, against the helper
/// state `h` after the visit: classified; in the scope it opened (a new
/// scope under `p` holding the loop and slot names) or in `p`; attributes
/// and directives resolved; flags from its bindings, plus `TEXT` when its
/// content is one dynamic text run; children visited one by one and then
/// optimized for its kind.
pub open spec fn element_visited(h: BindingsHelper, p: int, o: ElementNode, r: ElementNode) -> bool
    decreases o,
{
    let s = r.template_scope as int;
    let fl = attr_flags(h, s, o.starting_tag.attributes@, o.starting_tag.attributes@.len() as int,
        r.kind == ElementKind::Component);
    &&& 0 <= p < h.template_scopes@.len()
    &&& 0 <= s < h.template_scopes@.len()
    &&& r.kind == element_kind_of(o.starting_tag.tag_name@, o.starting_tag.attributes@)
    &&& r.starting_tag.tag_name == o.starting_tag.tag_name
    &&& !opens_scope(o) ==> s == p
    &&& (opens_scope(o) && s != p) ==> {
        &&& p < s
        &&& h.template_scopes@[s].parent == p
        &&& expr_len(for_var(o)) + expr_len(slot_var(o)) < usize::MAX ==> scope_vars(
            h.template_scopes@,
            s,
        ) == expr_names(for_var(o)) + expr_names(slot_var(o))
    }
    &&& r.starting_tag.attributes@.len() == o.starting_tag.attributes@.len()
    &&& forall|i: int|
        0 <= i < o.starting_tag.attributes@.len() ==> attr_visited(
            h,
            s,
            #[trigger] o.starting_tag.attributes@[i],
            r.starting_tag.attributes@[i],
        )
    &&& directives_visited(
        h,
        p,
        s,
        o.starting_tag.directives,
        r.starting_tag.directives,
        has_attr(o.starting_tag.attributes@, "key"@),
    )
    &&& r.patch_hints.flags == (if text_only_dynamic(r.kind, r.children@) {
        fl.0 | TEXT
    } else {
        fl.0
    })
    &&& props_view(r.patch_hints) == fl.1
    &&& exists|vs: Seq<Node>|
        #![trigger optimized(vs, r.kind)]
        vs.len() == o.children@.len() && (forall|i: int|
            0 <= i < vs.len() ==> node_visited(h, s, #[trigger] o.children[i], vs[i])) && nodes_match(
            r.children@,
            optimized(vs, r.kind),
        )
}

/// `r` is node `o` visited in scope `s`: elements and conditional
/// sequences as their visits say, interpolations resolved and flagged when
/// dynamic, text and comments unchanged.
pub open spec fn node_visited(h: BindingsHelper, s: int, o: Node, r: Node) -> bool
    decreases o,
{
    match o {
        Node::Element(e) => r is Element && element_visited(h, s, e, r->Element_0),
        Node::ConditionalSeq(q) => r is ConditionalSeq && seq_visited(h, s, q, r->ConditionalSeq_0),
        Node::Interpolation(i) => {
            &&& 0 <= s < h.template_scopes@.len()
            &&& r is Interpolation
            &&& tokens_resolved(h, s, i.value, r->Interpolation_0.value)
            &&& r->Interpolation_0.template_scope == s
            &&& r->Interpolation_0.patch_flag == expr_dynamic(h, s, i.value)
        },
        _ => r == o,
    }
}

/// `r` is the conditional sequence `q` visited in scope `s`: each
/// condition resolved in `s`, each branch element visited in `s`.
pub open spec fn seq_visited(
    h: BindingsHelper,
    s: int,
    q: ConditionalNodeSequence,
    r: ConditionalNodeSequence,
) -> bool
    decreases q,
{
    &&& tokens_resolved(h, s, q.if_node.condition, r.if_node.condition)
    &&& element_visited(h, s, q.if_node.node, r.if_node.node)
    &&& r.else_if_nodes@.len() == q.else_if_nodes@.len()
    &&& forall|i: int|
        0 <= i < q.else_if_nodes@.len() ==> tokens_resolved(
            h,
            s,
            (#[trigger] q.else_if_nodes[i]).condition,
            r.else_if_nodes[i].condition,
        ) && element_visited(h, s, q.else_if_nodes[i].node, r.else_if_nodes[i].node)
    &&& match (q.else_node, r.else_node) {
        (None, None) => true,
        (Some(a), Some(b)) => element_visited(h, s, *a, *b),
        _ => false,
    }
}

proof fn lemma_resolve_stable(a: Seq<TemplateScope>, b: Seq<TemplateScope>, s: int, x: Seq<char>)
    requires
        0 <= s < a.len() <= b.len(),
        forall|i: int| 0 <= i < a.len() ==> #[trigger] b[i] == a[i],
    ensures
        resolve_scope(a, s, x) == resolve_scope(b, s, x),
    decreases s,
{
    assert(b[s] == a[s]);
    if s > 0 && a[s].parent < s {
        lemma_resolve_stable(a, b, a[s].parent as int, x);
    }
}

/// Growing the scope table does not change how names met in an existing
/// scope resolve.
pub proof fn lemma_kind_stable(h1: BindingsHelper, h2: BindingsHelper, s: int)
    requires
        helper_extends(h1, h2),
        0 <= s < h1.template_scopes@.len(),
    ensures
        forall|x: Seq<char>| #[trigger] binding_kind(h1, s, x) == binding_kind(h2, s, x),
{
    assert forall|x: Seq<char>| #[trigger] binding_kind(h1, s, x) == binding_kind(h2, s, x) by {
        lemma_resolve_stable(h1.template_scopes@, h2.template_scopes@, s, x);
    }
}

proof fn lemma_attr_flags_stable(
    h1: BindingsHelper,
    h2: BindingsHelper,
    s: int,
    attrs: Seq<AttributeOrBinding>,
    n: int,
    c: bool,
)
    requires
        forall|x: Seq<char>| #[trigger] binding_kind(h1, s, x) == binding_kind(h2, s, x),
        n <= attrs.len(),
    ensures
        attr_flags(h1, s, attrs, n, c) == attr_flags(h2, s, attrs, n, c),
    decreases n,
{
    if n > 0 {
        lemma_attr_flags_stable(h1, h2, s, attrs, n - 1, c);
        match attrs[n - 1] {
            AttributeOrBinding::VBind(b) => {
                assert(expr_dynamic(h1, s, b.value) == expr_dynamic(h2, s, b.value));
            },
            _ => {},
        }
    }
}

/// A visit stated against one helper state holds against any extension of
/// it.
pub proof fn lemma_element_visited_stable(h1: BindingsHelper, h2: BindingsHelper, p: int, o: ElementNode, r: ElementNode)
    requires
        element_visited(h1, p, o, r),
        helper_extends(h1, h2),
    ensures
        element_visited(h2, p, o, r),
    decreases o,
{
    let s = r.template_scope as int;
    lemma_kind_stable(h1, h2, s);
    lemma_kind_stable(h1, h2, p);
    assert(h2.template_scopes@[s] == h1.template_scopes@[s]);
    lemma_attr_flags_stable(h1, h2, s, o.starting_tag.attributes@,
        o.starting_tag.attributes@.len() as int, r.kind == ElementKind::Component);
    assert forall|i: int| 0 <= i < o.starting_tag.attributes@.len() implies attr_visited(
        h2, s, #[trigger] o.starting_tag.attributes@[i], r.starting_tag.attributes@[i]) by {
        assert(attr_visited(h1, s, o.starting_tag.attributes@[i], r.starting_tag.attributes@[i]));
    }
    let vs = choose|vs: Seq<Node>|
        #![trigger optimized(vs, r.kind)]
        vs.len() == o.children@.len() && (forall|i: int|
            0 <= i < vs.len() ==> node_visited(h1, s, #[trigger] o.children[i], vs[i])) && nodes_match(
            r.children@,
            optimized(vs, r.kind),
        );
    assert forall|i: int| 0 <= i < vs.len() implies node_visited(h2, s, #[trigger] o.children[i], vs[i]) by {
        lemma_node_visited_stable(h1, h2, s, o.children[i], vs[i]);
    }
}

pub proof fn lemma_node_visited_stable(h1: BindingsHelper, h2: BindingsHelper, s: int, o: Node, r: Node)
    requires
        node_visited(h1, s, o, r),
        helper_extends(h1, h2),
    ensures
        node_visited(h2, s, o, r),
    decreases o,
{
    match o {
        Node::Element(e) => lemma_element_visited_stable(h1, h2, s, e, r->Element_0),
        Node::ConditionalSeq(q) => lemma_seq_visited_stable(h1, h2, s, q, r->ConditionalSeq_0),
        Node::Interpolation(i) => {
            lemma_kind_stable(h1, h2, s);
            let ri = r->Interpolation_0;
            assert(expr_dynamic(h1, s, i.value) == expr_dynamic(h2, s, i.value));
            assert forall|k: int| 0 <= k < i.value.tokens@.len() implies resolved_token(
                h2, s, #[trigger] i.value.tokens@[k], ri.value.tokens@[k]) by {
                assert(resolved_token(h1, s, i.value.tokens@[k], ri.value.tokens@[k]));
            }
        },
        _ => {},
    }
}

pub proof fn lemma_seq_visited_stable(
    h1: BindingsHelper,
    h2: BindingsHelper,
    s: int,
    q: ConditionalNodeSequence,
    r: ConditionalNodeSequence,
)
    requires
        seq_visited(h1, s, q, r),
        helper_extends(h1, h2),
    ensures
        seq_visited(h2, s, q, r),
    decreases q,
{
    lemma_element_visited_stable(h1, h2, s, q.if_node.node, r.if_node.node);
    lemma_kind_stable(h1, h2, s);
    assert forall|k: int| 0 <= k < q.if_node.condition.tokens@.len() implies resolved_token(
        h2, s, #[trigger] q.if_node.condition.tokens@[k], r.if_node.condition.tokens@[k]) by {
        assert(resolved_token(h1, s, q.if_node.condition.tokens@[k], r.if_node.condition.tokens@[k]));
    }
    assert forall|i: int| 0 <= i < q.else_if_nodes@.len() implies tokens_resolved(
        h2, s, (#[trigger] q.else_if_nodes[i]).condition, r.else_if_nodes[i].condition,
    ) && element_visited(h2, s, q.else_if_nodes[i].node, r.else_if_nodes[i].node) by {
        let c = q.else_if_nodes[i].condition;
        let d = r.else_if_nodes[i].condition;
        assert(tokens_resolved(h1, s, c, d));
        assert forall|k: int| 0 <= k < c.tokens@.len() implies resolved_token(
            h2, s, #[trigger] c.tokens@[k], d.tokens@[k]) by {
            assert(resolved_token(h1, s, c.tokens@[k], d.tokens@[k]));
        }
        lemma_element_visited_stable(h1, h2, s, q.else_if_nodes[i].node, r.else_if_nodes[i].node);
    }
    if q.else_node is Some && r.else_node is Some {
        lemma_element_visited_stable(h1, h2, s, *q.else_node->0, *r.else_node->0);
    }
}


/// The same scope table and the same script bindings.
pub open spec fn same_resolution(a: BindingsHelper, b: BindingsHelper) -> bool {
    &&& a.template_scopes == b.template_scopes
    &&& a.setup_bindings == b.setup_bindings
    &&& a.options_api_bindings == b.options_api_bindings
    &&& a.template_generation_mode == b.template_generation_mode
}

proof fn lemma_extends_trans(a: BindingsHelper, b: BindingsHelper, c: BindingsHelper)
    requires
        helper_extends(a, b),
        helper_extends(b, c),
    ensures
        helper_extends(a, c),
{
    assert forall|i: int|
        a.template_scopes@.len() <= i < c.template_scopes@.len() implies (
        #[trigger] c.template_scopes@[i]).parent < i by {
        if i < b.template_scopes@.len() {
            assert(c.template_scopes@[i] == b.template_scopes@[i]);
        }
    }
}

proof fn lemma_tokens_stable(h1: BindingsHelper, h2: BindingsHelper, s: int, o: Expr, n: Expr)
    requires
        tokens_resolved(h1, s, o, n),
        helper_extends(h1, h2),
        0 <= s < h1.template_scopes@.len(),
    ensures
        tokens_resolved(h2, s, o, n),
        expr_dynamic(h1, s, o) == expr_dynamic(h2, s, o),
{
    lemma_kind_stable(h1, h2, s);
    assert forall|k: int| 0 <= k < o.tokens@.len() implies resolved_token(
        h2, s, #[trigger] o.tokens@[k], n.tokens@[k]) by {
        assert(resolved_token(h1, s, o.tokens@[k], n.tokens@[k]));
    }
}

proof fn lemma_opt_stable(h1: BindingsHelper, h2: BindingsHelper, s: int, o: Option<Expr>, n: Option<Expr>)
    requires
        opt_resolved(h1, s, o, n),
        helper_extends(h1, h2),
        0 <= s < h1.template_scopes@.len(),
    ensures
        opt_resolved(h2, s, o, n),
{
    match (o, n) {
        (Some(a), Some(b)) => lemma_tokens_stable(h1, h2, s, a, b),
        _ => {},
    }
}

proof fn lemma_pattern_names_len(ts: Seq<crate::ast::ExprToken>, n: int)
    requires
        0 <= n,
    ensures
        pattern_names(ts, n).len() <= n,
    decreases n,
{
    if n > 0 {
        lemma_pattern_names_len(ts, n - 1);
    }
}

/// Resolves the value of an interpolation in the current scope and flags it
/// when it is dynamic; the uses are recorded.
pub fn visit_interpolation(h: &mut BindingsHelper, scope: u32, interpolation: Interpolation) -> (r:
    Interpolation)
    requires
        (scope as int) < old(h).template_scopes@.len(),
    ensures
        node_visited(*final(h), scope as int, Node::Interpolation(interpolation), Node::Interpolation(r)),
        same_resolution(*old(h), *final(h)),
        crate::bindings::uses_view(final(h).used_bindings@) == crate::bindings::uses_view(
            old(h).used_bindings@,
        ) + crate::bindings::token_uses(
            *old(h),
            scope as int,
            interpolation.value.tokens@,
            interpolation.value.tokens@.len() as int,
        ),
{
    let ghost h0 = *h;
    let mut interpolation = interpolation;
    let ghost v0 = interpolation.value;
    interpolation.template_scope = scope;
    let has_js = h.transform_expr(&mut interpolation.value, scope);
    interpolation.patch_flag = has_js;
    proof {
        lemma_tokens_stable(h0, *h, scope as int, v0, interpolation.value);
    }
    interpolation
}

/// Visits one node in the current scope.
pub fn visit_node(h: &mut BindingsHelper, scope: u32, node: Node) -> (r: Node)
    requires
        (scope as int) < old(h).template_scopes@.len(),
    ensures
        node_visited(*final(h), scope as int, node, r),
        helper_extends(*old(h), *final(h)),
        node_flags_ok(r),
        node is Element <==> r is Element,
        node is ConditionalSeq <==> r is ConditionalSeq,
        node is Interpolation <==> r is Interpolation,
    decreases node, 2int,
{
    let ghost n0 = node;
    let r = match node {
        Node::Element(el) => Node::Element(visit_element_node(h, scope, el)),
        Node::ConditionalSeq(q) => Node::ConditionalSeq(visit_conditional_node(h, scope, q)),
        Node::Interpolation(i) => Node::Interpolation(visit_interpolation(h, scope, i)),
        other => other,
    };
    assert(node_visited(*h, scope as int, n0, r));
    r
}

/// Visits a conditional sequence: each condition is resolved in the
/// enclosing scope, then its element is visited.
pub fn visit_conditional_node(
    h: &mut BindingsHelper,
    scope: u32,
    conditional_node: ConditionalNodeSequence,
) -> (r: ConditionalNodeSequence)
    requires
        (scope as int) < old(h).template_scopes@.len(),
    ensures
        seq_visited(*final(h), scope as int, conditional_node, r),
        helper_extends(*old(h), *final(h)),
        node_flags_ok(Node::ConditionalSeq(r)),
    decreases conditional_node, 1int,
{
    let ghost q = conditional_node;
    let ghost sc = scope as int;
    let ghost h0 = *h;
    let ConditionalNodeSequence { if_node, else_if_nodes, else_node } = conditional_node;
    let Conditional { condition, node } = *if_node;
    let mut condition = condition;
    h.transform_expr(&mut condition, scope);
    let ghost ha = *h;
    let node = visit_element_node(h, scope, node);
    let if_node = Box::new(Conditional { condition, node });
    proof {
        lemma_tokens_stable(h0, *h, sc, q.if_node.condition, if_node.condition);
    }
    let ghost src = else_if_nodes@;
    let n = else_if_nodes.len();
    let mut rev = into_reversed(else_if_nodes);
    let mut out: Vec<Conditional> = Vec::new();
    let mut k: usize = 0;
    while k < n
        invariant
            k <= n,
            n == src.len(),
            src == q.else_if_nodes@,
            q == conditional_node,
            sc == scope as int,
            0 <= sc < h0.template_scopes@.len(),
            rev@.len() == n - k,
            forall|j: int| 0 <= j < n - k ==> rev@[j] == src[n - 1 - j],
            out@.len() == k,
            helper_extends(h0, *h),
            tokens_resolved(*h, sc, q.if_node.condition, if_node.condition),
            element_visited(*h, sc, q.if_node.node, if_node.node),
            element_flags_ok(if_node.node),
            forall|j: int| 0 <= j < k ==> tokens_resolved(*h, sc, (#[trigger] src[j]).condition, out@[j].condition)
                && element_visited(*h, sc, src[j].node, out@[j].node),
            forall|j: int| 0 <= j < k ==> element_flags_ok(#[trigger] out@[j].node),
        decreases n - k,
    {
        match rev.pop() {
            Some(c) => {
                assert(c == q.else_if_nodes[k as int]);
                let ghost hp = *h;
                let ghost prev = out@;
                let Conditional { condition, node } = c;
                let mut condition = condition;
                h.transform_expr(&mut condition, scope);
                let ghost hb = *h;
                let node = visit_element_node(h, scope, node);
                proof {
                    lemma_tokens_stable(hp, *h, sc, c.condition, condition);
                    lemma_extends_trans(hp, hb, *h);
                    lemma_extends_trans(h0, hp, *h);
                    lemma_tokens_stable(hp, *h, sc, q.if_node.condition, if_node.condition);
                    lemma_element_visited_stable(hp, *h, sc, q.if_node.node, if_node.node);
                    assert forall|j: int| 0 <= j < k implies tokens_resolved(*h, sc, (#[trigger] src[j]).condition, prev[j].condition)
                        && element_visited(*h, sc, src[j].node, prev[j].node) by {
                        lemma_tokens_stable(hp, *h, sc, src[j].condition, prev[j].condition);
                        lemma_element_visited_stable(hp, *h, sc, src[j].node, prev[j].node);
                    }
                }
                out.push(Conditional { condition, node });
            },
            None => {},
        }
        k = k + 1;
    }
    let ghost hl = *h;
    let else_node = match else_node {
        Some(e) => {
            let v = visit_element_node(h, scope, *e);
            proof {
                lemma_extends_trans(h0, hl, *h);
                lemma_tokens_stable(hl, *h, sc, q.if_node.condition, if_node.condition);
                lemma_element_visited_stable(hl, *h, sc, q.if_node.node, if_node.node);
                assert forall|j: int| 0 <= j < n implies tokens_resolved(*h, sc, (#[trigger] src[j]).condition, out@[j].condition)
                    && element_visited(*h, sc, src[j].node, out@[j].node) by {
                    lemma_tokens_stable(hl, *h, sc, src[j].condition, out@[j].condition);
                    lemma_element_visited_stable(hl, *h, sc, src[j].node, out@[j].node);
                }
            }
            Some(Box::new(v))
        },
        None => None,
    };
    let r = ConditionalNodeSequence { if_node, else_if_nodes: out, else_node };
    assert(forall|i: int|
        0 <= i < r.else_if_nodes.len() ==> element_flags_ok((#[trigger] r.else_if_nodes[i]).node));
    assert forall|i: int| 0 <= i < q.else_if_nodes@.len() implies tokens_resolved(
            *h, sc, (#[trigger] q.else_if_nodes[i]).condition, r.else_if_nodes[i].condition,
        ) && element_visited(*h, sc, q.else_if_nodes[i].node, r.else_if_nodes[i].node) by {
        assert(src[i] == q.else_if_nodes[i]);
    }
    r
}

/// Resolves the bindings and handlers of an element in scope `scope` and
/// derives its flags and dynamic prop names from them.
pub fn visit_attributes(
    h: &mut BindingsHelper,
    scope: u32,
    attributes: Vec<AttributeOrBinding>,
    is_component: bool,
) -> (r: (Vec<AttributeOrBinding>, PatchHints))
    requires
        (scope as int) < old(h).template_scopes@.len(),
    ensures
        same_resolution(*old(h), *final(h)),
        r.0@.len() == attributes@.len(),
        forall|j: int| 0 <= j < attributes@.len() ==> attr_visited(*final(h), scope as int, #[trigger] attributes@[j], r.0@[j]),
        (r.1.flags, props_view(r.1)) == attr_flags(*final(h), scope as int, attributes@, attributes@.len() as int, is_component),
        full_props_exclusive(r.1),
        !has_flag(r.1.flags, TEXT),
{
    let ghost h1 = *h;
    let ghost s = scope as int;
    let mut hints = PatchHints { flags: 0, props: Vec::new() };
    assert(0u16 & 16u16 == 0 && 0u16 & 1u16 == 0) by (bit_vector);
    assert(props_view(hints) =~= Seq::<Seq<char>>::empty());
    let ghost src = attributes@;
    let n = attributes.len();
    let mut rev = into_reversed(attributes);
    let mut attrs: Vec<AttributeOrBinding> = Vec::new();
    let mut k: usize = 0;
    while k < n
        invariant
            k <= n,
            n == src.len(),
            rev@.len() == n - k,
            forall|j: int| 0 <= j < n - k ==> rev@[j] == src[n - 1 - j],
            full_props_exclusive(hints),
            !has_flag(hints.flags, TEXT),
            same_resolution(h1, *h),
            s == scope as int,
            0 <= s < h1.template_scopes@.len(),
            attrs@.len() == k,
            forall|j: int| 0 <= j < k ==> attr_visited(h1, s, #[trigger] src[j], attrs@[j]),
            (hints.flags, props_view(hints)) == attr_flags(h1, s, src, k as int, is_component),
        decreases n - k,
    {
        match rev.pop() {
            Some(attr) => {
                assert(attr == src[k as int]);
                let ghost hp = *h;
                match attr {
                    AttributeOrBinding::VBind(b) => {
                        let ghost b0 = b;
                        let mut b = b;
                        let has_bindings = h.transform_expr(&mut b.value, scope);
                        proof { lemma_tokens_stable(hp, h1, s, b0.value, b.value); }
                        match &b.argument {
                            Some(StrOrExpr::Str(a)) => apply_bind_flags(
                                &mut hints,
                                is_component,
                                Some(a.as_str()),
                                has_bindings,
                            ),
                            _ => apply_bind_flags(&mut hints, is_component, None, has_bindings),
                        }
                        attrs.push(AttributeOrBinding::VBind(b));
                    },
                    AttributeOrBinding::VOn(VOnDirective { event, handler, modifiers }) => {
                        let handler = match handler {
                            Some(e) => {
                                let ghost e0 = e;
                                let mut e = e;
                                h.transform_expr(&mut e, scope);
                                proof { lemma_tokens_stable(hp, h1, s, e0, e); }
                                Some(e)
                            },
                            None => None,
                        };
                        attrs.push(AttributeOrBinding::VOn(VOnDirective { event, handler, modifiers }));
                    },
                    other => attrs.push(other),
                }
                assert(attr_visited(h1, s, src[k as int], attrs@[k as int]));
            },
            None => {},
        }
        k = k + 1;
    }
    proof {
        lemma_kind_stable(h1, *h, s);
        lemma_attr_flags_stable(h1, *h, s, src, n as int, is_component);
        assert forall|j: int| 0 <= j < n implies attr_visited(*h, s, #[trigger] src[j], attrs@[j]) by {
            let a0 = src[j];
            let a1 = attrs@[j];
            match (a0, a1) {
                (AttributeOrBinding::VBind(x), AttributeOrBinding::VBind(y)) => {
                    lemma_tokens_stable(h1, *h, s, x.value, y.value);
                },
                (AttributeOrBinding::VOn(x), AttributeOrBinding::VOn(y)) => {
                    lemma_opt_stable(h1, *h, s, x.handler, y.handler);
                },
                _ => {},
            }
        }
    }
    (attrs, hints)
}

fn visit_opt_expr(h: &mut BindingsHelper, scope: u32, e: Option<Expr>) -> (r: Option<Expr>)
    requires
        (scope as int) < old(h).template_scopes@.len(),
    ensures
        same_resolution(*old(h), *final(h)),
        opt_resolved(*final(h), scope as int, e, r),
{
    match e {
        Some(e) => {
            let ghost e0 = e;
            let ghost hp = *h;
            let mut e = e;
            h.transform_expr(&mut e, scope);
            proof { lemma_tokens_stable(hp, *h, scope as int, e0, e); }
            Some(e)
        },
        None => None,
    }
}

/// Resolves `v-html`, `v-memo`, `v-show` and `v-text` in scope `scope`.
pub fn visit_value_directives(h: &mut BindingsHelper, scope: u32, d: VueDirectives) -> (r: VueDirectives)
    requires
        (scope as int) < old(h).template_scopes@.len(),
    ensures
        same_resolution(*old(h), *final(h)),
        r.v_if == d.v_if,
        r.v_else_if == d.v_else_if,
        r.v_else == d.v_else,
        r.v_for == d.v_for,
        r.v_slot == d.v_slot,
        opt_resolved(*final(h), scope as int, d.v_html, r.v_html),
        opt_resolved(*final(h), scope as int, d.v_memo, r.v_memo),
        opt_resolved(*final(h), scope as int, d.v_show, r.v_show),
        opt_resolved(*final(h), scope as int, d.v_text, r.v_text),
{
    let ghost d0 = d;
    let ghost s = scope as int;
    let mut d = d;
    let ghost ha = *h;
    let v = visit_opt_expr(h, scope, d.v_html.take());
    d.v_html = v;
    let ghost hb = *h;
    let v = visit_opt_expr(h, scope, d.v_memo.take());
    d.v_memo = v;
    let ghost hc = *h;
    let v = visit_opt_expr(h, scope, d.v_show.take());
    d.v_show = v;
    let ghost hd = *h;
    let v = visit_opt_expr(h, scope, d.v_text.take());
    d.v_text = v;
    proof {
        lemma_opt_stable(hb, *h, s, d0.v_html, d.v_html);
        lemma_opt_stable(hc, *h, s, d0.v_memo, d.v_memo);
        lemma_opt_stable(hd, *h, s, d0.v_show, d.v_show);
    }
    d
}

/// Visits an element: classifies it, resolves its branch condition in the
/// enclosing scope, opens a scope for `v-for` and `v-slot` and collects
/// their names, resolves its bindings, handlers and directive values,
/// derives its patch flags, visits its children and then optimizes them
/// (whitespace, slot order, conditional folding).
#[verifier::rlimit(100)]
#[verifier::spinoff_prover]
pub fn visit_element_node(h: &mut BindingsHelper, parent_scope: u32, element_node: ElementNode) -> (r:
    ElementNode)
    requires
        (parent_scope as int) < old(h).template_scopes@.len(),
    ensures
        element_visited(*final(h), parent_scope as int, element_node, r),
        helper_extends(*old(h), *final(h)),
        opens_scope(element_node) && old(h).template_scopes@.len() < u32::MAX ==> r.template_scope
            == old(h).template_scopes@.len(),
        element_flags_ok(r),
        text_only_dynamic(r.kind, r.children@) <==> has_flag(r.patch_hints.flags, TEXT),
    decreases element_node, 0int,
{
    let ghost orig = element_node;
    let ghost p = parent_scope as int;
    let ghost h0 = *h;
    let ElementNode { kind: _, starting_tag, children, template_scope: _, patch_hints: _ } =
        element_node;
    let element_kind = recognize_element_kind(&starting_tag);
    let is_component = element_kind == ElementKind::Component;
    let StartingTag { tag_name, attributes, directives } = starting_tag;
    let mut scope_to_use = parent_scope;
    let has_key = has_attribute(&attributes, "key");

    // Scoping directives: `v-for` and `v-slot`; a branch condition is
    // resolved first, in the enclosing scope
    let directives = match directives {
        Some(b) => {
            let ghost d0 = *b;
            let mut d = *b;
            let v_if = match d.v_if.take() {
                Some(e) => {
                    let ghost e0 = e;
                    let ghost hp = *h;
                    let mut e = e;
                    h.transform_expr(&mut e, parent_scope);
                    proof { lemma_tokens_stable(hp, h0, p, e0, e); }
                    Some(e)
                },
                None => None,
            };
            d.v_if = v_if;
            let v_else_if = match d.v_else_if.take() {
                Some(e) => {
                    let ghost e0 = e;
                    let ghost hp = *h;
                    let mut e = e;
                    h.transform_expr(&mut e, parent_scope);
                    proof { lemma_tokens_stable(hp, h0, p, e0, e); }
                    Some(e)
                },
                None => None,
            };
            d.v_else_if = v_else_if;
            assert(opt_resolved(h0, p, d0.v_if, d.v_if));
            assert(opt_resolved(h0, p, d0.v_else_if, d.v_else_if));
            assert(same_resolution(h0, *h));
            if (d.v_for.is_some() || d.v_slot.is_some()) && h.template_scopes.len() < u32::MAX as usize {
                scope_to_use = open_scope(&mut h.template_scopes, parent_scope);
                let ghost ho = *h;
                match &d.v_for {
                    Some(vf) => {
                        collect_variables(&vf.itervar, &mut h.template_scopes, scope_to_use);
                    },
                    None => {},
                }
                let ghost hi = *h;
                match &d.v_slot {
                    Some(vs) => match &vs.value {
                        Some(v) => {
                            collect_variables(v, &mut h.template_scopes, scope_to_use);
                        },
                        None => {},
                    },
                    None => {},
                }
                proof {
                    let sv = scope_to_use as int;
                    let it = for_var(orig);
                    let sl = slot_var(orig);
                    if expr_len(it) + expr_len(sl) < usize::MAX {
                        lemma_pattern_names_len(it->0.tokens@, expr_len(it));
                        if it is Some {
                            lemma_pattern_names_len(it->0.tokens@, it->0.tokens@.len() as int);
                        }
                        assert(scope_vars(ho.template_scopes@, sv) == Seq::<Seq<char>>::empty());
                        assert(scope_vars(hi.template_scopes@, sv) =~= expr_names(it));
                        assert(scope_vars(h.template_scopes@, sv) =~= expr_names(it) + expr_names(sl));
                    }
                }
            }
            let ghost h1 = *h;
            assert(helper_extends(h0, h1));
            match d.v_for.take() {
                Some(vf) => {
                    let ghost f0 = vf;
                    let mut vf = vf;
                    let is_dynamic = h.transform_expr(&mut vf.iterable, scope_to_use);
                    vf.patch_flags = fragment_flags(vf.patch_flags, is_dynamic, has_key);
                    proof { lemma_tokens_stable(h1, *h, scope_to_use as int, f0.iterable, vf.iterable); }
                    d.v_for = Some(vf);
                },
                None => {},
            }
            Some(d)
        },
        None => None,
    };
    let ghost h1 = *h;
    let ghost s = scope_to_use as int;
    assert(helper_extends(h0, h1));
    assert(0 <= s < h1.template_scopes@.len());

    // Bindings and handlers
    let ghost src = attributes@;
    let (attrs, mut hints) = visit_attributes(h, scope_to_use, attributes, is_component);
    let ghost ha = *h;
    proof {
        lemma_kind_stable(ha, h1, s);
        lemma_attr_flags_stable(ha, h1, s, src, src.len() as int, is_component);
        assert forall|j: int| 0 <= j < src.len() implies attr_visited(h1, s, #[trigger] src[j], attrs@[j]) by {
            let a0 = src[j];
            let a1 = attrs@[j];
            assert(attr_visited(ha, s, a0, a1));
            match (a0, a1) {
                (AttributeOrBinding::VBind(x), AttributeOrBinding::VBind(y)) => {
                    lemma_tokens_stable(ha, h1, s, x.value, y.value);
                },
                (AttributeOrBinding::VOn(x), AttributeOrBinding::VOn(y)) => {
                    lemma_opt_stable(ha, h1, s, x.handler, y.handler);
                },
                _ => {},
            }
        }
    }

    // Value directives
    let directives = match directives {
        Some(d) => Some(Box::new(visit_value_directives(h, scope_to_use, d))),
        None => None,
    };
    let ghost dirs = directives;
    let ghost hv = *h;
    assert(directives_visited(h1, p, s, orig.starting_tag.directives, dirs,
        has_attr(orig.starting_tag.attributes@, "key"@))) by {
        lemma_kind_stable(h0, h1, p);
        if orig.starting_tag.directives is Some && dirs is Some {
            let d0 = orig.starting_tag.directives->0;
            let e = dirs->0;
            lemma_opt_stable(h0, h1, p, d0.v_if, e.v_if);
            lemma_opt_stable(h0, h1, p, d0.v_else_if, e.v_else_if);
            lemma_opt_stable(hv, h1, s, d0.v_html, e.v_html);
            lemma_opt_stable(hv, h1, s, d0.v_memo, e.v_memo);
            lemma_opt_stable(hv, h1, s, d0.v_show, e.v_show);
            lemma_opt_stable(hv, h1, s, d0.v_text, e.v_text);
        }
    }
    assert(same_resolution(h1, *h));

    // Children: visited, then optimized
    let ghost h2 = *h;
    let ghost csrc = children@;
    let n = children.len();
    let mut rev = into_reversed(children);
    let mut out: Vec<Node> = Vec::new();
    let mut k: usize = 0;
    while k < n
        invariant
            k <= n,
            n == csrc.len(),
            csrc == orig.children@,
            orig == element_node,
            rev@.len() == n - k,
            forall|j: int| 0 <= j < n - k ==> rev@[j] == csrc[n - 1 - j],
            out@.len() == k,
            forall|j: int| 0 <= j < k ==> node_flags_ok(#[trigger] out@[j]),
            s == scope_to_use as int,
            0 <= s < h1.template_scopes@.len(),
            helper_extends(h1, *h),
            forall|j: int| 0 <= j < k ==> node_visited(*h, s, #[trigger] csrc[j], out@[j]),
        decreases n - k,
    {
        match rev.pop() {
            Some(child) => {
                assert(child == orig.children[k as int]);
                proof {
                    assert(decreases_to!(orig.children => orig.children[k as int]));
                    assert(decreases_to!(orig => orig.children[k as int]));
                    assert(decreases_to!(element_node => child));
                }
                let ghost hp = *h;
                let ghost prev = out@;
                let child = visit_node(h, scope_to_use, child);
                proof {
                    lemma_extends_trans(h1, hp, *h);
                    assert forall|j: int| 0 <= j < k implies node_visited(*h, s, #[trigger] csrc[j], prev[j]) by {
                        lemma_node_visited_stable(hp, *h, s, csrc[j], prev[j]);
                    }
                }
                out.push(child);
                assert(out@[k as int] == child);
            },
            None => {},
        }
        k = k + 1;
    }
    let ghost visited = out@;
    optimize_children(&mut out, element_kind);
    proof {
        lemma_optimized_flags_ok(visited, element_kind, out@);
    }
    let n = out.len();
    let mut text_only = element_kind == ElementKind::Element && n > 0;
    let mut has_dynamic_interpolation = false;
    let mut k: usize = 0;
    while k < n
        invariant
            k <= n,
            n == out@.len(),
            text_only == (element_kind == ElementKind::Element && n > 0 && forall|j: int|
                0 <= j < k ==> !(#[trigger] out@[j] is Element) && !(out@[j] is ConditionalSeq)),
            has_dynamic_interpolation == exists|j: int|
                0 <= j < k && (#[trigger] out@[j]) is Interpolation
                    && out@[j]->Interpolation_0.patch_flag,
        decreases n - k,
    {
        match &out[k] {
            Node::Element(_) => { text_only = false; },
            Node::ConditionalSeq(_) => { text_only = false; },
            Node::Interpolation(i) => {
                if i.patch_flag {
                    has_dynamic_interpolation = true;
                    assert(out@[k as int] is Interpolation && out@[k as int]->Interpolation_0.patch_flag);
                }
            },
            _ => {},
        }
        k = k + 1;
    }
    let ghost f0 = hints.flags;
    if text_only && has_dynamic_interpolation {
        let f = hints.flags;
        let g = f | TEXT;
        assert((g & 16 != 0) == (f & 16 != 0) && (g & 2 != 0) == (f & 2 != 0) && (g & 4 != 0) == (f
            & 4 != 0) && (g & 8 != 0) == (f & 8 != 0) && g & 1 != 0) by (bit_vector)
            requires
                g == f | 1u16,
        ;
        hints.flags = g;
    }
    let r = ElementNode {
        kind: element_kind,
        starting_tag: StartingTag { tag_name, attributes: attrs, directives },
        children: out,
        template_scope: scope_to_use,
        patch_hints: hints,
    };
    proof {
        lemma_element_result(h0, h1, *h, p, s, orig, r, visited, src, is_component, f0);
    }
    r
}

proof fn lemma_element_result(
    h0: BindingsHelper,
    h1: BindingsHelper,
    hf: BindingsHelper,
    p: int,
    s: int,
    orig: ElementNode,
    r: ElementNode,
    visited: Seq<Node>,
    src: Seq<AttributeOrBinding>,
    is_component: bool,
    f0: u16,
)
    requires
        helper_extends(h0, h1),
        helper_extends(h1, hf),
        0 <= p < h0.template_scopes@.len(),
        0 <= s < h1.template_scopes@.len(),
        s == r.template_scope as int,
        src == orig.starting_tag.attributes@,
        is_component == (r.kind == ElementKind::Component),
        r.kind == element_kind_of(orig.starting_tag.tag_name@, orig.starting_tag.attributes@),
        r.starting_tag.tag_name == orig.starting_tag.tag_name,
        !opens_scope(orig) ==> s == p,
        (opens_scope(orig) && s != p) ==> {
            &&& p < s
            &&& h1.template_scopes@[s].parent == p
            &&& expr_len(for_var(orig)) + expr_len(slot_var(orig)) < usize::MAX ==> scope_vars(
                h1.template_scopes@,
                s,
            ) == expr_names(for_var(orig)) + expr_names(slot_var(orig))
        },
        r.starting_tag.attributes@.len() == src.len(),
        forall|j: int| 0 <= j < src.len() ==> attr_visited(h1, s, #[trigger] src[j], r.starting_tag.attributes@[j]),
        (f0, props_view(r.patch_hints)) == attr_flags(h1, s, src, src.len() as int, is_component),
        r.patch_hints.flags == (if text_only_dynamic(r.kind, r.children@) { f0 | TEXT } else { f0 }),
        directives_visited(h1, p, s, orig.starting_tag.directives, r.starting_tag.directives,
            has_attr(orig.starting_tag.attributes@, "key"@)),
        visited.len() == orig.children@.len(),
        forall|j: int| 0 <= j < visited.len() ==> node_visited(hf, s, #[trigger] orig.children@[j], visited[j]),
        nodes_match(r.children@, optimized(visited, r.kind)),
    ensures
        element_visited(hf, p, orig, r),
        helper_extends(h0, hf),
{

        
        lemma_kind_stable(h1, hf, s);
        lemma_kind_stable(h1, hf, p);
        lemma_attr_flags_stable(h1, hf, s, src, src.len() as int, is_component);
        assert forall|i: int| 0 <= i < src.len() implies attr_visited(hf, s, #[trigger] src[i], r.starting_tag.attributes@[i]) by {
            let a0 = src[i];
            let a1 = r.starting_tag.attributes@[i];
            assert(attr_visited(h1, s, a0, a1));
            match (a0, a1) {
                (AttributeOrBinding::VBind(x), AttributeOrBinding::VBind(y)) => {
                    lemma_tokens_stable(h1, hf, s, x.value, y.value);
                },
                (AttributeOrBinding::VOn(x), AttributeOrBinding::VOn(y)) => {
                    lemma_opt_stable(h1, hf, s, x.handler, y.handler);
                },
                _ => {},
            }
        }
        match (orig.starting_tag.directives, r.starting_tag.directives) {
            (Some(d0), Some(e)) => {
                lemma_opt_stable(h1, hf, p, d0.v_if, e.v_if);
                lemma_opt_stable(h1, hf, p, d0.v_else_if, e.v_else_if);
                lemma_opt_stable(h1, hf, s, d0.v_html, e.v_html);
                lemma_opt_stable(h1, hf, s, d0.v_memo, e.v_memo);
                lemma_opt_stable(h1, hf, s, d0.v_show, e.v_show);
                lemma_opt_stable(h1, hf, s, d0.v_text, e.v_text);
                match (d0.v_for, e.v_for) {
                    (Some(f), Some(g)) => {
                        lemma_tokens_stable(h1, hf, s, f.iterable, g.iterable);
                    },
                    _ => {},
                }
            },
            _ => {},
        }
        assert(hf.template_scopes@[s] == h1.template_scopes@[s]);
        lemma_extends_trans(h0, h1, hf);
        assert(r.patch_hints.flags == (if text_only_dynamic(r.kind, r.children@) { f0 | TEXT } else { f0 }));
        assert(exists|vs: Seq<Node>|
            #![trigger optimized(vs, r.kind)]
            vs.len() == orig.children@.len() && (forall|i: int|
                0 <= i < vs.len() ==> node_visited(hf, s, #[trigger] orig.children[i], vs[i])) && nodes_match(
                r.children@,
                optimized(vs, r.kind),
            )) by {
            assert(visited.len() == orig.children@.len());
            assert(nodes_match(r.children@, optimized(visited, r.kind)));
        }
    
}

/// A folded node whose elements all satisfy `element_flags_ok`.
pub open spec fn folded_ok(f: FoldedNode) -> bool {
    match f {
        FoldedNode::Plain(x) => node_flags_ok(x),
        FoldedNode::Chain(c, es, e) => {
            &&& element_flags_ok(c.node)
            &&& forall|i: int| 0 <= i < es.len() ==> element_flags_ok(#[trigger] es[i].node)
            &&& match e {
                Some(x) => element_flags_ok(x),
                None => true,
            }
        },
    }
}

pub open spec fn all_nodes_ok(s: Seq<Node>) -> bool {
    forall|i: int| 0 <= i < s.len() ==> node_flags_ok(#[trigger] s[i])
}

pub open spec fn all_folded_ok(s: Seq<FoldedNode>) -> bool {
    forall|i: int| 0 <= i < s.len() ==> folded_ok(#[trigger] s[i])
}

pub open spec fn open_ok(o: OpenChain) -> bool {
    match o {
        Some((c, es)) => element_flags_ok(c.node) && forall|i: int|
            0 <= i < es.len() ==> element_flags_ok(#[trigger] es[i].node),
        None => true,
    }
}

proof fn lemma_kept_ok(s: Seq<Node>, n: int)
    requires
        all_nodes_ok(s),
        0 <= n <= s.len(),
    ensures
        all_nodes_ok(kept_prefix(s, n)),
    decreases n,
{
    if n > 0 {
        lemma_kept_ok(s, n - 1);
    }
}

proof fn lemma_select_ok(s: Seq<Node>, n: int, dflt: bool)
    requires
        all_nodes_ok(s),
        0 <= n <= s.len(),
    ensures
        all_nodes_ok(select_slot(s, n, dflt)),
    decreases n,
{
    if n > 0 {
        lemma_select_ok(s, n - 1, dflt);
    }
}

proof fn lemma_without_ok(el: ElementNode)
    requires
        element_flags_ok(el),
    ensures
        element_flags_ok(without_if(el)),
        element_flags_ok(without_else_if(el)),
{
    assert(without_if(el).children == el.children);
    assert(without_else_if(el).children == el.children);
}

proof fn lemma_fold_ok(s: Seq<Node>, n: int)
    requires
        all_nodes_ok(s),
        0 <= n <= s.len(),
    ensures
        all_folded_ok(fold_prefix(s, n).0),
        open_ok(fold_prefix(s, n).1),
    decreases n,
{
    if n > 0 {
        lemma_fold_ok(s, n - 1);
        let x = s[n - 1];
        assert(node_flags_ok(x));
        if x is Element {
            lemma_without_ok(x->Element_0);
        }
        let st = fold_prefix(s, n);
        let prev = fold_prefix(s, n - 1);
        assert forall|i: int| 0 <= i < st.0.len() implies folded_ok(#[trigger] st.0[i]) by {
            if i < prev.0.len() && st.0.len() >= prev.0.len() && st.0.subrange(0, prev.0.len() as int) == prev.0 {
                assert(st.0[i] == prev.0[i]);
            }
        }
        if st.1 is Some && prev.1 is Some {
            let (c, es) = st.1->0;
            let (c0, es0) = prev.1->0;
            assert forall|i: int| 0 <= i < es.len() implies element_flags_ok(#[trigger] es[i].node) by {
                if i < es0.len() && es.subrange(0, es0.len() as int) == es0 {
                    assert(es[i] == es0[i]);
                }
            }
        }
    }
}

proof fn lemma_optimized_flags_ok(s: Seq<Node>, kind: ElementKind, r: Seq<Node>)
    requires
        all_nodes_ok(s),
        nodes_match(r, optimized(s, kind)),
    ensures
        all_nodes_ok(r),
{
    let e = elide_whitespace(s);
    lemma_kept_ok(s, s.len() as int);
    let o = if kind == ElementKind::Component { slot_order(e) } else { e };
    if kind == ElementKind::Component {
        lemma_select_ok(e, e.len() as int, false);
        lemma_select_ok(e, e.len() as int, true);
        assert(all_nodes_ok(o)) by {
            let a = select_slot(e, e.len() as int, false);
            let b = select_slot(e, e.len() as int, true);
            assert forall|i: int| 0 <= i < o.len() implies node_flags_ok(#[trigger] o[i]) by {
                if i < a.len() {
                    assert(o[i] == a[i]);
                } else {
                    assert(o[i] == b[i - a.len()]);
                }
            }
        }
    }
    lemma_fold_ok(o, o.len() as int);
    let f = fold_all(o);
    let st = fold_prefix(o, o.len() as int);
    assert(all_folded_ok(f)) by {
        assert forall|i: int| 0 <= i < f.len() implies folded_ok(#[trigger] f[i]) by {
            if i < st.0.len() {
                assert(f[i] == st.0[i]);
            }
        }
    }
    assert forall|i: int| 0 <= i < r.len() implies node_flags_ok(#[trigger] r[i]) by {
        assert(folded_ok(f[i]));
        lemma_match_ok(r[i], f[i]);
    }
}

proof fn lemma_match_ok(n: Node, f: FoldedNode)
    requires
        node_matches(n, f),
        folded_ok(f),
    ensures
        node_flags_ok(n),
{
    match f {
        FoldedNode::Plain(x) => {},
        FoldedNode::Chain(c, es, e) => {
            let q = n->ConditionalSeq_0;
            assert(q.else_if_nodes@ == es);
            assert forall|i: int| 0 <= i < q.else_if_nodes.len() implies element_flags_ok(
                (#[trigger] q.else_if_nodes[i]).node,
            ) by {
                assert(q.else_if_nodes[i] == es[i]);
            }
        },
    }
}

/// The element roots among the first `n` nodes, in order.
pub open spec fn element_roots(s: Seq<Node>, n: int) -> Seq<Node>
    decreases n,
{
    if n <= 0 {
        Seq::empty()
    } else if s[n - 1] is Element {
        element_roots(s, n - 1).push(s[n - 1])
    } else {
        element_roots(s, n - 1)
    }
}

/// The roots after the pass, given the element roots visited: the
/// optimized list when it has at most one node, else one `template` element
/// (no attributes, no directives, root scope, no flags) holding it.
pub open spec fn roots_after(roots: Seq<Node>, vs: Seq<Node>) -> bool {
    let f = optimized(vs, ElementKind::Element);
    if f.len() <= 1 {
        nodes_match(roots, f)
    } else {
        &&& roots.len() == 1
        &&& roots[0] is Element
        &&& {
            let w = roots[0]->Element_0;
            &&& w.kind == ElementKind::Element
            &&& w.starting_tag.tag_name@ == "template"@
            &&& w.starting_tag.attributes@.len() == 0
            &&& w.starting_tag.directives is None
            &&& w.template_scope == 0
            &&& w.patch_hints.flags == 0
            &&& w.patch_hints.props@.len() == 0
            &&& nodes_match(w.children@, f)
        }
    }
}

/// Transforms a template in place: opens the root scope if the table has
/// none, keeps only element roots and visits them in the root scope
/// (classification, scopes, resolution, patch flags), optimizes the root
/// list, and wraps more than one remaining root in a `template` element so
/// that a fragment is generated.
pub fn transform_and_record_template(
    template: &mut SfcTemplateBlock,
    bindings_helper: &mut BindingsHelper,
)
    ensures
        exists|vs: Seq<Node>|
            #![trigger roots_after(final(template).roots@, vs)]
            vs.len() == element_roots(old(template).roots@, old(template).roots@.len() as int).len()
                && (forall|i: int|
                0 <= i < vs.len() ==> node_visited(
                    *final(bindings_helper),
                    0,
                    #[trigger] element_roots(old(template).roots@, old(template).roots@.len() as int)[i],
                    vs[i],
                )) && roots_after(final(template).roots@, vs),
        final(bindings_helper).template_scopes@.len() >= 1,
        old(bindings_helper).template_scopes@.len() >= 1 ==> helper_extends(
            *old(bindings_helper),
            *final(bindings_helper),
        ),
        final(template).roots@.len() <= 1,
        (exists|i: int|
            0 <= i < old(template).roots@.len() && (#[trigger] old(template).roots@[i]) is Element)
            <==> final(template).roots@.len() == 1,
        forall|i: int| 0 <= i < final(template).roots@.len() ==> node_flags_ok(
            #[trigger] final(template).roots@[i],
        ),
        final(template).lang == old(template).lang,
{
    if bindings_helper.template_scopes.len() == 0 {
        open_scope(&mut bindings_helper.template_scopes, 0);
    }
    let ghost hs = *bindings_helper;
    assert(old(bindings_helper).template_scopes@.len() >= 1 ==> hs == *old(bindings_helper));
    let mut roots: Vec<Node> = Vec::new();
    std::mem::swap(&mut template.roots, &mut roots);
    let ghost src = roots@;
    let n = roots.len();
    let mut rev = into_reversed(roots);
    let mut out: Vec<Node> = Vec::new();
    let mut k: usize = 0;
    while k < n
        invariant
            k <= n,
            n == src.len(),
            src == old(template).roots@,
            rev@.len() == n - k,
            forall|j: int| 0 <= j < n - k ==> rev@[j] == src[n - 1 - j],
            forall|j: int| 0 <= j < out@.len() ==> node_flags_ok(#[trigger] out@[j]),
            forall|j: int| 0 <= j < out@.len() ==> (#[trigger] out@[j]) is Element,
            (exists|i: int| 0 <= i < k && (#[trigger] src[i]) is Element) <==> out@.len() >= 1,
            hs.template_scopes@.len() >= 1,
            helper_extends(hs, *bindings_helper),
            out@.len() == element_roots(src, k as int).len(),
            forall|j: int| 0 <= j < out@.len() ==> node_visited(*bindings_helper, 0, #[trigger] element_roots(src, k as int)[j], out@[j]),
        decreases n - k,
    {
        let popped = rev.pop();
        proof {
            if exists|i: int| 0 <= i < k + 1 && (#[trigger] src[i]) is Element {
                if !(exists|i: int| 0 <= i < k && (#[trigger] src[i]) is Element) {
                    assert(src[k as int] is Element);
                }
            }
        }
        let ghost hp = *bindings_helper;
        let ghost prev = out@;
        match popped {
            Some(Node::Element(el)) => {
                let ghost el0 = el;
                let el = visit_element_node(bindings_helper, 0, el);
                proof {
                    lemma_extends_trans(hs, hp, *bindings_helper);
                    assert forall|j: int| 0 <= j < prev.len() implies node_visited(*bindings_helper, 0, #[trigger] element_roots(src, k as int)[j], prev[j]) by {
                        lemma_node_visited_stable(hp, *bindings_helper, 0, element_roots(src, k as int)[j], prev[j]);
                    }
                }
                out.push(Node::Element(el));
                assert(out@[out@.len() - 1] is Element);
                assert(element_roots(src, k + 1) == element_roots(src, k as int).push(Node::Element(el0)));
                assert(node_visited(*bindings_helper, 0, Node::Element(el0), out@[prev.len() as int]));
            },
            _ => {},
        }
        k = k + 1;
    }
    let ghost visited = out@;
    optimize_children(&mut out, ElementKind::Element);
    proof {
        lemma_optimized_flags_ok(visited, ElementKind::Element, out@);
        if visited.len() >= 1 {
            assert(!is_blank_text(visited[0]));
            lemma_elision_keeps_non_blank(visited, 0);
            lemma_fold_nonempty(elide_whitespace(visited));
        } else {
            assert(elide_whitespace(visited) =~= Seq::<Node>::empty());
            assert(fold_all(elide_whitespace(visited)).len() == 0);
        }
    }
    if out.len() > 1 {
        let hints = PatchHints { flags: 0, props: Vec::new() };
        assert(0u16 & 16u16 == 0) by (bit_vector);
        let mut tag = String::new();
        tag.append("template");
        let root = ElementNode {
            kind: ElementKind::Element,
            starting_tag: StartingTag { tag_name: tag, attributes: Vec::new(), directives: None },
            children: out,
            template_scope: 0,
            patch_hints: hints,
        };
        let mut wrapped: Vec<Node> = Vec::new();
        wrapped.push(Node::Element(root));
        template.roots = wrapped;
    } else {
        template.roots = out;
    }
    assert(roots_after(template.roots@, visited));
}

} // verus!
